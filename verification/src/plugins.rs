//! The decisions of the plugin locator that are pure: version comparison
//! and the plugins directory.  Version probing, downloading and
//! installation are I/O and live in the binary.

use vstd::prelude::*;
use crate::json::str_chars;

verus! {

/// Where a plugin comes from and how its version is probed.
#[derive(Debug)]
pub struct PluginConfig {
    pub name: String,
    pub base_url: String,
    pub targets: Vec<String>,
    pub version: Option<String>,
    pub repo: Option<String>,
    pub owner: Option<String>,
    pub version_arg: Option<String>,
}

/// The version text with one leading `v` removed, if any.
pub open spec fn spec_strip_v(s: Seq<char>) -> Seq<char> {
    if s.len() >= 1 && s[0] == 'v' {
        s.drop_first()
    } else {
        s
    }
}

/// Whether two version texts name the same version, ignoring a leading
/// `v` on either.
pub fn is_same_version(current: &str, latest: &str) -> (r: bool)
    ensures
        r == (spec_strip_v(current@) == spec_strip_v(latest@)),
{
    let ca = str_chars(current);
    let cb = str_chars(latest);
    let ai: usize = if ca.len() >= 1 && ca[0] == 'v' { 1 } else { 0 };
    let bi: usize = if cb.len() >= 1 && cb[0] == 'v' { 1 } else { 0 };
    let na = ca.len();
    let nb = cb.len();
    proof {
        assert(spec_strip_v(current@) =~= ca@.skip(ai as int));
        assert(spec_strip_v(latest@) =~= cb@.skip(bi as int));
    }
    if na - ai != nb - bi {
        proof {
            assert(ca@.skip(ai as int).len() != cb@.skip(bi as int).len());
        }
        return false;
    }
    let m = na - ai;
    let mut k: usize = 0;
    while k < m
        invariant
            k <= m,
            ai + m == na,
            bi + m == nb,
            na == ca@.len(),
            nb == cb@.len(),
            ai <= na,
            bi <= nb,
            ca@ == current@,
            cb@ == latest@,
            spec_strip_v(current@) == ca@.skip(ai as int),
            spec_strip_v(latest@) == cb@.skip(bi as int),
            forall|t: int| 0 <= t < k ==> #[trigger] ca@[ai + t] == cb@[bi + t],
        decreases m - k,
    {
        if ca[ai + k] != cb[bi + k] {
            proof {
                assert(ca@.skip(ai as int)[k as int] == ca@[ai + k as int]);
                assert(cb@.skip(bi as int)[k as int] == cb@[bi + k as int]);
            }
            return false;
        }
        k += 1;
    }
    proof {
        assert forall|t: int| 0 <= t < m implies ca@.skip(ai as int)[t] == cb@.skip(
            bi as int,
        )[t] by {
            assert(ca@.skip(ai as int)[t] == ca@[ai + t]);
            assert(cb@.skip(bi as int)[t] == cb@[bi + t]);
        }
        assert(ca@.skip(ai as int) =~= cb@.skip(bi as int));
        assert(spec_strip_v(current@) == spec_strip_v(latest@));
    }
    true
}

/// Whether `p` occurs anywhere in `s`.
pub open spec fn spec_contains(s: Seq<char>, p: Seq<char>) -> bool {
    exists|i: int| 0 <= i <= s.len() - p.len() && #[trigger] s.subrange(i, i + p.len() as int) == p
}

fn chars_contain(cs: &Vec<char>, p: &str) -> (r: bool)
    ensures
        r == spec_contains(cs@, p@),
{
    let pc = str_chars(p);
    let m = pc.len();
    let n = cs.len();
    if m > n {
        proof {
            assert(!spec_contains(cs@, p@));
        }
        return false;
    }
    if m == 0 {
        proof {
            assert(cs@.subrange(0, 0 + p@.len() as int) =~= p@);
            assert(spec_contains(cs@, p@));
        }
        return true;
    }
    let mut i: usize = 0;
    while i <= n - m
        invariant
            1 <= m <= n,
            i <= n - m + 1,
            m == pc@.len(),
            n == cs@.len(),
            pc@ == p@,
            forall|t: int| 0 <= t < i ==> #[trigger] cs@.subrange(t, t + p@.len() as int) != p@,
        decreases n - i,
    {
        let mut j: usize = 0;
        let mut matched = true;
        while j < m
            invariant
                j <= m,
                i + m <= n,
                m == pc@.len(),
                n == cs@.len(),
                pc@ == p@,
                matched ==> forall|t: int| 0 <= t < j ==> #[trigger] cs@[i + t] == p@[t],
                !matched ==> cs@.subrange(i as int, i + p@.len() as int) != p@,
            decreases m - j,
        {
            if cs[i + j] != pc[j] {
                proof {
                    assert(cs@.subrange(i as int, i + p@.len() as int)[j as int] == cs@[i
                        + j as int]);
                }
                matched = false;
                j = m;
            } else {
                j += 1;
            }
        }
        if matched {
            proof {
                assert forall|t: int| 0 <= t < p@.len() implies cs@.subrange(
                    i as int,
                    i + p@.len() as int,
                )[t] == p@[t] by {
                    assert(cs@[i + t] == p@[t]);
                }
                assert(cs@.subrange(i as int, i + p@.len() as int) =~= p@);
            }
            return true;
        }
        i += 1;
    }
    proof {
        assert forall|t: int| 0 <= t <= cs@.len() - p@.len() implies #[trigger] cs@.subrange(
            t,
            t + p@.len() as int,
        ) != p@ by {}
    }
    false
}

/// The download address, archive member name and archive kind for one
/// plugin on one platform: windows targets get a `.exe` binary in a zip,
/// the rest a bare binary in a tar.gz; GitHub bases use the release
/// download layout, others the plain `base/version/artifact` layout.
pub open spec fn spec_download_url(
    base: Seq<char>,
    version: Option<Seq<char>>,
    artifact: Seq<char>,
) -> Seq<char> {
    if spec_contains(base, "github.com"@) {
        match version {
            Some(v) => base + "/releases/download/"@ + v + "/"@ + artifact,
            None => base + "/releases/latest/download/"@ + artifact,
        }
    } else {
        base + "/"@ + (match version {
            Some(v) => v,
            None => "latest"@,
        }) + "/"@ + artifact
    }
}

impl PluginConfig {
    /// The version named by this configuration, as characters.
    pub open spec fn spec_version(&self) -> Option<Seq<char>> {
        match self.version {
            Some(v) => Some(v@),
            None => None,
        }
    }
}

/// Decides where to download a plugin from, for the given platform and
/// architecture, and what the binary inside the archive is called.
/// Fails exactly when the platform-architecture pair is not among the
/// plugin's supported targets.
pub fn get_download_info(config: &PluginConfig, platform: &str, arch: &str) -> (r: Result<
    (String, String, bool),
    String,
>)
    ensures
        ({
            let target = platform@ + "-"@ + arch@;
            let is_zip = crate::commands::spec_starts_with(target, "windows"@);
            let binary = if is_zip {
                config.name@ + ".exe"@
            } else {
                config.name@
            };
            let ext: Seq<char> = if is_zip {
                "zip"@
            } else {
                "tar.gz"@
            };
            let artifact = config.name@ + "-"@ + target + "."@ + ext;
            match r {
                Ok((url, bin, zip)) => (exists|k: int|
                    0 <= k < config.targets@.len() && #[trigger] config.targets@[k]@ == target)
                    && zip == is_zip && bin@ == binary && url@ == spec_download_url(
                    config.base_url@,
                    config.spec_version(),
                    artifact,
                ),
                Err(msg) => !(exists|k: int|
                    0 <= k < config.targets@.len() && #[trigger] config.targets@[k]@ == target)
                    && msg@ == "Plugin "@ + config.name@ + " does not support target: "@ + target,
            }
        }),
{
    let mut target = String::from_str(platform);
    target.append("-");
    target.append(arch);
    let n = config.targets.len();
    let mut supported = false;
    let mut k: usize = 0;
    while k < n
        invariant
            k <= n,
            n == config.targets@.len(),
            target@ == platform@ + "-"@ + arch@,
            supported ==> exists|t: int|
                0 <= t < config.targets@.len() && #[trigger] config.targets@[t]@ == target@,
            !supported ==> forall|t: int| 0 <= t < k ==> #[trigger] config.targets@[t]@
                != target@,
        decreases n - k,
    {
        if crate::json::str_eq(config.targets[k].as_str(), target.as_str()) {
            supported = true;
        }
        k += 1;
    }
    if !supported {
        let mut msg = String::from_str("Plugin ");
        msg.append(config.name.as_str());
        msg.append(" does not support target: ");
        msg.append(target.as_str());
        return Err(msg);
    }
    let tc = str_chars(target.as_str());
    let is_zip = crate::commands::chars_start_with(&tc, "windows");
    let mut binary = String::from_str(config.name.as_str());
    if is_zip {
        binary.append(".exe");
    }
    let mut artifact = String::from_str(config.name.as_str());
    artifact.append("-");
    artifact.append(target.as_str());
    artifact.append(".");
    if is_zip {
        artifact.append("zip");
    } else {
        artifact.append("tar.gz");
    }
    proof {
        if is_zip {
            assert(config.name@ + "-"@ + target@ + "."@ + "zip"@ =~= artifact@);
        } else {
            assert(config.name@ + "-"@ + target@ + "."@ + "tar.gz"@ =~= artifact@);
        }
    }
    let bc = str_chars(config.base_url.as_str());
    let mut url = String::from_str(config.base_url.as_str());
    if chars_contain(&bc, "github.com") {
        match &config.version {
            Some(v) => {
                url.append("/releases/download/");
                url.append(v.as_str());
                url.append("/");
            }
            None => {
                url.append("/releases/latest/download/");
            }
        }
    } else {
        url.append("/");
        match &config.version {
            Some(v) => {
                url.append(v.as_str());
            }
            None => {
                url.append("latest");
            }
        }
        url.append("/");
    }
    url.append(artifact.as_str());
    Ok((url, binary, is_zip))
}

/// The directory plugins are installed in, under the given home
/// directory.
pub fn get_plugins_dir(home_dir: &str) -> (r: String)
    ensures
        r@ == home_dir@ + "/.stakpak/plugins"@,
{
    let mut out = String::from_str(home_dir);
    out.append("/.stakpak/plugins");
    out
}

} // verus!
