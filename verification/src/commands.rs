//! Building commands: input validation, payload construction, and the
//! identity and timestamp stamped on every command.

use vstd::prelude::*;
use crate::error::{CliError, ErrorView};
use crate::ipc::IpcClient;
use crate::json::{JsonData, JsonValue, chars_to_string, json_data_of, str_chars};
use crate::types::{
    Command, CommandType, ScrollDirection, TabNewPayload, TabSwitchPayload,
};

verus! {

// ---------------------------------------------------------------------------
// Character classes and trimming.
// ---------------------------------------------------------------------------

/// What `char::is_whitespace` holds of a character: a function of the
/// character alone.
pub uninterp spec fn spec_white(c: char) -> bool;

/// Relies on `char::is_whitespace`: whether the character has the Unicode
/// whitespace property, a function of the character alone.
#[verifier::external_body]
fn is_space(c: char) -> (r: bool)
    ensures
        r == spec_white(c),
{
    c.is_whitespace()
}

pub open spec fn white_end(s: Seq<char>, i: int) -> int
    decreases s.len() - i,
{
    if 0 <= i && i < s.len() && spec_white(s[i]) {
        white_end(s, i + 1)
    } else {
        i
    }
}

pub open spec fn white_start_back(s: Seq<char>, j: int) -> int
    decreases j,
{
    if 0 < j && j <= s.len() && spec_white(s[j - 1]) {
        white_start_back(s, j - 1)
    } else {
        j
    }
}

/// The text with leading and trailing whitespace removed.
pub open spec fn spec_trim(s: Seq<char>) -> Seq<char> {
    let a = white_end(s, 0);
    let b = white_start_back(s, s.len() as int);
    if a <= b {
        s.subrange(a, b)
    } else {
        Seq::empty()
    }
}

/// Trims leading and trailing whitespace.
pub fn trim_to_string(s: &str) -> (r: String)
    ensures
        r@ == spec_trim(s@),
{
    let cs = str_chars(s);
    let n = cs.len();
    let mut a: usize = 0;
    while a < n && is_space(cs[a])
        invariant
            a <= n,
            n == cs@.len(),
            cs@ == s@,
            white_end(s@, 0) == white_end(s@, a as int),
        decreases n - a,
    {
        a += 1;
    }
    let mut b: usize = n;
    while b > 0 && is_space(cs[b - 1])
        invariant
            b <= n,
            n == cs@.len(),
            cs@ == s@,
            white_start_back(s@, n as int) == white_start_back(s@, b as int),
        decreases b,
    {
        b -= 1;
    }
    if a >= b {
        proof {
            if white_end(s@, 0) <= white_start_back(s@, s@.len() as int) {
                assert(s@.subrange(a as int, b as int) =~= Seq::<char>::empty());
            }
        }
        return String::new();
    }
    let mut out: Vec<char> = Vec::new();
    let mut k = a;
    while k < b
        invariant
            a <= k <= b <= n,
            n == cs@.len(),
            cs@ == s@,
            out@ == s@.subrange(a as int, k as int),
        decreases b - k,
    {
        out.push(cs[k]);
        proof {
            assert(out@ =~= s@.subrange(a as int, k as int + 1));
        }
        k += 1;
    }
    chars_to_string(&out)
}

/// Whether the text begins with the given prefix.
pub open spec fn spec_starts_with(s: Seq<char>, p: Seq<char>) -> bool {
    p.len() <= s.len() && s.subrange(0, p.len() as int) == p
}

pub fn chars_start_with(cs: &Vec<char>, p: &str) -> (r: bool)
    ensures
        r == spec_starts_with(cs@, p@),
{
    let pc = str_chars(p);
    let m = pc.len();
    let n = cs.len();
    if m > n {
        return false;
    }
    let mut k: usize = 0;
    while k < m
        invariant
            k <= m <= n,
            m == pc@.len(),
            n == cs@.len(),
            pc@ == p@,
            forall|t: int| 0 <= t < k ==> cs@[t] == p@[t],
        decreases m - k,
    {
        if cs[k] != pc[k] {
            proof {
                assert(cs@.subrange(0, m as int)[k as int] == cs@[k as int]);
            }
            return false;
        }
        k += 1;
    }
    proof {
        assert(cs@.subrange(0, m as int) =~= p@);
    }
    true
}

/// The character with ASCII upper-case letters lowered.
pub open spec fn ascii_lower_char(c: char) -> char {
    if 65 <= (c as u32) && (c as u32) <= 90 {
        (((c as u32) + 32) as u32) as char
    } else {
        c
    }
}

/// The text with ASCII upper-case letters lowered.
pub open spec fn ascii_lower(s: Seq<char>) -> Seq<char> {
    Seq::new(s.len(), |i: int| ascii_lower_char(s[i]))
}

fn lower_char(c: char) -> (r: char)
    ensures
        r == ascii_lower_char(c),
{
    let x = c as u32;
    if 65 <= x && x <= 90 {
        let r = crate::json::char_from_code(x + 32);
        proof {
            vstd::utf8::char_u32_cast(r, (x + 32) as u32);
        }
        r
    } else {
        c
    }
}

/// Whether the text, ASCII-lowered, begins with the given prefix.
fn chars_start_with_lowered(cs: &Vec<char>, p: &str) -> (r: bool)
    ensures
        r == spec_starts_with(ascii_lower(cs@), p@),
{
    let pc = str_chars(p);
    let m = pc.len();
    let n = cs.len();
    if m > n {
        return false;
    }
    let mut k: usize = 0;
    while k < m
        invariant
            k <= m <= n,
            m == pc@.len(),
            n == cs@.len(),
            pc@ == p@,
            forall|t: int| 0 <= t < k ==> ascii_lower(cs@)[t] == p@[t],
        decreases m - k,
    {
        let lc = lower_char(cs[k]);
        if lc != pc[k] {
            proof {
                assert(ascii_lower(cs@).subrange(0, m as int)[k as int] == ascii_lower(
                    cs@,
                )[k as int]);
                assert(ascii_lower(cs@)[k as int] == ascii_lower_char(cs@[k as int]));
            }
            return false;
        }
        k += 1;
    }
    proof {
        assert(ascii_lower(cs@).subrange(0, m as int) =~= p@);
    }
    true
}

// ---------------------------------------------------------------------------
// Input validation.
// ---------------------------------------------------------------------------

/// Validates an element reference: it must not be empty or all
/// whitespace.
pub fn validate_ref(element_ref: &str) -> (r: Result<(), CliError>)
    ensures
        match r {
            Ok(()) => spec_trim(element_ref@).len() > 0,
            Err(e) => spec_trim(element_ref@).len() == 0 && e@ == ErrorView::InvalidArguments(
                "Element reference cannot be empty"@,
            ),
        },
{
    let trimmed = trim_to_string(element_ref);
    if trimmed.as_str().is_empty() {
        Err(CliError::InvalidArguments(String::from_str("Element reference cannot be empty")))
    } else {
        Ok(())
    }
}

/// Validates an eval script: it must not be empty or all whitespace.
pub fn validate_script(script: &str) -> (r: Result<(), CliError>)
    ensures
        match r {
            Ok(()) => spec_trim(script@).len() > 0,
            Err(e) => spec_trim(script@).len() == 0 && e@ == ErrorView::InvalidArguments(
                "Script cannot be empty"@,
            ),
        },
{
    let trimmed = trim_to_string(script);
    if trimmed.as_str().is_empty() {
        Err(CliError::InvalidArguments(String::from_str("Script cannot be empty")))
    } else {
        Ok(())
    }
}

/// The normalized form of a URL argument: trimmed, with `https://`
/// prefixed when no HTTP scheme is present.
pub open spec fn spec_normalize_url(s: Seq<char>) -> Seq<char> {
    let t = spec_trim(s);
    if spec_starts_with(t, "http://"@) || spec_starts_with(t, "https://"@) {
        t
    } else {
        "https://"@ + t
    }
}

/// Normalizes a URL argument.
pub fn normalize_url(url: &str) -> (r: String)
    ensures
        r@ == spec_normalize_url(url@),
{
    let trimmed = trim_to_string(url);
    let tc = str_chars(trimmed.as_str());
    if chars_start_with(&tc, "http://") || chars_start_with(&tc, "https://") {
        trimmed
    } else {
        let mut out = String::from_str("https://");
        out.append(trimmed.as_str());
        out
    }
}

/// Validates a URL argument: it must not be empty, and must not name a
/// browser-internal page.
pub fn validate_url(url: &str) -> (r: Result<(), CliError>)
    ensures
        match r {
            Ok(()) => spec_trim(url@).len() > 0 && !spec_starts_with(
                ascii_lower(url@),
                "chrome://"@,
            ) && !spec_starts_with(ascii_lower(url@), "about:"@),
            Err(e) => (spec_trim(url@).len() == 0 && e@ == ErrorView::InvalidArguments(
                "URL cannot be empty"@,
            )) || (spec_trim(url@).len() > 0 && (spec_starts_with(ascii_lower(url@), "chrome://"@)
                || spec_starts_with(ascii_lower(url@), "about:"@)) && e@
                == ErrorView::InvalidArguments("Chrome internal URLs are not allowed"@)),
        },
{
    let trimmed = trim_to_string(url);
    if trimmed.as_str().is_empty() {
        return Err(CliError::InvalidArguments(String::from_str("URL cannot be empty")));
    }
    let cs = str_chars(url);
    if chars_start_with_lowered(&cs, "chrome://") || chars_start_with_lowered(&cs, "about:") {
        return Err(CliError::InvalidArguments(String::from_str(
            "Chrome internal URLs are not allowed",
        )));
    }
    Ok(())
}

/// Parses a scroll direction, case-insensitively.
pub fn parse_direction(s: &str) -> (r: Result<ScrollDirection, CliError>)
    ensures
        match r {
            Ok(d) => (d == ScrollDirection::Up && ascii_lower(s@) == "up"@) || (d
                == ScrollDirection::Down && ascii_lower(s@) == "down"@) || (d
                == ScrollDirection::Left && ascii_lower(s@) == "left"@) || (d
                == ScrollDirection::Right && ascii_lower(s@) == "right"@),
            Err(e) => ascii_lower(s@) != "up"@ && ascii_lower(s@) != "down"@ && ascii_lower(s@)
                != "left"@ && ascii_lower(s@) != "right"@ && e@ == ErrorView::InvalidArguments(
                "Invalid scroll direction: "@ + s@ + ". Must be up, down, left, or right"@,
            ),
        },
{
    let cs = str_chars(s);
    let mut lowered: Vec<char> = Vec::new();
    let n = cs.len();
    let mut k: usize = 0;
    while k < n
        invariant
            k <= n,
            n == cs@.len(),
            cs@ == s@,
            lowered@ == ascii_lower(s@).subrange(0, k as int),
        decreases n - k,
    {
        lowered.push(lower_char(cs[k]));
        proof {
            assert(lowered@ =~= ascii_lower(s@).subrange(0, k as int + 1));
        }
        k += 1;
    }
    proof {
        assert(ascii_lower(s@).subrange(0, n as int) =~= ascii_lower(s@));
    }
    let lowered_text = chars_to_string(&lowered);
    let lt = lowered_text.as_str();
    if crate::json::str_eq(lt, "up") {
        Ok(ScrollDirection::Up)
    } else if crate::json::str_eq(lt, "down") {
        Ok(ScrollDirection::Down)
    } else if crate::json::str_eq(lt, "left") {
        Ok(ScrollDirection::Left)
    } else if crate::json::str_eq(lt, "right") {
        Ok(ScrollDirection::Right)
    } else {
        let mut text = String::from_str("Invalid scroll direction: ");
        text.append(s);
        text.append(". Must be up, down, left, or right");
        Err(CliError::InvalidArguments(text))
    }
}

// ---------------------------------------------------------------------------
// Identity and timestamp.
// ---------------------------------------------------------------------------

/// Relies on `uuid::Uuid::new_v4` and its display form: a freshly
/// generated random UUID, written hyphenated as exactly 36 characters.
/// Randomness makes collisions between ids astronomically unlikely;
/// nothing further is assumed about the value.
#[verifier::external_body]
pub fn generate_command_id() -> (r: String)
    ensures
        r@.len() == 36,
{
    uuid::Uuid::new_v4().to_string()
}

/// Relies on `time::OffsetDateTime::now_utc` and RFC 3339 formatting: the
/// current UTC wall-clock time as RFC 3339 text.  The value depends on
/// the clock, so nothing is assumed about it.
#[verifier::external_body]
pub fn current_timestamp() -> String {
    match time::OffsetDateTime::now_utc().format(
        &time::format_description::well_known::Rfc3339,
    ) {
        Ok(t) => t,
        Err(_) => String::new(),
    }
}

// ---------------------------------------------------------------------------
// Building commands.
// ---------------------------------------------------------------------------

/// What the params of a built command are: an empty object becomes no
/// params at all, so the daemon can tell "no params" from "empty params".
pub open spec fn spec_normalize_params(p: JsonData) -> Option<JsonData> {
    match p {
        JsonData::Obj(ms) => if ms.len() == 0 {
            None
        } else {
            Some(p)
        },
        _ => Some(p),
    }
}

/// Builds commands for one session and profile.
#[derive(Debug)]
pub struct CommandBuilder {
    pub session_id: String,
    pub profile: Option<String>,
}

impl CommandBuilder {
    /// A builder for the given session and profile.
    pub fn new(session_id: String, profile: Option<String>) -> (r: Self)
        ensures
            r.session_id == session_id,
            r.profile == profile,
    {
        CommandBuilder { session_id, profile }
    }

    /// Builds a command: a fresh id, this builder's session and profile,
    /// the given kind, the normalized params, and a fresh timestamp.
    pub fn build(&self, command_type: CommandType, params: JsonValue) -> (c: Command)
        ensures
            c.id@.len() == 36,
            c.session_id@ == self.session_id@,
            c@.profile == (match self.profile {
                Some(p) => Some(p@),
                None => None::<Seq<char>>,
            }),
            c.command_type == command_type,
            c@.params == spec_normalize_params(json_data_of(params)),
    {
        let params_opt = match &params {
            JsonValue::Obj(members) => if members.len() == 0 {
                None
            } else {
                Some(params)
            },
            _ => Some(params),
        };
        Command {
            id: generate_command_id(),
            session_id: self.session_id.clone(),
            profile: match &self.profile {
                Some(p) => Some(p.clone()),
                None => None,
            },
            command_type,
            params: params_opt,
            timestamp: current_timestamp(),
        }
    }
}

/// Everything a command handler needs: the client, and the resolved
/// session and profile.
#[derive(Debug)]
pub struct CommandContext {
    pub client: IpcClient,
    pub session_id: String,
    pub profile: Option<String>,
}

impl CommandContext {
    /// A context over the given client, session and profile.
    pub fn new(client: IpcClient, session_id: String, profile: Option<String>) -> (r: Self)
        ensures
            r.client == client,
            r.session_id == session_id,
            r.profile == profile,
    {
        CommandContext { client, session_id, profile }
    }

    /// Builds the command this context would send for the given kind and
    /// params.  The binary encodes it with
    /// [`crate::codec::encode_command_frame`] and performs the exchange.
    pub fn build_command(&self, command_type: CommandType, params: JsonValue) -> (c: Command)
        ensures
            c.id@.len() == 36,
            c.session_id@ == self.session_id@,
            c@.profile == (match self.profile {
                Some(p) => Some(p@),
                None => None::<Seq<char>>,
            }),
            c.command_type == command_type,
            c@.params == spec_normalize_params(json_data_of(params)),
    {
        let builder = CommandBuilder::new(
            self.session_id.clone(),
            match &self.profile {
                Some(p) => Some(p.clone()),
                None => None,
            },
        );
        builder.build(command_type, params)
    }
}

// ---------------------------------------------------------------------------
// The individual commands that carry no free-form arguments.
// ---------------------------------------------------------------------------

/// Go back in browser history.
#[derive(Debug, Default)]
pub struct BackCommand {}

impl BackCommand {
    /// The kind this command sends.
    pub fn command_type(&self) -> (k: CommandType)
        ensures
            k == CommandType::Back,
    {
        CommandType::Back
    }

    /// The payload this command sends: an empty object, which the builder
    /// normalizes away.
    pub fn payload(&self) -> (r: JsonValue)
        ensures
            json_data_of(r) == JsonData::Obj(Seq::<(Seq<char>, JsonData)>::empty()),
    {
        JsonValue::Obj(Vec::new())
    }
}

/// Go forward in browser history.
#[derive(Debug, Default)]
pub struct ForwardCommand {}

impl ForwardCommand {
    /// The kind this command sends.
    pub fn command_type(&self) -> (k: CommandType)
        ensures
            k == CommandType::Forward,
    {
        CommandType::Forward
    }

    /// The payload this command sends.
    pub fn payload(&self) -> (r: JsonValue)
        ensures
            json_data_of(r) == JsonData::Obj(Seq::<(Seq<char>, JsonData)>::empty()),
    {
        JsonValue::Obj(Vec::new())
    }
}

/// Close the active tab.
#[derive(Debug, Default)]
pub struct TabCloseCommand {}

impl TabCloseCommand {
    /// The kind this command sends.
    pub fn command_type(&self) -> (k: CommandType)
        ensures
            k == CommandType::TabClose,
    {
        CommandType::TabClose
    }

    /// The payload this command sends.
    pub fn payload(&self) -> (r: JsonValue)
        ensures
            json_data_of(r) == JsonData::Obj(Seq::<(Seq<char>, JsonData)>::empty()),
    {
        JsonValue::Obj(Vec::new())
    }
}

/// List the open tabs.
#[derive(Debug, Default)]
pub struct TabListCommand {}

impl TabListCommand {
    /// The kind this command sends.
    pub fn command_type(&self) -> (k: CommandType)
        ensures
            k == CommandType::TabList,
    {
        CommandType::TabList
    }

    /// The payload this command sends.
    pub fn payload(&self) -> (r: JsonValue)
        ensures
            json_data_of(r) == JsonData::Obj(Seq::<(Seq<char>, JsonData)>::empty()),
    {
        JsonValue::Obj(Vec::new())
    }
}

/// Open a new tab, optionally at a URL.
#[derive(Debug)]
pub struct TabNewCommand {
    pub url: Option<String>,
}

impl TabNewCommand {
    /// A tab-new command for the given URL, if any.
    pub fn new(url: Option<String>) -> (r: Self)
        ensures
            r.url == url,
    {
        TabNewCommand { url }
    }

    /// The kind this command sends.
    pub fn command_type(&self) -> (k: CommandType)
        ensures
            k == CommandType::TabNew,
    {
        CommandType::TabNew
    }

    /// The payload this command sends: the URL normalized, or no members
    /// when none was given.
    pub fn payload(&self) -> (r: JsonValue)
        ensures
            json_data_of(r) == JsonData::Obj(
                match self.url {
                    Some(u) => seq![("url"@, JsonData::Str(spec_normalize_url(u@)))],
                    None => Seq::empty(),
                },
            ),
    {
        let normalized = match &self.url {
            Some(u) => Some(normalize_url(u.as_str())),
            None => None,
        };
        let p = TabNewPayload { url: normalized };
        p.to_json()
    }
}

/// Switch to a tab by id.
#[derive(Debug)]
pub struct TabSwitchCommand {
    pub tab_id: i32,
}

impl TabSwitchCommand {
    /// A tab-switch command for the given tab.
    pub fn new(tab_id: i32) -> (r: Self)
        ensures
            r.tab_id == tab_id,
    {
        TabSwitchCommand { tab_id }
    }

    /// The kind this command sends.
    pub fn command_type(&self) -> (k: CommandType)
        ensures
            k == CommandType::TabSwitch,
    {
        CommandType::TabSwitch
    }

    /// The payload this command sends.
    pub fn payload(&self) -> (r: JsonValue)
        ensures
            json_data_of(r) == JsonData::Obj(seq![("tab_id"@, JsonData::Int(self.tab_id as int))]),
    {
        let p = TabSwitchPayload { tab_id: self.tab_id };
        p.to_json()
    }
}

} // verus!
