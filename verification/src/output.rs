//! Reading typed data out of responses, and formatting responses for
//! display.

use vstd::prelude::*;
use crate::error::{CliError, ErrorView};
use crate::json::{
    JsonData, JsonValue, int_chars, int_to_string, json_data_of, json_lookup, to_json_text,
    json_chars,
};
use crate::types::{CommandResponse, SnapshotData, TabInfo, TabListData};

verus! {

// ---------------------------------------------------------------------------
// The shapes of the two structured results.
// ---------------------------------------------------------------------------

/// What a snapshot result holds: the tree, the title and the URL, each a
/// string member of an object.
pub open spec fn spec_snapshot_of_json(d: JsonData) -> Option<(Seq<char>, Seq<char>, Seq<char>)> {
    match d {
        JsonData::Obj(ms) => match (
            json_lookup(ms, "snapshot"@),
            json_lookup(ms, "title"@),
            json_lookup(ms, "url"@),
        ) {
            (
                Some(JsonData::Str(snap)),
                Some(JsonData::Str(title)),
                Some(JsonData::Str(url)),
            ) => Some((snap, title, url)),
            _ => None,
        },
        _ => None,
    }
}

/// Spec image of one tab: id, url, title, active.
pub open spec fn tab_info_view(t: TabInfo) -> (int, Seq<char>, Seq<char>, bool) {
    (t.id as int, t.url@, t.title@, t.active)
}

/// What one tab entry holds; a missing `active` member means inactive.
pub open spec fn spec_tab_of_json(d: JsonData) -> Option<(int, Seq<char>, Seq<char>, bool)> {
    match d {
        JsonData::Obj(ms) => match (
            json_lookup(ms, "id"@),
            json_lookup(ms, "url"@),
            json_lookup(ms, "title"@),
        ) {
            (Some(JsonData::Int(id)), Some(JsonData::Str(u)), Some(JsonData::Str(t))) => {
                let active = match json_lookup(ms, "active"@) {
                    Some(JsonData::Bool(b)) => b,
                    _ => false,
                };
                Some((id, u, t, active))
            }
            _ => None,
        },
        _ => None,
    }
}

/// What a sequence of tab entries holds, all or nothing.
pub open spec fn spec_tabs_of_json(elems: Seq<JsonData>) -> Option<
    Seq<(int, Seq<char>, Seq<char>, bool)>,
>
    decreases elems.len(),
{
    if elems.len() == 0 {
        Some(Seq::empty())
    } else {
        match (spec_tab_of_json(elems[0]), spec_tabs_of_json(elems.drop_first())) {
            (Some(t), Some(rest)) => Some(seq![t] + rest),
            _ => None,
        }
    }
}

/// What a tab-list result holds: the tabs, and the active tab's id under
/// either of its two spellings.
pub open spec fn spec_tab_list_of_json(d: JsonData) -> Option<
    (Seq<(int, Seq<char>, Seq<char>, bool)>, int),
> {
    match d {
        JsonData::Obj(ms) => {
            let active_id = match json_lookup(ms, "active_tab_id"@) {
                Some(JsonData::Int(i)) => Some(i),
                _ => match json_lookup(ms, "activeTabId"@) {
                    Some(JsonData::Int(i)) => Some(i),
                    _ => None,
                },
            };
            match (json_lookup(ms, "tabs"@), active_id) {
                (Some(JsonData::Arr(elems)), Some(aid)) => match spec_tabs_of_json(elems) {
                    Some(ts) => Some((ts, aid)),
                    None => None,
                },
                _ => None,
            }
        }
        _ => None,
    }
}

// ---------------------------------------------------------------------------
// Reading the shapes out of values.
// ---------------------------------------------------------------------------

fn snapshot_of_json(v: &JsonValue) -> (r: Option<SnapshotData>)
    ensures
        match r {
            Some(sd) => spec_snapshot_of_json(json_data_of(*v)) == Some(
                (sd.snapshot@, sd.title@, sd.url@),
            ),
            None => spec_snapshot_of_json(json_data_of(*v)) is None,
        },
{
    match v {
        JsonValue::Obj(members) => {
            let snap: Option<String> = match crate::json::find_key(members, "snapshot") {
                Some(idx) => match &members[idx].1 {
                    JsonValue::Str(s) => Some(s.clone()),
                    _ => None,
                },
                None => None,
            };
            let title: Option<String> = match crate::json::find_key(members, "title") {
                Some(idx) => match &members[idx].1 {
                    JsonValue::Str(s) => Some(s.clone()),
                    _ => None,
                },
                None => None,
            };
            let url: Option<String> = match crate::json::find_key(members, "url") {
                Some(idx) => match &members[idx].1 {
                    JsonValue::Str(s) => Some(s.clone()),
                    _ => None,
                },
                None => None,
            };
            match (snap, title, url) {
                (Some(snapshot), Some(title), Some(url)) => Some(
                    SnapshotData { snapshot, title, url },
                ),
                _ => None,
            }
        }
        _ => None,
    }
}

fn tab_of_json(v: &JsonValue) -> (r: Option<TabInfo>)
    ensures
        match r {
            Some(t) => spec_tab_of_json(json_data_of(*v)) == Some(tab_info_view(t)),
            None => spec_tab_of_json(json_data_of(*v)) is None,
        },
{
    match v {
        JsonValue::Obj(members) => {
            let id: Option<i64> = match crate::json::find_key(members, "id") {
                Some(idx) => match &members[idx].1 {
                    JsonValue::Int(i) => Some(*i),
                    _ => None,
                },
                None => None,
            };
            let url: Option<String> = match crate::json::find_key(members, "url") {
                Some(idx) => match &members[idx].1 {
                    JsonValue::Str(s) => Some(s.clone()),
                    _ => None,
                },
                None => None,
            };
            let title: Option<String> = match crate::json::find_key(members, "title") {
                Some(idx) => match &members[idx].1 {
                    JsonValue::Str(s) => Some(s.clone()),
                    _ => None,
                },
                None => None,
            };
            let active: bool = match crate::json::find_key(members, "active") {
                Some(idx) => match &members[idx].1 {
                    JsonValue::Bool(b) => *b,
                    _ => false,
                },
                None => false,
            };
            match (id, url, title) {
                (Some(id), Some(url), Some(title)) => Some(TabInfo { id, url, title, active }),
                _ => None,
            }
        }
        _ => None,
    }
}

/// Spec images of a vector of tabs.
pub open spec fn tabs_view(ts: Seq<TabInfo>) -> Seq<(int, Seq<char>, Seq<char>, bool)> {
    Seq::new(ts.len(), |i: int| tab_info_view(ts[i]))
}

fn tab_list_of_json(v: &JsonValue) -> (r: Option<TabListData>)
    ensures
        match r {
            Some(tl) => spec_tab_list_of_json(json_data_of(*v)) == Some(
                (tabs_view(tl.tabs@), tl.active_tab_id as int),
            ),
            None => spec_tab_list_of_json(json_data_of(*v)) is None,
        },
{
    match v {
        JsonValue::Obj(members) => {
            let aid: Option<i64> = match crate::json::find_key(members, "active_tab_id") {
                Some(idx) => match &members[idx].1 {
                    JsonValue::Int(i) => Some(*i),
                    _ => None,
                },
                None => None,
            };
            let aid: Option<i64> = match aid {
                Some(i) => Some(i),
                None => match crate::json::find_key(members, "activeTabId") {
                    Some(idx) => match &members[idx].1 {
                        JsonValue::Int(i) => Some(*i),
                        _ => None,
                    },
                    None => None,
                },
            };
            match crate::json::find_key(members, "tabs") {
                Some(t_idx) => match (&members[t_idx].1, aid) {
                    (JsonValue::Arr(elems), Some(active_tab_id)) => {
                        let ghost ev = crate::json::vals_view(elems@);
                        let ghost target = spec_tab_list_of_json(json_data_of(*v));
                        proof {
                            crate::json::lemma_vals_view(elems@);
                            assert(ev.skip(0) =~= ev);
                            assert(target == (match spec_tabs_of_json(ev) {
                                Some(ts) => Some((ts, active_tab_id as int)),
                                None => None::<(Seq<(int, Seq<char>, Seq<char>, bool)>, int)>,
                            }));
                        }
                        let n = elems.len();
                        let mut tabs: Vec<TabInfo> = Vec::new();
                        let mut k: usize = 0;
                        while k < n
                            invariant
                                k <= n,
                                n == elems@.len(),
                                ev == crate::json::vals_view(elems@),
                                ev.len() == n,
                                target == spec_tab_list_of_json(json_data_of(*v)),
                                target == (match spec_tabs_of_json(ev) {
                                    Some(ts) => Some((ts, active_tab_id as int)),
                                    None => None::<(Seq<(int, Seq<char>, Seq<char>, bool)>, int)>,
                                }),
                                forall|t: int| 0 <= t < n ==> #[trigger] ev[t] == json_data_of(
                                    elems@[t],
                                ),
                                tabs@.len() == k,
                                ({
                                    match spec_tabs_of_json(ev.skip(k as int)) {
                                        Some(rest) => spec_tabs_of_json(ev) == Some(
                                            tabs_view(tabs@) + rest,
                                        ),
                                        None => spec_tabs_of_json(ev) is None,
                                    }
                                }),
                            decreases n - k,
                        {
                            proof {
                                assert(ev.skip(k as int).len() == n - k);
                                assert(ev.skip(k as int)[0] == ev[k as int]);
                                assert(ev.skip(k as int).drop_first() =~= ev.skip(k as int + 1));
                            }
                            match tab_of_json(&elems[k]) {
                                Some(t) => {
                                    let ghost old_tabs = tabs@;
                                    let ghost tv = tab_info_view(t);
                                    tabs.push(t);
                                    proof {
                                        assert(tabs_view(tabs@) =~= tabs_view(old_tabs)
                                            + seq![tv]);
                                        match spec_tabs_of_json(ev.skip(k as int + 1)) {
                                            Some(rest2) => {
                                                assert((tabs_view(old_tabs) + seq![tv]) + rest2
                                                    =~= tabs_view(old_tabs) + (seq![tv] + rest2));
                                            }
                                            None => {}
                                        }
                                    }
                                    k += 1;
                                }
                                None => {
                                    return None;
                                }
                            }
                        }
                        proof {
                            assert(ev.skip(n as int).len() == 0);
                            assert(spec_tabs_of_json(ev.skip(n as int)) == Some(
                                Seq::<(int, Seq<char>, Seq<char>, bool)>::empty(),
                            ));
                            assert(tabs_view(tabs@) + Seq::<(int, Seq<char>, Seq<char>, bool)>::empty()
                                =~= tabs_view(tabs@));
                        }
                        Some(TabListData { tabs, active_tab_id })
                    }
                    _ => None,
                },
                None => None,
            }
        }
        _ => None,
    }
}

/// Reads snapshot data out of a response: the response must carry data,
/// and the data must have the snapshot shape.
pub fn parse_snapshot_data(response: &CommandResponse) -> (r: Result<SnapshotData, CliError>)
    ensures
        match r {
            Ok(sd) => response@.data matches Some(d) && spec_snapshot_of_json(d) == Some(
                (sd.snapshot@, sd.title@, sd.url@),
            ),
            Err(e) => (response@.data is None && e@ == ErrorView::ProtocolError(
                "No data in snapshot response"@,
            )) || (response@.data matches Some(d) && spec_snapshot_of_json(d) is None && e@
                == ErrorView::SerializationError("malformed snapshot data"@)),
        },
{
    match &response.data {
        Some(d) => match snapshot_of_json(d) {
            Some(sd) => Ok(sd),
            None => Err(CliError::SerializationError(String::from_str(
                "malformed snapshot data",
            ))),
        },
        None => Err(CliError::ProtocolError(String::from_str("No data in snapshot response"))),
    }
}

/// Reads tab-list data out of a response: the response must carry data,
/// and the data must have the tab-list shape.
pub fn parse_tab_list(response: &CommandResponse) -> (r: Result<TabListData, CliError>)
    ensures
        match r {
            Ok(tl) => response@.data matches Some(d) && spec_tab_list_of_json(d) == Some(
                (tabs_view(tl.tabs@), tl.active_tab_id as int),
            ),
            Err(e) => (response@.data is None && e@ == ErrorView::ProtocolError(
                "No data in tab list response"@,
            )) || (response@.data matches Some(d) && spec_tab_list_of_json(d) is None && e@
                == ErrorView::SerializationError("malformed tab list data"@)),
        },
{
    match &response.data {
        Some(d) => match tab_list_of_json(d) {
            Some(tl) => Ok(tl),
            None => Err(CliError::SerializationError(String::from_str(
                "malformed tab list data",
            ))),
        },
        None => Err(CliError::ProtocolError(String::from_str("No data in tab list response"))),
    }
}

// ---------------------------------------------------------------------------
// Formatting.
// ---------------------------------------------------------------------------

/// How command results are rendered.
#[derive(Debug, Clone, Copy, PartialEq, Eq, Structural)]
pub enum OutputFormat {
    /// Plain text for humans.
    Human,
    /// Compact JSON for scripts.
    Json,
    /// Nothing but errors.
    Quiet,
}

/// The URL with trailing slashes removed.
pub open spec fn slash_start_back(s: Seq<char>, j: int) -> int
    decreases j,
{
    if 0 < j && j <= s.len() && s[j - 1] == '/' {
        slash_start_back(s, j - 1)
    } else {
        j
    }
}

/// The URL as displayed: trailing slashes stripped.
pub open spec fn spec_display_url(s: Seq<char>) -> Seq<char> {
    s.subrange(0, slash_start_back(s, s.len() as int))
}

fn display_url(url: &str) -> (r: String)
    ensures
        r@ == spec_display_url(url@),
{
    let cs = crate::json::str_chars(url);
    let n = cs.len();
    let mut b: usize = n;
    while b > 0 && cs[b - 1] == '/'
        invariant
            b <= n,
            n == cs@.len(),
            cs@ == url@,
            slash_start_back(url@, n as int) == slash_start_back(url@, b as int),
        decreases b,
    {
        b -= 1;
    }
    let mut out: Vec<char> = Vec::new();
    let mut k: usize = 0;
    while k < b
        invariant
            k <= b <= n,
            n == cs@.len(),
            cs@ == url@,
            out@ == url@.subrange(0, k as int),
        decreases b - k,
    {
        out.push(cs[k]);
        proof {
            assert(out@ =~= url@.subrange(0, k as int + 1));
        }
        k += 1;
    }
    crate::json::chars_to_string(&out)
}

/// The text shown for a snapshot: title, display URL, a blank line, then
/// the tree.
pub open spec fn spec_format_snapshot(snap: Seq<char>, title: Seq<char>, url: Seq<char>) -> Seq<
    char,
> {
    "Title: "@ + title + "\nURL: "@ + spec_display_url(url) + "\n\n"@ + snap
}

/// Formats snapshot data as plain text.
pub fn format_snapshot(data: &SnapshotData) -> (r: String)
    ensures
        r@ == spec_format_snapshot(data.snapshot@, data.title@, data.url@),
{
    let mut out = String::from_str("Title: ");
    out.append(data.title.as_str());
    out.append("\nURL: ");
    let du = display_url(data.url.as_str());
    out.append(du.as_str());
    out.append("\n\n");
    out.append(data.snapshot.as_str());
    out
}

/// The line shown for one tab: an active marker, the id, the title and
/// the URL.
pub open spec fn spec_tab_line(t: (int, Seq<char>, Seq<char>, bool)) -> Seq<char> {
    (if t.3 {
        "* "@
    } else {
        "  "@
    }) + "["@ + int_chars(t.0) + "] "@ + t.2 + " "@ + t.1 + " \n"@
}

/// The lines shown for the tabs from index `i` on.
pub open spec fn spec_tab_lines_from(
    ts: Seq<(int, Seq<char>, Seq<char>, bool)>,
    i: int,
) -> Seq<char>
    decreases ts.len() - i,
{
    if i < 0 || i >= ts.len() {
        Seq::empty()
    } else {
        spec_tab_line(ts[i]) + spec_tab_lines_from(ts, i + 1)
    }
}

/// Formats a tab list as plain text: a heading, then one line per tab.
pub fn format_tab_list(data: &TabListData) -> (r: String)
    ensures
        r@ == "Open tabs:\n"@ + spec_tab_lines_from(tabs_view(data.tabs@), 0),
{
    let ghost tv = tabs_view(data.tabs@);
    let mut out = String::from_str("Open tabs:\n");
    let n = data.tabs.len();
    let mut k: usize = 0;
    while k < n
        invariant
            k <= n,
            n == data.tabs@.len(),
            tv == tabs_view(data.tabs@),
            tv.len() == n,
            out@ + spec_tab_lines_from(tv, k as int) == "Open tabs:\n"@ + spec_tab_lines_from(
                tv,
                0,
            ),
        decreases n - k,
    {
        let t = &data.tabs[k];
        let ghost old_out = out@;
        if t.active {
            out.append("* ");
        } else {
            out.append("  ");
        }
        out.append("[");
        let idtext = int_to_string(t.id);
        out.append(idtext.as_str());
        out.append("] ");
        out.append(t.title.as_str());
        out.append(" ");
        out.append(t.url.as_str());
        out.append(" \n");
        proof {
            assert(tv[k as int] == tab_info_view(data.tabs@[k as int]));
            assert(out@ =~= old_out + spec_tab_line(tv[k as int]));
            assert(out@ + spec_tab_lines_from(tv, k as int + 1) =~= old_out + spec_tab_lines_from(
                tv,
                k as int,
            ));
        }
        k += 1;
    }
    proof {
        assert(spec_tab_lines_from(tv, n as int) =~= Seq::<char>::empty());
        assert(out@ + Seq::<char>::empty() =~= out@);
    }
    out
}

/// Formats a success result for humans: recognized shapes get their
/// renderings, no data reads as a plain success.
pub fn format_human_success(data: &Option<JsonValue>) -> (r: String)
    ensures
        data is None ==> r@ == "Success"@,
        (match data {
            Some(d) => spec_snapshot_of_json(json_data_of(*d)) matches Some(
                (snap, title, url),
            ) ==> r@ == spec_format_snapshot(snap, title, url),
            None => true,
        }),
{
    match data {
        Some(d) => {
            match snapshot_of_json(d) {
                Some(sd) => format_snapshot(&sd),
                None => {
                    match tab_list_of_json(d) {
                        Some(tl) => format_tab_list(&tl),
                        None => {
                            match d {
                                JsonValue::Obj(members) => {
                                    if members.len() == 1 {
                                        let only_executed = match crate::json::find_key(
                                            members,
                                            "executed",
                                        ) {
                                            Some(idx) => match &members[idx].1 {
                                                JsonValue::Bool(b) => *b,
                                                _ => false,
                                            },
                                            None => false,
                                        };
                                        if only_executed {
                                            return String::from_str("Success");
                                        }
                                    }
                                    format_members_lines(members)
                                }
                                JsonValue::Str(s) => s.clone(),
                                _ => to_json_text(d),
                            }
                        }
                    }
                }
            }
        }
        None => String::from_str("Success"),
    }
}

/// One `key: value` line per member, without a trailing newline.
fn format_members_lines(members: &Vec<(String, JsonValue)>) -> (r: String)
{
    let mut out = String::new();
    let n = members.len();
    let mut k: usize = 0;
    while k < n
        invariant
            k <= n,
            n == members@.len(),
        decreases n - k,
    {
        if k > 0 {
            out.append("\n");
        }
        out.append(members[k].0.as_str());
        out.append(": ");
        let value_text = match &members[k].1 {
            JsonValue::Str(s) => s.clone(),
            other => to_json_text(other),
        };
        out.append(value_text.as_str());
        k += 1;
    }
    out
}

/// Renders responses in one chosen format.
#[derive(Debug)]
pub struct OutputFormatter {
    pub format: OutputFormat,
}

impl OutputFormatter {
    /// A formatter for the given format.
    pub fn new(format: OutputFormat) -> (r: Self)
        ensures
            r.format == format,
    {
        OutputFormatter { format }
    }

    /// The text shown for a success response: human rendering, the data
    /// as compact JSON, or nothing in quiet mode.
    pub fn format_success(&self, response: &CommandResponse) -> (r: String)
        ensures
            self.format == OutputFormat::Quiet ==> r@.len() == 0,
            self.format == OutputFormat::Json && response.data is None ==> r@ == "{}"@,
            self.format == OutputFormat::Json ==> (response.data matches Some(d) ==> r@
                == json_chars(json_data_of(d))),
            (self.format == OutputFormat::Human && response.data is None) ==> r@ == "Success"@,
    {
        match self.format {
            OutputFormat::Human => format_human_success(&response.data),
            OutputFormat::Json => match &response.data {
                Some(d) => to_json_text(d),
                None => String::from_str("{}"),
            },
            OutputFormat::Quiet => String::new(),
        }
    }

    /// The text shown for an error response: the error message, with a
    /// marker in human format and bare in quiet format.
    pub fn format_error(&self, response: &CommandResponse) -> (r: String)
        ensures
            self.format == OutputFormat::Human ==> (response.error matches Some(e) ==> r@
                == "Error: "@ + e@),
            self.format == OutputFormat::Quiet ==> (response.error matches Some(e) ==> r@ == e@),
    {
        match self.format {
            OutputFormat::Human => {
                let mut out = String::from_str("Error: ");
                match &response.error {
                    Some(e) => {
                        out.append(e.as_str());
                    }
                    None => {
                        out.append("Unknown error");
                    }
                }
                out
            }
            OutputFormat::Json => {
                let text = match &response.error {
                    Some(e) => e.clone(),
                    None => String::from_str("Unknown error"),
                };
                let mut members: Vec<(String, JsonValue)> = Vec::new();
                members.push((String::from_str("success"), JsonValue::Bool(false)));
                members.push((String::from_str("error"), JsonValue::Str(text)));
                to_json_text(&JsonValue::Obj(members))
            }
            OutputFormat::Quiet => match &response.error {
                Some(e) => e.clone(),
                None => String::from_str("Unknown error"),
            },
        }
    }
}

} // verus!
