//! The data shapes exchanged with the daemon: command kinds, commands,
//! responses, the message envelope, and the typed payloads and results.

use vstd::prelude::*;
use crate::json::{JsonData, JsonValue, json_data_of};

verus! {

/// Every operation the daemon understands.
#[derive(Debug, Clone, Copy, PartialEq, Eq, Structural)]
pub enum CommandType {
    Navigate,
    Open,
    Back,
    Forward,
    Reload,
    Close,
    Snapshot,
    Click,
    Dblclick,
    Fill,
    Type,
    Press,
    Hover,
    Focus,
    Check,
    Uncheck,
    Select,
    Scroll,
    Scrollintoview,
    Get,
    Is,
    Find,
    Drag,
    Upload,
    Mouse,
    Wait,
    Tab,
    TabNew,
    TabClose,
    TabSwitch,
    TabList,
    Screenshot,
    Pdf,
    Eval,
}

/// The name a command kind carries on the wire.
pub open spec fn command_type_name(k: CommandType) -> Seq<char> {
    match k {
        CommandType::Navigate => "navigate"@,
        CommandType::Open => "open"@,
        CommandType::Back => "back"@,
        CommandType::Forward => "forward"@,
        CommandType::Reload => "reload"@,
        CommandType::Close => "close"@,
        CommandType::Snapshot => "snapshot"@,
        CommandType::Click => "click"@,
        CommandType::Dblclick => "dblclick"@,
        CommandType::Fill => "fill"@,
        CommandType::Type => "type"@,
        CommandType::Press => "press"@,
        CommandType::Hover => "hover"@,
        CommandType::Focus => "focus"@,
        CommandType::Check => "check"@,
        CommandType::Uncheck => "uncheck"@,
        CommandType::Select => "select"@,
        CommandType::Scroll => "scroll"@,
        CommandType::Scrollintoview => "scrollintoview"@,
        CommandType::Get => "get"@,
        CommandType::Is => "is"@,
        CommandType::Find => "find"@,
        CommandType::Drag => "drag"@,
        CommandType::Upload => "upload"@,
        CommandType::Mouse => "mouse"@,
        CommandType::Wait => "wait"@,
        CommandType::Tab => "tab"@,
        CommandType::TabNew => "tab_new"@,
        CommandType::TabClose => "tab_close"@,
        CommandType::TabSwitch => "tab_switch"@,
        CommandType::TabList => "tab_list"@,
        CommandType::Screenshot => "screenshot"@,
        CommandType::Pdf => "pdf"@,
        CommandType::Eval => "eval"@,
    }
}

impl CommandType {
    /// The wire name of this kind.
    pub fn wire_name(&self) -> (r: &'static str)
        ensures
            r@ == command_type_name(*self),
    {
        match self {
            CommandType::Navigate => "navigate",
            CommandType::Open => "open",
            CommandType::Back => "back",
            CommandType::Forward => "forward",
            CommandType::Reload => "reload",
            CommandType::Close => "close",
            CommandType::Snapshot => "snapshot",
            CommandType::Click => "click",
            CommandType::Dblclick => "dblclick",
            CommandType::Fill => "fill",
            CommandType::Type => "type",
            CommandType::Press => "press",
            CommandType::Hover => "hover",
            CommandType::Focus => "focus",
            CommandType::Check => "check",
            CommandType::Uncheck => "uncheck",
            CommandType::Select => "select",
            CommandType::Scroll => "scroll",
            CommandType::Scrollintoview => "scrollintoview",
            CommandType::Get => "get",
            CommandType::Is => "is",
            CommandType::Find => "find",
            CommandType::Drag => "drag",
            CommandType::Upload => "upload",
            CommandType::Mouse => "mouse",
            CommandType::Wait => "wait",
            CommandType::Tab => "tab",
            CommandType::TabNew => "tab_new",
            CommandType::TabClose => "tab_close",
            CommandType::TabSwitch => "tab_switch",
            CommandType::TabList => "tab_list",
            CommandType::Screenshot => "screenshot",
            CommandType::Pdf => "pdf",
            CommandType::Eval => "eval",
        }
    }
}

/// The four envelope kinds.
#[derive(Debug, Clone, Copy, PartialEq, Eq, Structural)]
pub enum IpcMessageType {
    Command,
    Response,
    Ping,
    Pong,
}

/// Spec image of an envelope.
pub struct MessageView {
    pub message_type: IpcMessageType,
    pub payload: Option<JsonData>,
}

/// The transport-level envelope: a kind, and an optional structured
/// payload.  It exists only on the wire, one envelope per frame.
#[derive(Debug, PartialEq)]
pub struct IpcMessage {
    pub message_type: IpcMessageType,
    pub payload: Option<JsonValue>,
}

impl View for IpcMessage {
    type V = MessageView;

    open spec fn view(&self) -> MessageView {
        MessageView {
            message_type: self.message_type,
            payload: match self.payload {
                Some(p) => Some(json_data_of(p)),
                None => None,
            },
        }
    }
}

/// Spec image of a command.
pub struct CommandView {
    pub id: Seq<char>,
    pub session_id: Seq<char>,
    pub profile: Option<Seq<char>>,
    pub command_type: CommandType,
    pub params: Option<JsonData>,
    pub timestamp: Seq<char>,
}

/// A command sent from the CLI to the daemon: created per invocation, sent
/// once, and discarded.  Absent `profile` and `params` are omitted from
/// the wire form entirely.
#[derive(Debug)]
pub struct Command {
    pub id: String,
    pub session_id: String,
    pub profile: Option<String>,
    pub command_type: CommandType,
    pub params: Option<JsonValue>,
    pub timestamp: String,
}

impl View for Command {
    type V = CommandView;

    open spec fn view(&self) -> CommandView {
        CommandView {
            id: self.id@,
            session_id: self.session_id@,
            profile: match self.profile {
                Some(p) => Some(p@),
                None => None,
            },
            command_type: self.command_type,
            params: match self.params {
                Some(p) => Some(json_data_of(p)),
                None => None,
            },
            timestamp: self.timestamp@,
        }
    }
}

/// Spec image of a response.
pub struct ResponseView {
    pub id: Seq<char>,
    pub success: bool,
    pub data: Option<JsonData>,
    pub error: Option<Seq<char>>,
}

/// The daemon's reply to one command.  `id` echoes the command's id;
/// `data` is present only on success, `error` only on failure.
#[derive(Debug)]
pub struct CommandResponse {
    pub id: String,
    pub success: bool,
    pub data: Option<JsonValue>,
    pub error: Option<String>,
}

impl View for CommandResponse {
    type V = ResponseView;

    open spec fn view(&self) -> ResponseView {
        ResponseView {
            id: self.id@,
            success: self.success,
            data: match self.data {
                Some(d) => Some(json_data_of(d)),
                None => None,
            },
            error: match self.error {
                Some(e) => Some(e@),
                None => None,
            },
        }
    }
}

// ---------------------------------------------------------------------------
// Typed command payloads, each with its wire form.
// ---------------------------------------------------------------------------

/// Scroll directions.
#[derive(Debug, Clone, Copy, PartialEq, Eq, Structural)]
pub enum ScrollDirection {
    Up,
    Down,
    Left,
    Right,
}

/// The name a scroll direction carries on the wire.
pub open spec fn scroll_direction_name(d: ScrollDirection) -> Seq<char> {
    match d {
        ScrollDirection::Up => "up"@,
        ScrollDirection::Down => "down"@,
        ScrollDirection::Left => "left"@,
        ScrollDirection::Right => "right"@,
    }
}

impl ScrollDirection {
    /// The wire name of this direction.
    pub fn wire_name(&self) -> (r: &'static str)
        ensures
            r@ == scroll_direction_name(*self),
    {
        match self {
            ScrollDirection::Up => "up",
            ScrollDirection::Down => "down",
            ScrollDirection::Left => "left",
            ScrollDirection::Right => "right",
        }
    }
}

/// Payload of a navigate command.
#[derive(Debug)]
pub struct NavigatePayload {
    pub url: String,
}

impl NavigatePayload {
    /// The wire form: `{"url": <url>}`.
    pub fn to_json(&self) -> (r: JsonValue)
        ensures
            json_data_of(r) == JsonData::Obj(seq![("url"@, JsonData::Str(self.url@))]),
    {
        let mut members: Vec<(String, JsonValue)> = Vec::new();
        members.push((String::from_str("url"), JsonValue::Str(self.url.clone())));
        let r = JsonValue::Obj(members);
        proof {
            crate::json::lemma_members_view(members@);
            assert(crate::json::members_view(members@) =~= seq![
                ("url"@, JsonData::Str(self.url@)),
            ]);
        }
        r
    }
}

/// Payload of a click command.
#[derive(Debug)]
pub struct ClickPayload {
    pub element_ref: String,
}

impl ClickPayload {
    /// The wire form: `{"ref": <element_ref>}`.
    pub fn to_json(&self) -> (r: JsonValue)
        ensures
            json_data_of(r) == JsonData::Obj(seq![("ref"@, JsonData::Str(self.element_ref@))]),
    {
        let mut members: Vec<(String, JsonValue)> = Vec::new();
        members.push((String::from_str("ref"), JsonValue::Str(self.element_ref.clone())));
        let r = JsonValue::Obj(members);
        proof {
            crate::json::lemma_members_view(members@);
            assert(crate::json::members_view(members@) =~= seq![
                ("ref"@, JsonData::Str(self.element_ref@)),
            ]);
        }
        r
    }
}

/// Payload of a type command.
#[derive(Debug)]
pub struct TypePayload {
    pub element_ref: String,
    pub text: String,
}

impl TypePayload {
    /// The wire form: `{"ref": <element_ref>, "text": <text>}`.
    pub fn to_json(&self) -> (r: JsonValue)
        ensures
            json_data_of(r) == JsonData::Obj(seq![
                ("ref"@, JsonData::Str(self.element_ref@)),
                ("text"@, JsonData::Str(self.text@)),
            ]),
    {
        let mut members: Vec<(String, JsonValue)> = Vec::new();
        members.push((String::from_str("ref"), JsonValue::Str(self.element_ref.clone())));
        members.push((String::from_str("text"), JsonValue::Str(self.text.clone())));
        let r = JsonValue::Obj(members);
        proof {
            crate::json::lemma_members_view(members@);
            assert(crate::json::members_view(members@) =~= seq![
                ("ref"@, JsonData::Str(self.element_ref@)),
                ("text"@, JsonData::Str(self.text@)),
            ]);
        }
        r
    }
}

/// Payload of a scroll command.
#[derive(Debug)]
pub struct ScrollPayload {
    pub element_ref: Option<String>,
    pub direction: ScrollDirection,
    pub amount: Option<i32>,
}

/// The wire form of a scroll payload: direction always, `ref` and
/// `amount` only when present.
pub open spec fn scroll_payload_json(p: ScrollPayload) -> JsonData {
    let base = seq![("direction"@, JsonData::Str(scroll_direction_name(p.direction)))];
    let with_ref = match p.element_ref {
        Some(r) => seq![("ref"@, JsonData::Str(r@))] + base,
        None => base,
    };
    JsonData::Obj(
        match p.amount {
            Some(a) => with_ref + seq![("amount"@, JsonData::Int(a as int))],
            None => with_ref,
        },
    )
}

impl ScrollPayload {
    /// The wire form of this payload.
    pub fn to_json(&self) -> (r: JsonValue)
        ensures
            json_data_of(r) == scroll_payload_json(*self),
    {
        let mut members: Vec<(String, JsonValue)> = Vec::new();
        match &self.element_ref {
            Some(er) => {
                members.push((String::from_str("ref"), JsonValue::Str(er.clone())));
            }
            None => {}
        }
        members.push(
            (String::from_str("direction"), JsonValue::Str(String::from_str(
                self.direction.wire_name(),
            ))),
        );
        match self.amount {
            Some(a) => {
                members.push((String::from_str("amount"), JsonValue::Int(a as i64)));
            }
            None => {}
        }
        let r = JsonValue::Obj(members);
        proof {
            crate::json::lemma_members_view(members@);
            assert(crate::json::members_view(members@) =~= (match scroll_payload_json(*self) {
                JsonData::Obj(ms) => ms,
                _ => Seq::empty(),
            }));
        }
        r
    }
}

/// Payload of a tab-new command.
#[derive(Debug)]
pub struct TabNewPayload {
    pub url: Option<String>,
}

/// The wire form of a tab-new payload: `url` only when present.
pub open spec fn tab_new_payload_json(p: TabNewPayload) -> JsonData {
    JsonData::Obj(
        match p.url {
            Some(u) => seq![("url"@, JsonData::Str(u@))],
            None => Seq::empty(),
        },
    )
}

impl TabNewPayload {
    /// The wire form of this payload.
    pub fn to_json(&self) -> (r: JsonValue)
        ensures
            json_data_of(r) == tab_new_payload_json(*self),
    {
        let mut members: Vec<(String, JsonValue)> = Vec::new();
        match &self.url {
            Some(u) => {
                members.push((String::from_str("url"), JsonValue::Str(u.clone())));
            }
            None => {}
        }
        let r = JsonValue::Obj(members);
        proof {
            crate::json::lemma_members_view(members@);
            assert(crate::json::members_view(members@) =~= (match tab_new_payload_json(*self) {
                JsonData::Obj(ms) => ms,
                _ => Seq::empty(),
            }));
        }
        r
    }
}

/// Payload of a tab-switch command.
#[derive(Debug, Clone, Copy, PartialEq, Eq, Structural)]
pub struct TabSwitchPayload {
    pub tab_id: i32,
}

impl TabSwitchPayload {
    /// The wire form: `{"tab_id": <tab_id>}`.
    pub fn to_json(&self) -> (r: JsonValue)
        ensures
            json_data_of(r) == JsonData::Obj(seq![
                ("tab_id"@, JsonData::Int(self.tab_id as int)),
            ]),
    {
        let mut members: Vec<(String, JsonValue)> = Vec::new();
        members.push((String::from_str("tab_id"), JsonValue::Int(self.tab_id as i64)));
        let r = JsonValue::Obj(members);
        proof {
            crate::json::lemma_members_view(members@);
            assert(crate::json::members_view(members@) =~= seq![
                ("tab_id"@, JsonData::Int(self.tab_id as int)),
            ]);
        }
        r
    }
}

/// Payload of an eval command.
#[derive(Debug)]
pub struct EvalPayload {
    pub script: String,
}

impl EvalPayload {
    /// The wire form: `{"script": <script>}`.
    pub fn to_json(&self) -> (r: JsonValue)
        ensures
            json_data_of(r) == JsonData::Obj(seq![("script"@, JsonData::Str(self.script@))]),
    {
        let mut members: Vec<(String, JsonValue)> = Vec::new();
        members.push((String::from_str("script"), JsonValue::Str(self.script.clone())));
        let r = JsonValue::Obj(members);
        proof {
            crate::json::lemma_members_view(members@);
            assert(crate::json::members_view(members@) =~= seq![
                ("script"@, JsonData::Str(self.script@)),
            ]);
        }
        r
    }
}

// ---------------------------------------------------------------------------
// Typed response data.
// ---------------------------------------------------------------------------

/// Data of a successful snapshot command: the accessibility tree, the page
/// title, and the page URL.
#[derive(Debug, PartialEq)]
pub struct SnapshotData {
    pub snapshot: String,
    pub title: String,
    pub url: String,
}

/// Reference information for one element of a snapshot.
#[derive(Debug, PartialEq)]
pub struct RefInfo {
    pub element_ref: String,
    pub tag: String,
    pub text: Option<String>,
}

/// One browser tab in a tab-list reply.
#[derive(Debug, PartialEq)]
pub struct TabInfo {
    pub id: i64,
    pub url: String,
    pub title: String,
    pub active: bool,
}

/// Data of a successful tab-list command.
#[derive(Debug, PartialEq)]
pub struct TabListData {
    pub tabs: Vec<TabInfo>,
    pub active_tab_id: i64,
}

} // verus!
