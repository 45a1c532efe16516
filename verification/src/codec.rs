//! The wire codec: an envelope becomes one newline-terminated line of
//! compact JSON, and a line of JSON becomes an envelope again.
//!
//! Encoding never places a raw newline inside a frame (control characters
//! are escaped), so newline-delimited framing is sound; the round-trip law
//! [`lemma_message_round_trip`] says that decoding an encoded envelope
//! gives the envelope back.

use vstd::prelude::*;
use crate::error::{CliError, ErrorView};
use crate::json::{
    JsonData, JsonValue, find_key, json_chars, json_data_of, json_lookup,
    lemma_json_chars_no_newline, lemma_json_round_trip, lemma_members_view, members_view,
    parse_json_text, spec_parse_json, str_eq, wf_json, wf_json_members, write_value,
    chars_to_string,
};
use crate::types::{
    Command, CommandResponse, CommandView, IpcMessage, IpcMessageType, MessageView, ResponseView,
    command_type_name,
};

verus! {

// ---------------------------------------------------------------------------
// The envelope on the wire.
// ---------------------------------------------------------------------------

/// The name an envelope kind carries on the wire.
pub open spec fn message_type_name(t: IpcMessageType) -> Seq<char> {
    match t {
        IpcMessageType::Command => "command"@,
        IpcMessageType::Response => "response"@,
        IpcMessageType::Ping => "ping"@,
        IpcMessageType::Pong => "pong"@,
    }
}

impl IpcMessageType {
    /// The wire name of this envelope kind.
    pub fn wire_name(&self) -> (r: &'static str)
        ensures
            r@ == message_type_name(*self),
    {
        match self {
            IpcMessageType::Command => "command",
            IpcMessageType::Response => "response",
            IpcMessageType::Ping => "ping",
            IpcMessageType::Pong => "pong",
        }
    }
}

/// The JSON form of an envelope: `{"type": <kind>, "payload": <payload>}`,
/// with an absent payload written as `null`.
pub open spec fn message_json(m: MessageView) -> JsonData {
    JsonData::Obj(
        seq![
            ("type"@, JsonData::Str(message_type_name(m.message_type))),
            ("payload"@, match m.payload {
                Some(p) => p,
                None => JsonData::Null,
            }),
        ],
    )
}

/// The characters of an encoded envelope, without the frame terminator.
pub open spec fn message_chars(m: MessageView) -> Seq<char> {
    json_chars(message_json(m))
}

/// Encodes an envelope as one line: its compact JSON, then one newline.
/// The newline at the end is the only newline in the result.
pub fn serialize_message(m: IpcMessage) -> (r: String)
    ensures
        r@ == message_chars(m@).push('\n'),
        forall|k: int| 0 <= k < r@.len() - 1 ==> r@[k] != '\n',
{
    let ghost mv = m@;
    let kind_name = m.message_type.wire_name();
    let payload_value = match m.payload {
        Some(p) => p,
        None => JsonValue::Null,
    };
    let mut members: Vec<(String, JsonValue)> = Vec::new();
    members.push((String::from_str("type"), JsonValue::Str(String::from_str(kind_name))));
    members.push((String::from_str("payload"), payload_value));
    let env = JsonValue::Obj(members);
    proof {
        lemma_members_view(members@);
        assert(members_view(members@) =~= (match message_json(mv) {
            JsonData::Obj(ms) => ms,
            _ => Seq::empty(),
        }));
        assert(json_data_of(env) == message_json(mv));
        lemma_json_chars_no_newline(message_json(mv));
    }
    let mut out: Vec<char> = Vec::new();
    write_value(&env, &mut out);
    out.push('\n');
    chars_to_string(&out)
}

/// The payload field of a decoded envelope: absent or `null` both mean no
/// payload.
pub open spec fn spec_payload_field(ms: Seq<(Seq<char>, JsonData)>) -> Option<JsonData> {
    match json_lookup(ms, "payload"@) {
        Some(JsonData::Null) => None,
        Some(p) => Some(p),
        None => None,
    }
}

/// The envelope kind a discriminant string names, if any.
pub open spec fn spec_kind_of_name(t: Seq<char>) -> Option<IpcMessageType> {
    if t == "command"@ { Some(IpcMessageType::Command) }
    else if t == "response"@ { Some(IpcMessageType::Response) }
    else if t == "ping"@ { Some(IpcMessageType::Ping) }
    else if t == "pong"@ { Some(IpcMessageType::Pong) }
    else { None }
}

/// What a frame's text denotes: an envelope, if the text is a JSON object
/// whose `type` member names one of the four kinds.
pub open spec fn spec_decode_message(s: Seq<char>) -> Option<MessageView> {
    match spec_parse_json(s) {
        Some(JsonData::Obj(ms)) => match json_lookup(ms, "type"@) {
            Some(JsonData::Str(t)) => match spec_kind_of_name(t) {
                Some(k) => Some(MessageView { message_type: k, payload: spec_payload_field(ms) }),
                None => None,
            },
            _ => None,
        },
        _ => None,
    }
}

fn kind_of_name(t: &str) -> (r: Option<IpcMessageType>)
    ensures
        r == spec_kind_of_name(t@),
{
    if str_eq(t, "command") { Some(IpcMessageType::Command) }
    else if str_eq(t, "response") { Some(IpcMessageType::Response) }
    else if str_eq(t, "ping") { Some(IpcMessageType::Ping) }
    else if str_eq(t, "pong") { Some(IpcMessageType::Pong) }
    else { None }
}

/// Decodes one frame's text into an envelope.  Fails exactly when the
/// text does not denote an envelope: unparsable text, a non-object, a
/// missing `type` member, or an unrecognized discriminant.
pub fn deserialize_message(s: &str) -> (r: Result<IpcMessage, CliError>)
    ensures
        match r {
            Ok(m) => spec_decode_message(s@) == Some(m@),
            Err(e) => spec_decode_message(s@) is None && e@ == ErrorView::SerializationError(
                "malformed message"@,
            ),
        },
{
    let parsed = parse_json_text(s);
    match parsed {
        Some(v) => {
            let ghost vd = json_data_of(v);
            match v {
                JsonValue::Obj(members) => {
                    let ghost ms = members_view(members@);
                    let kind_opt = match find_key(&members, "type") {
                        Some(t_idx) => {
                            match &members[t_idx].1 {
                                JsonValue::Str(t) => kind_of_name(t.as_str()),
                                _ => None,
                            }
                        }
                        None => None,
                    };
                    match kind_opt {
                        Some(kind) => {
                            let payload = match find_key(&members, "payload") {
                                Some(p_idx) => {
                                    let mut members2 = members;
                                    let pair = members2.remove(p_idx);
                                    match pair.1 {
                                        JsonValue::Null => None,
                                        pv => Some(pv),
                                    }
                                }
                                None => None,
                            };
                            let m = IpcMessage { message_type: kind, payload };
                            proof {
                                assert(spec_decode_message(s@) == Some(m@));
                            }
                            Ok(m)
                        }
                        None => Err(CliError::SerializationError(String::from_str(
                            "malformed message",
                        ))),
                    }
                }
                _ => Err(CliError::SerializationError(String::from_str("malformed message"))),
            }
        }
        None => Err(CliError::SerializationError(String::from_str("malformed message"))),
    }
}

/// Whether a frame's text is a pong envelope: the liveness probe's test of
/// the daemon's reply.
pub fn reply_is_pong(s: &str) -> (b: bool)
    ensures
        b == (spec_decode_message(s@) matches Some(m) && m.message_type == IpcMessageType::Pong),
{
    match deserialize_message(s) {
        Ok(m) => match m.message_type {
            IpcMessageType::Pong => true,
            _ => false,
        },
        Err(_) => false,
    }
}

// ---------------------------------------------------------------------------
// Commands on the wire.
// ---------------------------------------------------------------------------

/// The JSON form of a command: `id`, `sessionId`, `profile` (only when
/// present), `type`, `params` (only when present), `timestamp`.
pub open spec fn command_json(c: CommandView) -> JsonData {
    let base = seq![("id"@, JsonData::Str(c.id)), ("sessionId"@, JsonData::Str(c.session_id))];
    let with_profile = match c.profile {
        Some(p) => base + seq![("profile"@, JsonData::Str(p))],
        None => base,
    };
    let with_type = with_profile + seq![
        ("type"@, JsonData::Str(command_type_name(c.command_type))),
    ];
    let with_params = match c.params {
        Some(p) => with_type + seq![("params"@, p)],
        None => with_type,
    };
    JsonData::Obj(with_params + seq![("timestamp"@, JsonData::Str(c.timestamp))])
}

/// Builds the JSON form of a command.
pub fn command_to_json(c: Command) -> (r: JsonValue)
    ensures
        json_data_of(r) == command_json(c@),
{
    let ghost cv = c@;
    let mut members: Vec<(String, JsonValue)> = Vec::new();
    members.push((String::from_str("id"), JsonValue::Str(c.id)));
    members.push((String::from_str("sessionId"), JsonValue::Str(c.session_id)));
    match c.profile {
        Some(p) => {
            members.push((String::from_str("profile"), JsonValue::Str(p)));
        }
        None => {}
    }
    members.push(
        (String::from_str("type"), JsonValue::Str(String::from_str(c.command_type.wire_name()))),
    );
    match c.params {
        Some(p) => {
            members.push((String::from_str("params"), p));
        }
        None => {}
    }
    members.push((String::from_str("timestamp"), JsonValue::Str(c.timestamp)));
    let r = JsonValue::Obj(members);
    proof {
        lemma_members_view(members@);
        assert(members_view(members@) =~= (match command_json(cv) {
            JsonData::Obj(ms) => ms,
            _ => Seq::empty(),
        }));
    }
    r
}

/// Encodes a command envelope as one frame line.
pub fn encode_command_frame(c: Command) -> (r: String)
    ensures
        r@ == message_chars(
            MessageView { message_type: IpcMessageType::Command, payload: Some(command_json(c@)) },
        ).push('\n'),
        forall|k: int| 0 <= k < r@.len() - 1 ==> r@[k] != '\n',
{
    let ghost cv = c@;
    let pj = command_to_json(c);
    serialize_message(IpcMessage { message_type: IpcMessageType::Command, payload: Some(pj) })
}

/// Encodes a ping envelope as one frame line.
pub fn encode_ping_frame() -> (r: String)
    ensures
        r@ == message_chars(
            MessageView { message_type: IpcMessageType::Ping, payload: None },
        ).push('\n'),
{
    serialize_message(IpcMessage { message_type: IpcMessageType::Ping, payload: None })
}

// ---------------------------------------------------------------------------
// Responses off the wire.
// ---------------------------------------------------------------------------

/// What a response payload denotes: `id` must be a string, `success` a
/// boolean; `data` absent or `null` means none; `error` must be a string
/// when present.
pub open spec fn response_of_json(d: JsonData) -> Option<ResponseView> {
    match d {
        JsonData::Obj(ms) => match (json_lookup(ms, "id"@), json_lookup(ms, "success"@)) {
            (Some(JsonData::Str(id)), Some(JsonData::Bool(success))) => {
                let data = match json_lookup(ms, "data"@) {
                    Some(JsonData::Null) => None,
                    Some(d2) => Some(d2),
                    None => None,
                };
                match json_lookup(ms, "error"@) {
                    Some(JsonData::Str(e)) => Some(
                        ResponseView { id, success, data, error: Some(e) },
                    ),
                    Some(JsonData::Null) => Some(ResponseView { id, success, data, error: None }),
                    None => Some(ResponseView { id, success, data, error: None }),
                    Some(_) => None,
                }
            }
            _ => None,
        },
        _ => None,
    }
}

/// Reads a response out of a decoded payload value.
pub fn response_from_json(v: JsonValue) -> (r: Result<CommandResponse, CliError>)
    ensures
        match r {
            Ok(resp) => response_of_json(json_data_of(v)) == Some(resp@),
            Err(e) => response_of_json(json_data_of(v)) is None && e@
                == ErrorView::SerializationError("malformed response payload"@),
        },
{
    match v {
        JsonValue::Obj(members) => {
            let id_opt: Option<String> = match find_key(&members, "id") {
                Some(idx) => match &members[idx].1 {
                    JsonValue::Str(s) => Some(s.clone()),
                    _ => None,
                },
                None => None,
            };
            let success_opt: Option<bool> = match find_key(&members, "success") {
                Some(idx) => match &members[idx].1 {
                    JsonValue::Bool(b) => Some(*b),
                    _ => None,
                },
                None => None,
            };
            let error_ok: bool = match find_key(&members, "error") {
                Some(idx) => match &members[idx].1 {
                    JsonValue::Str(_) => true,
                    JsonValue::Null => true,
                    _ => false,
                },
                None => true,
            };
            let error_field: Option<String> = match find_key(&members, "error") {
                Some(idx) => match &members[idx].1 {
                    JsonValue::Str(s) => Some(s.clone()),
                    _ => None,
                },
                None => None,
            };
            match (id_opt, success_opt) {
                (Some(id), Some(success)) => {
                    if !error_ok {
                        return Err(CliError::SerializationError(String::from_str(
                            "malformed response payload",
                        )));
                    }
                    let data_field: Option<JsonValue> = match find_key(&members, "data") {
                        Some(d_idx) => {
                            let mut members2 = members;
                            let pair = members2.remove(d_idx);
                            match pair.1 {
                                JsonValue::Null => None,
                                dv => Some(dv),
                            }
                        }
                        None => None,
                    };
                    Ok(CommandResponse { id, success, data: data_field, error: error_field })
                }
                _ => Err(CliError::SerializationError(String::from_str(
                    "malformed response payload",
                ))),
            }
        }
        _ => Err(CliError::SerializationError(String::from_str("malformed response payload"))),
    }
}

/// What one reply frame's text yields for a command exchange: the
/// response, or the exact error owed to that text.
pub open spec fn spec_decode_response(s: Seq<char>) -> Result<ResponseView, ErrorView> {
    match spec_decode_message(s) {
        None => Err(ErrorView::SerializationError("malformed message"@)),
        Some(m) => {
            if m.message_type != IpcMessageType::Response {
                Err(ErrorView::ProtocolError("unexpected response type"@))
            } else {
                match m.payload {
                    None => Err(ErrorView::ProtocolError("missing response payload"@)),
                    Some(p) => match response_of_json(p) {
                        Some(rv) => Ok(rv),
                        None => Err(ErrorView::SerializationError("malformed response payload"@)),
                    },
                }
            }
        }
    }
}

/// Decodes one reply frame of a command exchange: the reply must be a
/// `response` envelope with a payload that is a well-shaped response.
pub fn decode_command_response(s: &str) -> (r: Result<CommandResponse, CliError>)
    ensures
        match r {
            Ok(resp) => spec_decode_response(s@) == Ok::<ResponseView, ErrorView>(resp@),
            Err(e) => spec_decode_response(s@) == Err::<ResponseView, ErrorView>(e@),
        },
{
    match deserialize_message(s) {
        Ok(m) => {
            match m.message_type {
                IpcMessageType::Response => match m.payload {
                    Some(p) => response_from_json(p),
                    None => Err(CliError::ProtocolError(String::from_str(
                        "missing response payload",
                    ))),
                },
                _ => Err(CliError::ProtocolError(String::from_str("unexpected response type"))),
            }
        }
        Err(e) => Err(e),
    }
}

// ---------------------------------------------------------------------------
// Framing: a frame is the bytes before the first newline byte.
// ---------------------------------------------------------------------------

/// The first index at or after `i` holding a newline byte, or the length.
pub open spec fn frame_end(b: Seq<u8>, i: int) -> int
    decreases b.len() - i,
{
    if 0 <= i && i < b.len() && b[i] != 10 {
        frame_end(b, i + 1)
    } else {
        i
    }
}

/// The complete frame in `buf`, if its terminator has arrived: the bytes
/// before the first newline, with the terminator stripped.
pub fn extract_frame(buf: &Vec<u8>) -> (r: Option<Vec<u8>>)
    ensures
        match r {
            Some(f) => frame_end(buf@, 0) < buf@.len() && f@ == buf@.subrange(
                0,
                frame_end(buf@, 0),
            ),
            None => frame_end(buf@, 0) == buf@.len(),
        },
{
    let n = buf.len();
    let mut j: usize = 0;
    while j < n && buf[j] != 10
        invariant
            j <= n,
            n == buf@.len(),
            frame_end(buf@, 0) == frame_end(buf@, j as int),
        decreases n - j,
    {
        j += 1;
    }
    if j >= n {
        return None;
    }
    let mut f: Vec<u8> = Vec::new();
    let mut k: usize = 0;
    while k < j
        invariant
            k <= j <= n,
            n == buf@.len(),
            f@ == buf@.subrange(0, k as int),
        decreases j - k,
    {
        f.push(buf[k]);
        proof {
            assert(f@ =~= buf@.subrange(0, k as int + 1));
        }
        k += 1;
    }
    Some(f)
}

/// The error owed when the stream closes before any frame terminator:
/// nothing at all was an empty response; a partial line lacks its
/// delimiter.
pub fn frame_on_eof(bytes_read: usize) -> (e: CliError)
    ensures
        e@ == (if bytes_read == 0 {
            ErrorView::ProtocolError("empty response"@)
        } else {
            ErrorView::ProtocolError("missing message delimiter"@)
        }),
{
    if bytes_read == 0 {
        CliError::ProtocolError(String::from_str("empty response"))
    } else {
        CliError::ProtocolError(String::from_str("missing message delimiter"))
    }
}

// ---------------------------------------------------------------------------
// The round-trip law.
// ---------------------------------------------------------------------------

/// Round-trip law: encoding an envelope and decoding the encoded text
/// yields the same envelope, whatever the kind and whatever the payload.
/// The one payload left out is a bare JSON `null`, which by design decodes
/// as an absent payload; no envelope of the protocol carries one.
pub proof fn lemma_message_round_trip(m: MessageView)
    requires
        match m.payload {
            Some(p) => p != JsonData::Null && wf_json(p),
            None => true,
        },
    ensures
        spec_decode_message(message_chars(m)) == Some(m),
{
    reveal_strlit("type");
    reveal_strlit("payload");
    reveal_strlit("command");
    reveal_strlit("response");
    reveal_strlit("ping");
    reveal_strlit("pong");
    let d = message_json(m);
    let ms = match d {
        JsonData::Obj(ms0) => ms0,
        _ => Seq::empty(),
    };
    assert(wf_json(d)) by {
        assert forall|k: int| 0 <= k < ms.len() implies wf_json(#[trigger] ms[k].1) by {
            if k == 0 {
                assert(ms[0].1 == JsonData::Str(message_type_name(m.message_type)));
            } else {
                assert(ms[1].1 == (match m.payload {
                    Some(p) => p,
                    None => JsonData::Null,
                }));
            }
        }
        lemma_wf_members_snoc(ms);
    }
    lemma_json_round_trip(d);
    assert(json_lookup(ms, "type"@) == Some(JsonData::Str(message_type_name(m.message_type))));
    assert("type"@ != "payload"@);
    assert(ms.drop_first()[0] == ms[1]);
    assert(ms.drop_first().len() == 1);
    assert(json_lookup(ms.drop_first(), "payload"@) == Some(ms.drop_first()[0].1));
    assert(json_lookup(ms, "payload"@) == Some(match m.payload {
        Some(p) => p,
        None => JsonData::Null,
    }));
    assert(spec_kind_of_name(message_type_name(m.message_type)) == Some(m.message_type)) by {
        broadcast use vstd::string::group_string_axioms;

        reveal_strlit("command");
        reveal_strlit("response");
        reveal_strlit("ping");
        reveal_strlit("pong");
        assert("command"@.len() == 7);
        assert("response"@.len() == 8);
        assert("ping"@.len() == 4);
        assert("pong"@.len() == 4);
        assert("ping"@[1] == 'i');
        assert("pong"@[1] == 'o');
        match m.message_type {
            IpcMessageType::Command => {}
            IpcMessageType::Response => {
                assert("response"@ != "command"@);
            }
            IpcMessageType::Ping => {
                assert("ping"@ != "command"@);
                assert("ping"@ != "response"@);
            }
            IpcMessageType::Pong => {
                assert("pong"@ != "command"@);
                assert("pong"@ != "response"@);
                assert("pong"@ != "ping"@);
            }
        }
    }
}

/// The round-trip law reaches every envelope the client can actually
/// hold: a run-time payload is always well formed (its integers are
/// machine integers), so encoding and decoding any such envelope gives it
/// back, unless its payload is the bare JSON `null` that stands for "no
/// payload" on the wire.
pub proof fn lemma_held_message_round_trips(m: IpcMessage)
    requires
        match m.payload {
            Some(p) => json_data_of(p) != JsonData::Null,
            None => true,
        },
    ensures
        spec_decode_message(message_chars(m@)) == Some(m@),
{
    match m.payload {
        Some(p) => {
            crate::json::lemma_json_data_of_wf(p);
        }
        None => {}
    }
    lemma_message_round_trip(m@);
}

/// Round-trip law for command envelopes: every command, of every kind,
/// with or without profile, with or without parameters, comes back intact
/// from its own frame text.
pub proof fn lemma_command_round_trip(c: CommandView)
    requires
        match c.params {
            Some(p) => wf_json(p),
            None => true,
        },
    ensures
        spec_decode_message(
            message_chars(
                MessageView {
                    message_type: IpcMessageType::Command,
                    payload: Some(command_json(c)),
                },
            ),
        ) == Some(
            MessageView { message_type: IpcMessageType::Command, payload: Some(command_json(c)) },
        ),
{
    let d = command_json(c);
    let ms = match d {
        JsonData::Obj(ms0) => ms0,
        _ => Seq::empty(),
    };
    assert(wf_json(d)) by {
        lemma_wf_members_snoc(ms);
    }
    lemma_message_round_trip(
        MessageView { message_type: IpcMessageType::Command, payload: Some(d) },
    );
}

/// A member list whose values are all well formed is well formed.
proof fn lemma_wf_members_snoc(ms: Seq<(Seq<char>, JsonData)>)
    requires
        forall|k: int| 0 <= k < ms.len() ==> wf_json(#[trigger] ms[k].1),
    ensures
        wf_json_members(ms),
    decreases ms.len(),
{
    if ms.len() > 0 {
        let head = ms.subrange(0, ms.len() - 1);
        assert forall|k: int| 0 <= k < head.len() implies wf_json(#[trigger] head[k].1) by {
            assert(head[k] == ms[k]);
        }
        lemma_wf_members_snoc(head);
    }
}

} // verus!
