//! The requests by which forwards are driven over the control channel, and what
//! the responses to them say.

use crate::json;
use crate::json::{JsonMember, JsonValue};
use vstd::prelude::*;

verus! {

/// Why a request over the control channel got no response.
#[derive(Debug, PartialEq, Eq)]
pub struct ControlChannelError {
    pub message: String,
}

/// A request over the control channel.
#[derive(Debug, PartialEq, Eq)]
pub enum ControlRequest {
    /// Connect a new forward to a port of the sandbox.
    Open { session_id: String, target_port: u16 },
    /// Write bytes, in base64, to a forward.
    Write { session_id: String, bytes: String },
    /// Ask a forward for bytes.
    Read { session_id: String },
    /// Close a forward.
    Close { session_id: String },
}

/// The contents of a [`ControlRequest`].
pub enum RequestView {
    Open { session_id: Seq<char>, target_port: u16 },
    Write { session_id: Seq<char>, bytes: Seq<char> },
    Read { session_id: Seq<char> },
    Close { session_id: Seq<char> },
}

impl View for ControlRequest {
    type V = RequestView;

    open spec fn view(&self) -> RequestView {
        match *self {
            ControlRequest::Open { session_id, target_port } => RequestView::Open {
                session_id: session_id@,
                target_port,
            },
            ControlRequest::Write { session_id, bytes } => RequestView::Write {
                session_id: session_id@,
                bytes: bytes@,
            },
            ControlRequest::Read { session_id } => RequestView::Read { session_id: session_id@ },
            ControlRequest::Close { session_id } => RequestView::Close { session_id: session_id@ },
        }
    }
}

/// Whether `member` is a text named `key`.
pub open spec fn is_text_member(member: JsonMember, key: Seq<char>, text: Seq<char>) -> bool {
    member.key@ == key && (member.value matches JsonValue::Text(t) && t@ == text)
}

/// Whether `members` are the data of `request`.
pub open spec fn is_request_data(members: Seq<JsonMember>, request: RequestView) -> bool {
    match request {
        RequestView::Open { session_id, target_port } => {
            &&& members.len() == 2
            &&& is_text_member(members[0], "session_id"@, session_id)
            &&& members[1].key@ == "target_port"@
            &&& members[1].value == JsonValue::Unsigned(target_port as u64)
        },
        RequestView::Write { session_id, bytes } => {
            &&& members.len() == 2
            &&& is_text_member(members[0], "session_id"@, session_id)
            &&& is_text_member(members[1], "bytes"@, bytes)
        },
        RequestView::Read { session_id } | RequestView::Close { session_id } => {
            &&& members.len() == 1
            &&& is_text_member(members[0], "session_id"@, session_id)
        },
    }
}

fn text_member(key: &str, text: &String) -> (member: JsonMember)
    ensures
        is_text_member(member, key@, text@),
{
    JsonMember { key: key.to_owned(), value: JsonValue::Text(text.clone()) }
}

impl ControlRequest {
    /// The name of the operation.
    pub fn op(&self) -> (op: &'static str)
        ensures
            op@ == match self@ {
                RequestView::Open { .. } => "forward_open"@,
                RequestView::Write { .. } => "forward_write"@,
                RequestView::Read { .. } => "forward_read"@,
                RequestView::Close { .. } => "forward_close"@,
            },
    {
        match self {
            ControlRequest::Open { .. } => "forward_open",
            ControlRequest::Write { .. } => "forward_write",
            ControlRequest::Read { .. } => "forward_read",
            ControlRequest::Close { .. } => "forward_close",
        }
    }

    /// The data that go with the operation: an object.
    pub fn data(&self) -> (data: JsonValue)
        ensures
            data matches JsonValue::Object(members) && is_request_data(members@, self@),
    {
        let mut members: Vec<JsonMember> = Vec::new();
        match self {
            ControlRequest::Open { session_id, target_port } => {
                members.push(text_member("session_id", session_id));
                members.push(
                    JsonMember {
                        key: "target_port".to_owned(),
                        value: JsonValue::Unsigned(*target_port as u64),
                    },
                );
            },
            ControlRequest::Write { session_id, bytes } => {
                members.push(text_member("session_id", session_id));
                members.push(text_member("bytes", bytes));
            },
            ControlRequest::Read { session_id } => {
                members.push(text_member("session_id", session_id));
            },
            ControlRequest::Close { session_id } => {
                members.push(text_member("session_id", session_id));
            },
        }
        JsonValue::Object(members)
    }

    /// How many seconds the response may take.
    pub fn timeout_secs(&self) -> (secs: u64)
        ensures
            secs == if self@ is Close {
                5u64
            } else {
                10
            },
    {
        match self {
            ControlRequest::Close { .. } => 5,
            _ => 10,
        }
    }
}

/// Whether a response says that the request was carried out.
pub open spec fn is_ok(response: Result<JsonValue, ControlChannelError>) -> bool {
    response matches Ok(value) && value.member("ok"@) == Some(JsonValue::Bool(true))
}

/// Whether a response says that the request was carried out.
pub fn control_response_ok(response: &Result<JsonValue, ControlChannelError>) -> (ok: bool)
    ensures
        ok == is_ok(*response),
{
    match response {
        Ok(value) => member_is_true(value, "ok"),
        Err(_) => false,
    }
}

fn member_is_true(value: &JsonValue, key: &str) -> (truth: bool)
    ensures
        truth == (value.member(key@) == Some(JsonValue::Bool(true))),
{
    match value.get(key) {
        Some(member) => match member.as_bool() {
            Some(b) => b,
            None => false,
        },
        None => false,
    }
}

/// What the response to a read says.
#[derive(Debug, PartialEq, Eq)]
pub enum ReadReply {
    /// The forward is over: the read failed, the target has closed its end, or the
    /// response is not understood.
    Finished,
    /// There is nothing yet.
    Idle,
    /// There are bytes, in base64.
    Encoded(String),
}

/// The contents of a [`ReadReply`].
pub enum ReadReplyView {
    Finished,
    Idle,
    Encoded(Seq<char>),
}

impl View for ReadReply {
    type V = ReadReplyView;

    open spec fn view(&self) -> ReadReplyView {
        match *self {
            ReadReply::Finished => ReadReplyView::Finished,
            ReadReply::Idle => ReadReplyView::Idle,
            ReadReply::Encoded(t) => ReadReplyView::Encoded(t@),
        }
    }
}

/// What the data of a successful response to a read say: the end, unless `eof` is
/// something else than true and `bytes` is a text.
pub open spec fn read_data(data: JsonValue) -> ReadReplyView {
    if data.member("eof"@) == Some(JsonValue::Bool(true)) {
        ReadReplyView::Finished
    } else {
        match data.member("bytes"@) {
            Some(JsonValue::Text(t)) => if t@.len() == 0 {
                ReadReplyView::Idle
            } else {
                ReadReplyView::Encoded(t@)
            },
            _ => ReadReplyView::Finished,
        }
    }
}

/// What the response to a read says.
pub open spec fn read_reply(response: Result<JsonValue, ControlChannelError>) -> ReadReplyView {
    match response {
        Ok(value) => if is_ok(response) {
            match value.member("data"@) {
                Some(data) => read_data(data),
                None => ReadReplyView::Finished,
            }
        } else {
            ReadReplyView::Finished
        },
        Err(_) => ReadReplyView::Finished,
    }
}

/// What the response to a read says.
pub fn parse_read_reply(response: &Result<JsonValue, ControlChannelError>) -> (reply: ReadReply)
    ensures
        reply@ == read_reply(*response),
{
    if !control_response_ok(response) {
        return ReadReply::Finished;
    }
    match response {
        Ok(value) => match value.get("data") {
            Some(data) => {
                if member_is_true(data, "eof") {
                    return ReadReply::Finished;
                }
                match data.get("bytes") {
                    Some(member) => match member.as_str() {
                        Some(encoded) => if encoded.is_empty() {
                            ReadReply::Idle
                        } else {
                            ReadReply::Encoded(encoded.to_owned())
                        },
                        None => ReadReply::Finished,
                    },
                    None => ReadReply::Finished,
                }
            },
            None => ReadReply::Finished,
        },
        Err(_) => ReadReply::Finished,
    }
}

/// A response is a success exactly where it came and is an object whose first member
/// `ok` is true.
pub proof fn law_ok_is_a_true_member(response: Result<JsonValue, ControlChannelError>)
    ensures
        is_ok(response) <==> (response matches Ok(JsonValue::Object(members)) && exists|i: int|
            json::found_at(members@, "ok"@, JsonValue::Bool(true), i)),
{
    if let Ok(value) = response {
        json::law_member_is_the_first_of_its_name(value, "ok"@, JsonValue::Bool(true));
    }
}

/// Whether a response to a read is a success that carries the text `bytes`, and does
/// not say that the target has closed its end.
pub open spec fn carries(
    response: Result<JsonValue, ControlChannelError>,
    bytes: Seq<char>,
) -> bool {
    &&& is_ok(response)
    &&& response->Ok_0.member("data"@) matches Some(data)
    &&& data.member("eof"@) != Some(JsonValue::Bool(true))
    &&& data.member("bytes"@) matches Some(JsonValue::Text(text))
    &&& text@ == bytes
}

/// A read has bytes exactly where its response carries a text that is not empty,
/// these and no others; it is idle exactly where the response carries the empty text;
/// everything else ends the forward.
pub proof fn law_read_reply_is_what_is_carried(
    response: Result<JsonValue, ControlChannelError>,
    bytes: Seq<char>,
)
    ensures
        read_reply(response) == ReadReplyView::Encoded(bytes) <==> carries(response, bytes)
            && bytes.len() > 0,
        read_reply(response) == ReadReplyView::Idle <==> carries(response, Seq::empty()),
        read_reply(response) == ReadReplyView::Finished <==> forall|b: Seq<char>|
            !carries(response, b),
{
    if let Ok(value) = response {
        if let Some(data) = value.member("data"@) {
            if let Some(JsonValue::Text(text)) = data.member("bytes"@) {
                if text@.len() == 0 {
                    assert(text@ =~= Seq::<char>::empty());
                }
                assert(is_ok(response) && data.member("eof"@) != Some(JsonValue::Bool(true))
                    ==> carries(response, text@));
            }
        }
    }
}

/// The data of a request name its forward first; then comes the port to open or the
/// bytes to write, where there are any, and nothing more.
pub proof fn law_request_data_name_the_forward(members: Seq<JsonMember>, request: RequestView)
    requires
        is_request_data(members, request),
    ensures
        members.len() > 0,
        members[0].key@ == "session_id"@,
        members[0].value matches JsonValue::Text(id) && match request {
            RequestView::Open { session_id, target_port } => {
                &&& id@ == session_id
                &&& members.len() == 2
                &&& members[1].key@ == "target_port"@
                &&& members[1].value matches JsonValue::Unsigned(port)
                &&& port == target_port
            },
            RequestView::Write { session_id, bytes } => {
                &&& id@ == session_id
                &&& members.len() == 2
                &&& members[1].key@ == "bytes"@
                &&& members[1].value matches JsonValue::Text(text)
                &&& text@ == bytes
            },
            RequestView::Read { session_id } => id@ == session_id && members.len() == 1,
            RequestView::Close { session_id } => id@ == session_id && members.len() == 1,
        },
{
}

/// The view of a request holds what the request holds.
pub proof fn law_request_view_is_faithful(request: ControlRequest)
    ensures
        request matches ControlRequest::Open { session_id, target_port } ==> request@
            == (RequestView::Open { session_id: session_id@, target_port }),
        request matches ControlRequest::Write { session_id, bytes } ==> request@
            == (RequestView::Write { session_id: session_id@, bytes: bytes@ }),
        request matches ControlRequest::Read { session_id } ==> request@ == (RequestView::Read {
            session_id: session_id@,
        }),
        request matches ControlRequest::Close { session_id } ==> request@ == (RequestView::Close {
            session_id: session_id@,
        }),
{
}

} // verus!
