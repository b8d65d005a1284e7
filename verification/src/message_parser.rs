//! Turning a CLI document into a typed message.
//!
//! A document is checked by its `"type"` member before anything else: a
//! missing or non-string type is a parse error, a type this SDK does not know
//! is reported as such (so that callers can skip it), and only a known type is
//! handed on to be decoded into a typed message.

use vstd::prelude::*;
use crate::errors::{ClaudeError, MessageParseError};
use crate::json::{Json, lemma_member_value_absent, lemma_member_value_first};

verus! {

/// The message types that the SDK can decode, one per kind of message.
#[derive(Debug, Clone, Copy, PartialEq, Eq, Structural)]
pub enum MessageKind {
    Assistant,
    System,
    Result,
    StreamEvent,
    User,
    ControlCancelRequest,
    RateLimitEvent,
}

/// The names of the known message types, in the order of [`MessageKind`].
pub open spec fn known_type_names() -> Seq<Seq<char>> {
    seq![
        "assistant"@,
        "system"@,
        "result"@,
        "stream_event"@,
        "user"@,
        "control_cancel_request"@,
        "rate_limit_event"@,
    ]
}

/// The kind that a type name stands for, if it is a known one.
pub open spec fn spec_kind_of(name: Seq<char>) -> Option<MessageKind> {
    if name == "assistant"@ {
        Some(MessageKind::Assistant)
    } else if name == "system"@ {
        Some(MessageKind::System)
    } else if name == "result"@ {
        Some(MessageKind::Result)
    } else if name == "stream_event"@ {
        Some(MessageKind::StreamEvent)
    } else if name == "user"@ {
        Some(MessageKind::User)
    } else if name == "control_cancel_request"@ {
        Some(MessageKind::ControlCancelRequest)
    } else if name == "rate_limit_event"@ {
        Some(MessageKind::RateLimitEvent)
    } else {
        None
    }
}

/// The text of the `"type"` member of a document, where it has one that is a string.
pub open spec fn spec_type_field(data: Json) -> Option<Seq<char>> {
    match data.spec_get("type"@) {
        Some(v) => v.spec_as_str(),
        None => None,
    }
}

/// The kind of message that a document announces, where it announces a known one.
pub open spec fn spec_message_kind(data: Json) -> Option<MessageKind> {
    match spec_type_field(data) {
        Some(name) => spec_kind_of(name),
        None => None,
    }
}

/// The description of a document whose `"type"` is missing or not a string.
pub open spec fn missing_type_description() -> Seq<char> {
    "Missing or non-string 'type' field"@
}

/// The start of the description of a known message that could not be decoded.
pub open spec fn decode_failure_prefix() -> Seq<char> {
    "Failed to parse message: "@
}

/// What [`MessageParser::parse`] answers for `data`, given what decoding it
/// into a typed message gave (which only counts for a known type).
pub open spec fn parse_outcome<M>(data: Json, decoded: Result<M, String>, res: Result<M, ClaudeError>) -> bool {
    match spec_type_field(data) {
        None => res matches Err(ClaudeError::MessageParse(e))
            && e.message@ == missing_type_description()
            && e.data == Some(data),
        Some(name) => match spec_kind_of(name) {
            None => res matches Err(ClaudeError::UnknownMessageType { message_type, data: d })
                && message_type@ == name
                && d == data,
            Some(_) => match decoded {
                Ok(m) => res == Ok::<M, ClaudeError>(m),
                Err(reason) => res matches Err(ClaudeError::MessageParse(e))
                    && e.message@ == decode_failure_prefix() + reason@
                    && e.data == Some(data),
            },
        },
    }
}

impl MessageKind {
    pub open spec fn spec_name(self) -> Seq<char> {
        match self {
            MessageKind::Assistant => "assistant"@,
            MessageKind::System => "system"@,
            MessageKind::Result => "result"@,
            MessageKind::StreamEvent => "stream_event"@,
            MessageKind::User => "user"@,
            MessageKind::ControlCancelRequest => "control_cancel_request"@,
            MessageKind::RateLimitEvent => "rate_limit_event"@,
        }
    }

    /// The value of `"type"` that announces this kind of message.
    pub fn name(&self) -> (res: &'static str)
        ensures
            res@ == self.spec_name(),
    {
        match self {
            MessageKind::Assistant => "assistant",
            MessageKind::System => "system",
            MessageKind::Result => "result",
            MessageKind::StreamEvent => "stream_event",
            MessageKind::User => "user",
            MessageKind::ControlCancelRequest => "control_cancel_request",
            MessageKind::RateLimitEvent => "rate_limit_event",
        }
    }

    /// The kind that a type name stands for, if this SDK knows it.
    pub fn from_name(name: &str) -> (res: Option<MessageKind>)
        ensures
            res == spec_kind_of(name@),
    {
        let name = name.to_owned();
        if same_text(&name, "assistant") {
            Some(MessageKind::Assistant)
        } else if same_text(&name, "system") {
            Some(MessageKind::System)
        } else if same_text(&name, "result") {
            Some(MessageKind::Result)
        } else if same_text(&name, "stream_event") {
            Some(MessageKind::StreamEvent)
        } else if same_text(&name, "user") {
            Some(MessageKind::User)
        } else if same_text(&name, "control_cancel_request") {
            Some(MessageKind::ControlCancelRequest)
        } else if same_text(&name, "rate_limit_event") {
            Some(MessageKind::RateLimitEvent)
        } else {
            None
        }
    }
}

fn same_text(a: &String, b: &str) -> (res: bool)
    ensures
        res == (a@ == b@),
{
    let b = b.to_owned();
    *a == b
}

/// The names of the message types that the SDK can decode.
pub fn known_message_types() -> (res: Vec<&'static str>)
    ensures
        res@.len() == known_type_names().len(),
        forall|i: int| 0 <= i < res@.len() ==> #[trigger] res@[i]@ == known_type_names()[i],
{
    let res = vec![
        "assistant",
        "system",
        "result",
        "stream_event",
        "user",
        "control_cancel_request",
        "rate_limit_event",
    ];
    res
}

/// The list of known type names and the kinds of message are in step: each
/// kind is announced by a name of the list and by no other kind's name, each
/// name of the list announces exactly one kind, and the list holds every name
/// once.
pub proof fn lemma_known_types_in_sync(kind: MessageKind, name: Seq<char>)
    ensures
        spec_kind_of(kind.spec_name()) == Some(kind),
        known_type_names().contains(kind.spec_name()),
        spec_kind_of(name) matches Some(k) ==> k.spec_name() == name,
        known_type_names().contains(name) <==> spec_kind_of(name) is Some,
        known_type_names().len() == 7,
        forall|i: int, j: int|
            0 <= i < j < known_type_names().len() ==> known_type_names()[i] != known_type_names()[j],
{
    reveal_strlit("assistant");
    reveal_strlit("system");
    reveal_strlit("result");
    reveal_strlit("stream_event");
    reveal_strlit("user");
    reveal_strlit("control_cancel_request");
    reveal_strlit("rate_limit_event");
    let names = known_type_names();
    assert("assistant"@.len() == 9);
    assert("system"@.len() == 6);
    assert("result"@.len() == 6);
    assert("stream_event"@.len() == 12);
    assert("user"@.len() == 4);
    assert("control_cancel_request"@.len() == 22);
    assert("rate_limit_event"@.len() == 16);
    assert("system"@[0] != "result"@[0]);
    assert(names[0] == "assistant"@);
    assert(names[1] == "system"@);
    assert(names[2] == "result"@);
    assert(names[3] == "stream_event"@);
    assert(names[4] == "user"@);
    assert(names[5] == "control_cancel_request"@);
    assert(names[6] == "rate_limit_event"@);
    if names.contains(name) {
        let i = choose|i: int| 0 <= i < names.len() && names[i] == name;
        assert(spec_kind_of(name) is Some);
    }
    if spec_kind_of(name) is Some {
        let k = spec_kind_of(name).unwrap();
        assert(names.contains(name)) by {
            match k {
                MessageKind::Assistant => assert(names[0] == name),
                MessageKind::System => assert(names[1] == name),
                MessageKind::Result => assert(names[2] == name),
                MessageKind::StreamEvent => assert(names[3] == name),
                MessageKind::User => assert(names[4] == name),
                MessageKind::ControlCancelRequest => assert(names[5] == name),
                MessageKind::RateLimitEvent => assert(names[6] == name),
            }
        }
    }
    match kind {
        MessageKind::Assistant => assert(names[0] == kind.spec_name()),
        MessageKind::System => assert(names[1] == kind.spec_name()),
        MessageKind::Result => assert(names[2] == kind.spec_name()),
        MessageKind::StreamEvent => assert(names[3] == kind.spec_name()),
        MessageKind::User => assert(names[4] == kind.spec_name()),
        MessageKind::ControlCancelRequest => assert(names[5] == kind.spec_name()),
        MessageKind::RateLimitEvent => assert(names[6] == kind.spec_name()),
    }
}

/// How `parse` answers a document that has a member named `"type"`
/// (its first one being the `i`-th member, wherever it stands): a string
/// that is one of the seven message type names is never an unknown type,
/// and gives the decoded message, or a parse error where decoding failed; any
/// other string is an unknown type of that name; a non-string is a parse
/// error. Every error keeps the document.
pub proof fn lemma_parse_by_type_member<M>(
    data: Json,
    decoded: Result<M, String>,
    res: Result<M, ClaudeError>,
    i: int,
)
    requires
        parse_outcome(data, decoded, res),
        data is Object,
        0 <= i < data->Object_0@.len(),
        data->Object_0@[i].0@ == "type"@,
        forall|j: int| 0 <= j < i ==> data->Object_0@[j].0@ != "type"@,
    ensures
        data->Object_0@[i].1 matches Json::String(s) ==> ({
            let name = s@;
            &&& (name == "assistant"@ || name == "system"@ || name == "result"@
                || name == "stream_event"@ || name == "user"@
                || name == "control_cancel_request"@ || name == "rate_limit_event"@) ==> !(res matches Err(ClaudeError::UnknownMessageType { .. }))
            &&& (name == "assistant"@ || name == "system"@ || name == "result"@
                || name == "stream_event"@ || name == "user"@
                || name == "control_cancel_request"@ || name == "rate_limit_event"@) ==> (decoded matches Ok(m) ==> (res == Ok::<M, ClaudeError>(m)))
            &&& (name == "assistant"@ || name == "system"@ || name == "result"@
                || name == "stream_event"@ || name == "user"@
                || name == "control_cancel_request"@ || name == "rate_limit_event"@) ==> (decoded is Err ==> (res matches Err(ClaudeError::MessageParse(e)) && e.data == Some(data)))
            &&& !(name == "assistant"@ || name == "system"@ || name == "result"@
                || name == "stream_event"@ || name == "user"@
                || name == "control_cancel_request"@ || name == "rate_limit_event"@) ==> (res matches Err(ClaudeError::UnknownMessageType { message_type, data: d })
                && message_type@ == name && d == data)
        }),
        !(data->Object_0@[i].1 is String) ==> (res matches Err(ClaudeError::MessageParse(e))
            && e.data == Some(data)),
{
    lemma_member_value_first(data->Object_0@, "type"@, i);
}

/// A document that is not an object, or has no member named `"type"`, is a
/// parse error that keeps the document, whatever decoding gave.
pub proof fn lemma_parse_without_type_member<M>(
    data: Json,
    decoded: Result<M, String>,
    res: Result<M, ClaudeError>,
)
    requires
        parse_outcome(data, decoded, res),
        data is Object ==> forall|j: int|
            0 <= j < data->Object_0@.len() ==> data->Object_0@[j].0@ != "type"@,
    ensures
        res matches Err(ClaudeError::MessageParse(e)) && e.data == Some(data),
{
    if data is Object {
        lemma_member_value_absent(data->Object_0@, "type"@);
    }
}

/// The kind of a document depends only on the value of its member named
/// `"type"`, wherever that member stands: one of the seven names gives the
/// kind of that name, anything else gives none, and so does a document
/// without such a member.
pub proof fn lemma_message_kind_by_type_member(data: Json, i: int)
    requires
        data is Object,
        0 <= i < data->Object_0@.len(),
        data->Object_0@[i].0@ == "type"@,
        forall|j: int| 0 <= j < i ==> data->Object_0@[j].0@ != "type"@,
    ensures
        data->Object_0@[i].1 matches Json::String(s) ==> ({
            let name = s@;
            &&& (name == "assistant"@ || name == "system"@ || name == "result"@
                || name == "stream_event"@ || name == "user"@
                || name == "control_cancel_request"@ || name == "rate_limit_event"@) ==> (spec_message_kind(data) matches Some(k) && k.spec_name() == name)
            &&& !(name == "assistant"@ || name == "system"@ || name == "result"@
                || name == "stream_event"@ || name == "user"@
                || name == "control_cancel_request"@ || name == "rate_limit_event"@) ==> spec_message_kind(data) is None
        }),
        !(data->Object_0@[i].1 is String) ==> spec_message_kind(data) is None,
{
    lemma_member_value_first(data->Object_0@, "type"@, i);
    if data->Object_0@[i].1 is String {
        let name = data->Object_0@[i].1->String_0@;
        lemma_known_types_in_sync(MessageKind::Assistant, name);
    }
}

/// A document without a member named `"type"` has no kind.
pub proof fn lemma_message_kind_without_type_member(data: Json)
    requires
        data is Object ==> forall|j: int|
            0 <= j < data->Object_0@.len() ==> data->Object_0@[j].0@ != "type"@,
    ensures
        spec_message_kind(data) is None,
{
    if data is Object {
        lemma_member_value_absent(data->Object_0@, "type"@);
    }
}

/// Parser of CLI documents into typed messages.
pub struct MessageParser;

impl MessageParser {
    /// The kind of message that `data` announces by its `"type"`, if it
    /// announces one that the SDK knows: only then is it worth decoding.
    pub fn message_kind(data: &Json) -> (res: Option<MessageKind>)
        ensures
            res == spec_message_kind(*data),
    {
        match data.get("type") {
            Some(v) => match v.as_str() {
                Some(name) => MessageKind::from_name(name),
                None => None,
            },
            None => None,
        }
    }

    /// Parses `data` into a message, consuming it. `decoded` is what decoding
    /// `data` into a typed message gave (a description of the failure where it
    /// failed); it only counts where `data` has a known type.
    ///
    /// A missing or non-string `"type"` is a `MessageParse` error; a type that
    /// the SDK does not know is an `UnknownMessageType` error, never a generic
    /// parse error, so that callers can log and skip it. Both keep `data`.
    pub fn parse<M>(data: Json, decoded: Result<M, String>) -> (res: Result<M, ClaudeError>)
        ensures
            parse_outcome(data, decoded, res),
    {
        let message_type: Option<String> = match data.get("type") {
            Some(v) => match v.as_str() {
                Some(name) => Some(name.to_owned()),
                None => None,
            },
            None => None,
        };
        let message_type = match message_type {
            Some(name) => name,
            None => {
                let description = "Missing or non-string 'type' field".to_owned();
                return Err(ClaudeError::MessageParse(MessageParseError::new(description, Some(data))));
            },
        };
        match MessageKind::from_name(message_type.as_str()) {
            None => Err(ClaudeError::UnknownMessageType { message_type, data }),
            Some(_) => match decoded {
                Ok(message) => Ok(message),
                Err(reason) => {
                    let mut description = "Failed to parse message: ".to_owned();
                    description.append(reason.as_str());
                    Err(ClaudeError::MessageParse(MessageParseError::new(description, Some(data))))
                },
            },
        }
    }
}

} // verus!
