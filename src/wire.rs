//! The wire envelope shared by every participant of the bus, and the line
//! framing it travels in: one UTF-8 JSON object per `\n`-terminated line.

use vstd::prelude::*;
use vstd::utf8::{decode_utf8, valid_utf8};
use crate::text::same_text;

verus! {

/// serde_json's JSON value, carried opaquely as an envelope's payload.
#[verifier::external_type_specification]
#[verifier::external_body]
pub struct ExValue(serde_json::Value);

/// The kind discriminator of an envelope.
#[derive(Debug, Clone, Copy, PartialEq, Eq, Structural)]
pub enum IPCMessageType {
    PresentReview,
    Log,
    GetSelection,
    /// A broadcast query asking which sessions are present.
    Marco,
    /// A presence announcement carrying the announcer's origin tag.
    Polo,
    /// A departure announcement sent during graceful shutdown.
    Goodbye,
    /// A reply; its id echoes the id of the request it answers.
    Response,
    ResolveSymbolByName,
    FindAllReferences,
    CreateSyntheticPr,
    /// An out-of-band, human-paced feedback event.
    UserFeedback,
}

/// The name of each kind on the wire.
pub open spec fn kind_name(k: IPCMessageType) -> Seq<char> {
    match k {
        IPCMessageType::PresentReview => "present_review"@,
        IPCMessageType::Log => "log"@,
        IPCMessageType::GetSelection => "get_selection"@,
        IPCMessageType::Marco => "marco"@,
        IPCMessageType::Polo => "polo"@,
        IPCMessageType::Goodbye => "goodbye"@,
        IPCMessageType::Response => "response"@,
        IPCMessageType::ResolveSymbolByName => "resolve_symbol_by_name"@,
        IPCMessageType::FindAllReferences => "find_all_references"@,
        IPCMessageType::CreateSyntheticPr => "create_synthetic_pr"@,
        IPCMessageType::UserFeedback => "user_feedback"@,
    }
}

/// The kind whose wire name is `s`, if there is one.
pub open spec fn kind_of_name(s: Seq<char>) -> Option<IPCMessageType> {
    if exists|k: IPCMessageType| kind_name(k) == s {
        Some(choose|k: IPCMessageType| kind_name(k) == s)
    } else {
        None
    }
}

/// Every kind in declaration order.
pub open spec fn all_kinds() -> Seq<IPCMessageType> {
    seq![
        IPCMessageType::PresentReview,
        IPCMessageType::Log,
        IPCMessageType::GetSelection,
        IPCMessageType::Marco,
        IPCMessageType::Polo,
        IPCMessageType::Goodbye,
        IPCMessageType::Response,
        IPCMessageType::ResolveSymbolByName,
        IPCMessageType::FindAllReferences,
        IPCMessageType::CreateSyntheticPr,
        IPCMessageType::UserFeedback,
    ]
}

/// Distinct kinds have distinct wire names.
pub proof fn lemma_kind_names_distinct(a: IPCMessageType, b: IPCMessageType)
    ensures
        kind_name(a) == kind_name(b) ==> a == b,
{
    reveal_strlit("present_review");
    reveal_strlit("log");
    reveal_strlit("get_selection");
    reveal_strlit("marco");
    reveal_strlit("polo");
    reveal_strlit("goodbye");
    reveal_strlit("response");
    reveal_strlit("resolve_symbol_by_name");
    reveal_strlit("find_all_references");
    reveal_strlit("create_synthetic_pr");
    reveal_strlit("user_feedback");
    if kind_name(a) == kind_name(b) {
        let (x, y) = (kind_name(a), kind_name(b));
        assert(x.len() == y.len() && x[0] == y[0]);
        if x.len() > 2 {
            assert(x[2] == y[2]);
        }
    }
}

impl IPCMessageType {
    /// The kind's name on the wire.
    pub fn wire_name(&self) -> (r: &'static str)
        ensures
            r@ == kind_name(*self),
    {
        match self {
            IPCMessageType::PresentReview => "present_review",
            IPCMessageType::Log => "log",
            IPCMessageType::GetSelection => "get_selection",
            IPCMessageType::Marco => "marco",
            IPCMessageType::Polo => "polo",
            IPCMessageType::Goodbye => "goodbye",
            IPCMessageType::Response => "response",
            IPCMessageType::ResolveSymbolByName => "resolve_symbol_by_name",
            IPCMessageType::FindAllReferences => "find_all_references",
            IPCMessageType::CreateSyntheticPr => "create_synthetic_pr",
            IPCMessageType::UserFeedback => "user_feedback",
        }
    }

    /// The kind whose wire name is `name`, if any.
    pub fn from_wire_name(name: &str) -> (r: Option<IPCMessageType>)
        ensures
            r == kind_of_name(name@),
    {
        let mut i: usize = 0;
        let kinds: [IPCMessageType; 11] = [
            IPCMessageType::PresentReview,
            IPCMessageType::Log,
            IPCMessageType::GetSelection,
            IPCMessageType::Marco,
            IPCMessageType::Polo,
            IPCMessageType::Goodbye,
            IPCMessageType::Response,
            IPCMessageType::ResolveSymbolByName,
            IPCMessageType::FindAllReferences,
            IPCMessageType::CreateSyntheticPr,
            IPCMessageType::UserFeedback,
        ];
        assert(kinds@ =~= all_kinds());
        while i < 11
            invariant
                kinds@ == all_kinds(),
                i <= 11,
                forall|j: int| 0 <= j < i ==> kind_name(#[trigger] all_kinds()[j]) != name@,
            decreases 11 - i,
        {
            let k = kinds[i];
            if same_text(k.wire_name(), name) {
                proof {
                    let c = choose|c: IPCMessageType| kind_name(c) == name@;
                    lemma_kind_names_distinct(c, k);
                }
                return Some(k);
            }
            i = i + 1;
        }
        assert forall|k: IPCMessageType| kind_name(k) != name@ by {
            let j: int = match k {
                IPCMessageType::PresentReview => 0,
                IPCMessageType::Log => 1,
                IPCMessageType::GetSelection => 2,
                IPCMessageType::Marco => 3,
                IPCMessageType::Polo => 4,
                IPCMessageType::Goodbye => 5,
                IPCMessageType::Response => 6,
                IPCMessageType::ResolveSymbolByName => 7,
                IPCMessageType::FindAllReferences => 8,
                IPCMessageType::CreateSyntheticPr => 9,
                IPCMessageType::UserFeedback => 10,
            };
            assert(all_kinds()[j] == k);
        }
        None
    }
}

/// Reading a kind back from its wire name gives the same kind.
pub proof fn lemma_kind_name_round_trip(k: IPCMessageType)
    ensures
        kind_of_name(kind_name(k)) == Some(k),
{
    let j = choose|j: IPCMessageType| kind_name(j) == kind_name(k);
    lemma_kind_names_distinct(j, k);
}

/// One envelope: a kind, a correlation id, the origin tag of the session it
/// concerns, and a payload whose schema belongs to the callers.
pub struct IPCMessage {
    pub message_type: IPCMessageType,
    pub payload: serde_json::Value,
    pub id: String,
    pub shell_pid: u32,
}

/// The payload of a reply.
pub struct ResponsePayload {
    pub success: bool,
    pub error: Option<String>,
    pub data: Option<serde_json::Value>,
}

/// A character of a lower-case hexadecimal number.
pub open spec fn is_lower_hex(c: char) -> bool {
    ('0' <= c && c <= '9') || ('a' <= c && c <= 'f')
}

/// The shape of a hyphenated lower-case UUID: 36 characters, hyphens at
/// 8, 13, 18 and 23, hexadecimal digits elsewhere.
pub open spec fn is_hyphenated_uuid(s: Seq<char>) -> bool {
    &&& s.len() == 36
    &&& forall|i: int|
        0 <= i < 36 ==> if i == 8 || i == 13 || i == 18 || i == 23 {
            s[i] == '-'
        } else {
            is_lower_hex(#[trigger] s[i])
        }
}

/// Relies on uuid::Uuid::new_v4 and the Uuid's Display form, which is the
/// hyphenated lower-case one: a random id of that shape.
#[verifier::external_body]
fn random_uuid_text() -> (r: String)
    ensures
        is_hyphenated_uuid(r@),
{
    uuid::Uuid::new_v4().to_string()
}

/// A new envelope with a fresh random correlation id.
pub fn new_envelope(message_type: IPCMessageType, shell_pid: u32, payload: serde_json::Value) -> (r:
    IPCMessage)
    ensures
        r.message_type == message_type,
        r.shell_pid == shell_pid,
        r.payload == payload,
        is_hyphenated_uuid(r.id@),
{
    IPCMessage { message_type, payload, id: random_uuid_text(), shell_pid }
}

/// The line that carries `text`: the text and a newline terminator.
pub fn frame_line(text: &str) -> (r: String)
    ensures
        r@ == text@.push('\n'),
{
    let mut r = text.to_owned();
    crate::text::push_char(&mut r, '\n');
    r
}

/// The bytes of a received line without its newline terminator, if it has one.
pub open spec fn strip_terminator_spec(b: Seq<u8>) -> Seq<u8> {
    if b.len() > 0 && b.last() == 10u8 {
        b.drop_last()
    } else {
        b
    }
}

/// Drops the newline terminator of a received line, if it has one.
pub fn strip_terminator(buf: Vec<u8>) -> (r: Vec<u8>)
    ensures
        r@ == strip_terminator_spec(buf@),
{
    let mut buf = buf;
    let n = buf.len();
    if n > 0 && buf[n - 1] == 10u8 {
        buf.pop();
    }
    buf
}

/// Relies on String::from_utf8: the text that `bytes` encode, or an error
/// when they are not valid UTF-8.
#[verifier::external_body]
fn utf8_text(bytes: Vec<u8>) -> (r: Option<String>)
    ensures
        r is Some <==> valid_utf8(bytes@),
        r matches Some(s) ==> s@ == decode_utf8(bytes@),
{
    String::from_utf8(bytes).ok()
}

/// The text of a received line, without its terminator; `None` when the
/// bytes are not valid UTF-8 (such a line is skipped, not fatal).
pub fn decode_line(buf: Vec<u8>) -> (r: Option<String>)
    ensures
        r is Some <==> valid_utf8(strip_terminator_spec(buf@)),
        r matches Some(s) ==> s@ == decode_utf8(strip_terminator_spec(buf@)),
{
    utf8_text(strip_terminator(buf))
}

} // verus!
