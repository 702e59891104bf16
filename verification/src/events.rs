//! Notifications of changes to the catalog, and their wire form.
//!
//! A message is sent as a JSON object of two members, the numeric `id` and
//! the event's name under `type`: `{"id":7,"type":"EventNewLibrary"}`.
use vstd::prelude::*;
use vstd::string::*;

verus! {

/// What changed in the catalog.
#[derive(Copy, Clone, Debug, PartialEq, Eq, Structural)]
pub enum PushEventType {
    EventNewCard,
    EventRemoveCard,
    EventNewLibrary,
    EventRemoveLibrary,
}

/// A notification: the event and the number that its sender gave it.
#[derive(Copy, Clone, Debug, PartialEq, Eq, Structural)]
pub struct Message {
    pub id: i32,
    pub event_type: PushEventType,
}

/// The decimal digits of a natural number, without leading zeros.
pub open spec fn digits(number: nat) -> Seq<char>
    decreases number,
{
    if number < 10 {
        seq![(48 + number) as u8 as char]
    } else {
        digits(number / 10).push((48 + number % 10) as u8 as char)
    }
}

/// An integer in decimal, with a minus sign if it is negative.
pub open spec fn decimal(number: int) -> Seq<char> {
    if number < 0 {
        seq!['-'] + digits((-number) as nat)
    } else {
        digits(number as nat)
    }
}

/// Whether JSON writes every character of the text as it is: none is a
/// quotation mark, a backslash or a control character below the space.
pub open spec fn is_plain(text: Seq<char>) -> bool {
    forall|i: int| 0 <= i < text.len() ==> 32 <= (#[trigger] text[i]) as u32 && text[i] != '"'
            && text[i] != '\\'
}

/// The text between quotation marks.
pub open spec fn quoted(text: Seq<char>) -> Seq<char> {
    seq!['"'] + text + seq!['"']
}

/// Calls `serde_json::to_string` on an `i32`. The contract claims that the
/// result is the number in decimal; writing an integer into memory has no
/// way to fail.
#[verifier::external_body]
fn json_number(number: i32) -> (text: String)
    ensures
        text@ == decimal(number as int),
{
    serde_json::to_string(&number).unwrap()
}

/// Calls `serde_json::to_string` on a `str`. The contract claims that a text
/// without characters to escape comes back unchanged between two quotation
/// marks; writing it into memory has no way to fail.
#[verifier::external_body]
fn json_string(text: &str) -> (json: String)
    requires
        is_plain(text@),
    ensures
        json@ == quoted(text@),
{
    serde_json::to_string(text).unwrap()
}

impl PushEventType {
    /// The name under which an event travels.
    pub open spec fn tag(self) -> Seq<char> {
        match self {
            PushEventType::EventNewCard => "EventNewCard"@,
            PushEventType::EventRemoveCard => "EventRemoveCard"@,
            PushEventType::EventNewLibrary => "EventNewLibrary"@,
            PushEventType::EventRemoveLibrary => "EventRemoveLibrary"@,
        }
    }

    /// The name under which an event travels.
    pub fn as_str(&self) -> (tag: &'static str)
        ensures
            tag@ == self.tag(),
            is_plain(tag@),
    {
        proof {
            reveal_strlit("EventNewCard");
            reveal_strlit("EventRemoveCard");
            reveal_strlit("EventNewLibrary");
            reveal_strlit("EventRemoveLibrary");
        }
        match self {
            PushEventType::EventNewCard => "EventNewCard",
            PushEventType::EventRemoveCard => "EventRemoveCard",
            PushEventType::EventNewLibrary => "EventNewLibrary",
            PushEventType::EventRemoveLibrary => "EventRemoveLibrary",
        }
    }
}

impl Message {
    /// The wire form of a message: a JSON object that holds the id as a
    /// number and the event's name as a string.
    pub open spec fn payload(self) -> Seq<char> {
        "{\"id\":"@ + decimal(self.id as int) + ",\"type\":"@ + quoted(self.event_type.tag())
            + "}"@
    }

    /// Writes the message in its wire form. This never fails.
    pub fn serialize(&self) -> (payload: String)
        ensures
            payload@ == self.payload(),
    {
        let mut payload = String::from_str("{\"id\":");
        payload.append(json_number(self.id).as_str());
        payload.append(",\"type\":");
        payload.append(json_string(self.event_type.as_str()).as_str());
        payload.append("}");
        payload
    }
}

} // verus!
