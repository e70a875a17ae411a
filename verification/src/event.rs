//! Events as far as this library reads them: an identifier, the tags that
//! may refer to other events, and the serialised record.

use crate::hex::{from_hex, hex_decoded, hex_encoded, to_hex};
use vstd::prelude::*;
use vstd::std_specs::cmp::PartialEqSpecImpl;

verus! {

/// The identifier of an event: 32 bytes, compared and looked up as a token.
#[derive(Clone, Copy, Debug, Eq, Hash)]
pub struct EventId {
    pub bytes: [u8; 32],
}

impl View for EventId {
    type V = Seq<u8>;

    open spec fn view(&self) -> Seq<u8> {
        self.bytes@
    }
}

impl PartialEq for EventId {
    fn eq(&self, other: &EventId) -> (equal: bool) {
        let mut i: usize = 0;
        while i < 32
            invariant
                i <= 32,
                forall|j: int| 0 <= j < i ==> self.bytes@[j] == other.bytes@[j],
            decreases 32 - i,
        {
            if self.bytes[i] != other.bytes[i] {
                return false;
            }
            i += 1;
        }
        proof {
            assert(self.bytes@ =~= other.bytes@);
        }
        true
    }
}

impl PartialEqSpecImpl for EventId {
    open spec fn obeys_eq_spec() -> bool {
        true
    }

    open spec fn eq_spec(&self, other: &EventId) -> bool {
        self@ == other@
    }
}

/// The identifier that `text` spells: 64 hexadecimal digits of either case.
pub open spec fn event_id_of_hex(text: Seq<char>) -> Option<Seq<u8>> {
    if text.len() == 64 {
        hex_decoded(text)
    } else {
        None
    }
}

impl EventId {
    /// The identifier made of `bytes`.
    pub fn from_bytes(bytes: [u8; 32]) -> (id: EventId)
        ensures
            id@ == bytes@,
    {
        EventId { bytes }
    }

    /// Reads an identifier from its 64 hexadecimal digits, of either case.
    pub fn from_hex(text: &str) -> (id: Option<EventId>)
        ensures
            match id {
                Some(id) => event_id_of_hex(text@) == Some(id@),
                None => event_id_of_hex(text@) is None,
            },
    {
        match from_hex(text) {
            Some(decoded) => {
                if decoded.len() != 32 {
                    return None;
                }
                let mut bytes = [0u8; 32];
                let mut i: usize = 0;
                while i < 32
                    invariant
                        i <= 32,
                        decoded@.len() == 32,
                        forall|j: int| 0 <= j < i ==> bytes@[j] == decoded@[j],
                    decreases 32 - i,
                {
                    bytes[i] = decoded[i];
                    i += 1;
                }
                proof {
                    assert(bytes@ =~= decoded@);
                }
                Some(EventId { bytes })
            },
            None => None,
        }
    }

    /// The identifier as 64 lower-case hexadecimal digits.
    pub fn to_hex(&self) -> (text: String)
        ensures
            text@ == hex_encoded(self@),
    {
        to_hex(self.bytes.as_slice())
    }
}

/// Reading an identifier back from its hexadecimal digits gives the identifier.
pub proof fn lemma_event_id_hex_round_trip(id: EventId)
    ensures
        event_id_of_hex(hex_encoded(id@)) == Some(id@),
{
    crate::hex::lemma_hex_round_trip(id@);
}

/// A tag of an event. Only a reference to another event is told apart; every
/// other tag is `Other`.
#[derive(Clone, Copy, Debug, Eq)]
pub enum Tag {
    /// The tag refers to the event with this identifier.
    Event(EventId),
    /// Any other tag.
    Other,
}

impl View for Tag {
    type V = Option<Seq<u8>>;

    /// The identifier that the tag refers to, if it refers to an event.
    open spec fn view(&self) -> Option<Seq<u8>> {
        match self {
            Tag::Event(id) => Some(id@),
            Tag::Other => None,
        }
    }
}

impl PartialEq for Tag {
    fn eq(&self, other: &Tag) -> (equal: bool) {
        match (self, other) {
            (Tag::Event(a), Tag::Event(b)) => a == b,
            (Tag::Other, Tag::Other) => true,
            _ => false,
        }
    }
}

impl PartialEqSpecImpl for Tag {
    open spec fn obeys_eq_spec() -> bool {
        true
    }

    open spec fn eq_spec(&self, other: &Tag) -> bool {
        self@ == other@
    }
}

/// An event: its identifier, its tags in order, and its record as JSON text.
/// The library reads the first two and carries the third.
#[derive(Debug, Eq)]
pub struct Event {
    pub id: EventId,
    pub tags: Vec<Tag>,
    pub json: String,
}

/// An event as contracts speak of it.
pub struct EventView {
    pub id: Seq<u8>,
    /// For each tag, the identifier it refers to, if any.
    pub tags: Seq<Option<Seq<u8>>>,
    pub json: Seq<char>,
}

impl View for Event {
    type V = EventView;

    open spec fn view(&self) -> EventView {
        EventView { id: self.id@, tags: self.tags@.map_values(|t: Tag| t@), json: self.json@ }
    }
}

/// The first reference among `tags`, if there is one.
pub open spec fn first_reference(tags: Seq<Option<Seq<u8>>>) -> Option<Seq<u8>>
    decreases tags.len(),
{
    if tags.len() == 0 {
        None
    } else if tags[0] is Some {
        tags[0]
    } else {
        first_reference(tags.drop_first())
    }
}

/// `first_reference` is the reference at the least index that holds one.
pub proof fn lemma_first_reference(tags: Seq<Option<Seq<u8>>>)
    ensures
        match first_reference(tags) {
            Some(id) => exists|i: int|
                0 <= i < tags.len() && tags[i] == Some(id) && forall|j: int|
                    0 <= j < i ==> tags[j] is None,
            None => forall|j: int| 0 <= j < tags.len() ==> tags[j] is None,
        },
    decreases tags.len(),
{
    if tags.len() == 0 {
    } else if tags[0] is Some {
        assert(tags[0] == Some(tags[0]->0) && forall|j: int| 0 <= j < 0 ==> tags[j] is None);
    } else {
        let rest = tags.drop_first();
        lemma_first_reference(rest);
        match first_reference(rest) {
            Some(id) => {
                let i = choose|i: int|
                    0 <= i < rest.len() && rest[i] == Some(id) && forall|j: int|
                        0 <= j < i ==> rest[j] is None;
                assert forall|j: int| 0 <= j < i + 1 implies tags[j] is None by {
                    if j > 0 {
                        assert(tags[j] == rest[j - 1]);
                    }
                }
                assert(tags[i + 1] == Some(id));
            },
            None => {
                assert forall|j: int| 0 <= j < tags.len() implies tags[j] is None by {
                    if j > 0 {
                        assert(tags[j] == rest[j - 1]);
                    }
                }
            },
        }
    }
}

impl Clone for Event {
    fn clone(&self) -> (copy: Event)
        ensures
            copy@ == self@,
    {
        let mut tags: Vec<Tag> = Vec::new();
        let mut i: usize = 0;
        while i < self.tags.len()
            invariant
                i <= self.tags.len(),
                tags@ == self.tags@.take(i as int),
            decreases self.tags.len() - i,
        {
            tags.push(self.tags[i]);
            proof {
                assert(self.tags@.take(i + 1) =~= self.tags@.take(i as int).push(self.tags@[i as int]));
            }
            i += 1;
        }
        proof {
            assert(self.tags@.take(self.tags.len() as int) =~= self.tags@);
        }
        Event { id: self.id, tags, json: self.json.clone() }
    }
}

impl PartialEq for Event {
    fn eq(&self, other: &Event) -> (equal: bool) {
        if self.id != other.id || self.json != other.json || self.tags.len() != other.tags.len() {
            proof {
                if self.tags.len() != other.tags.len() {
                    assert(self@.tags.len() != other@.tags.len());
                }
            }
            return false;
        }
        let mut i: usize = 0;
        while i < self.tags.len()
            invariant
                i <= self.tags.len(),
                self.tags.len() == other.tags.len(),
                forall|j: int| 0 <= j < i ==> self.tags@[j]@ == other.tags@[j]@,
            decreases self.tags.len() - i,
        {
            if self.tags[i] != other.tags[i] {
                proof {
                    assert(self@.tags[i as int] != other@.tags[i as int]);
                }
                return false;
            }
            i += 1;
        }
        proof {
            assert(self@.tags =~= other@.tags);
        }
        true
    }
}

impl PartialEqSpecImpl for Event {
    open spec fn obeys_eq_spec() -> bool {
        true
    }

    open spec fn eq_spec(&self, other: &Event) -> bool {
        self@ == other@
    }
}

/// What reading `json` as the record of an event gives: the event's
/// identifier, for each of its tags the identifier it refers to, and the
/// record written out again by the serialiser. `None` where `json` is not
/// the record of an event.
pub uninterp spec fn event_of_json(json: Seq<char>) -> Option<EventView>;

/// Calls `serde_json::from_str` to read `json` as a `nostr_sdk::Event`, and
/// `serde_json::to_string` to write the record out again.
///
/// The contract claims only that the outcome is a function of `json`: the
/// same text is always refused, or always gives the same identifier, the
/// same references and the same record. It claims nothing of which texts are
/// records, nor that the signature of the event is good: reading a record
/// does not check it.
#[verifier::external_body]
fn read_record(json: &str) -> (read: Result<Event, serde_json::Error>)
    ensures
        match read {
            Ok(event) => event_of_json(json@) == Some(event@),
            Err(_) => event_of_json(json@) is None,
        },
{
    let record: nostr_sdk::Event = serde_json::from_str(json)?;
    let tags = record.tags.iter().map(|tag| match tag {
        nostr_sdk::Tag::Event(id, ..) => Tag::Event(EventId { bytes: *id.inner().as_ref() }),
        _ => Tag::Other,
    }).collect();
    let id = EventId { bytes: *record.id.inner().as_ref() };
    Ok(Event { id, tags, json: serde_json::to_string(&record)? })
}

impl Event {
    /// The event with these parts.
    pub fn new(id: EventId, tags: Vec<Tag>, json: String) -> (event: Event)
        ensures
            event@ == (EventView {
                id: id@,
                tags: tags@.map_values(|t: Tag| t@),
                json: json@,
            }),
    {
        Event { id, tags, json }
    }

    /// Reads an event from its record as JSON text. `None` where the text is
    /// not the record of an event.
    pub fn from_json(json: &str) -> (event: Option<Event>)
        ensures
            match event {
                Some(event) => event_of_json(json@) == Some(event@),
                None => event_of_json(json@) is None,
            },
    {
        match read_record(json) {
            Ok(event) => Some(event),
            Err(_) => None,
        }
    }

    /// The identifier of the event that this one refers to: that of its first
    /// tag that refers to an event. `None` if no tag does.
    pub fn parent(&self) -> (parent: Option<EventId>)
        ensures
            match parent {
                Some(id) => first_reference(self@.tags) == Some(id@),
                None => first_reference(self@.tags) is None,
            },
    {
        let mut i: usize = 0;
        proof {
            assert(self@.tags.skip(0) =~= self@.tags);
        }
        while i < self.tags.len()
            invariant
                i <= self.tags.len(),
                first_reference(self@.tags) == first_reference(self@.tags.skip(i as int)),
            decreases self.tags.len() - i,
        {
            proof {
                let rest = self@.tags.skip(i as int);
                assert(rest[0] == self.tags@[i as int]@);
                assert(rest.drop_first() =~= self@.tags.skip(i + 1));
            }
            match self.tags[i] {
                Tag::Event(id) => {
                    return Some(id);
                },
                Tag::Other => {},
            }
            i += 1;
        }
        proof {
            assert(self@.tags.skip(self.tags.len() as int).len() == 0);
        }
        None
    }
}

} // verus!
