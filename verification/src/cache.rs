//! The event cache: a map from event identifiers to events, kept as a list
//! in which no key occurs twice, and its form as a JSON object.

use crate::error::ErrorKind;
use crate::event::{event_id_of_hex, event_of_json, Event, EventId, EventView};
use crate::hex::hex_encoded;
use serde_json::value::RawValue;
use std::collections::BTreeMap;
use vstd::prelude::*;

verus! {

/// One entry of the cache.
#[derive(Debug)]
pub struct Entry {
    pub key: EventId,
    pub event: Event,
}

/// An entry as contracts speak of it.
pub struct EntryView {
    pub key: Seq<u8>,
    pub event: EventView,
}

impl View for Entry {
    type V = EntryView;

    open spec fn view(&self) -> EntryView {
        EntryView { key: self.key@, event: self.event@ }
    }
}

/// No key occurs twice among `entries`.
pub open spec fn distinct_keys(entries: Seq<EntryView>) -> bool {
    forall|i: int, j: int|
        0 <= i < j < entries.len() ==> (#[trigger] entries[i]).key != (#[trigger] entries[j]).key
}

/// Some entry has the key `key`.
pub open spec fn has_key(entries: Seq<EntryView>, key: Seq<u8>) -> bool {
    exists|i: int| 0 <= i < entries.len() && (#[trigger] entries[i]).key == key
}

/// The index of an entry with the key `key`, where there is one.
pub open spec fn position(entries: Seq<EntryView>, key: Seq<u8>) -> int {
    choose|i: int| 0 <= i < entries.len() && (#[trigger] entries[i]).key == key
}

/// The map that `entries` stand for.
pub open spec fn as_map(entries: Seq<EntryView>) -> Map<Seq<u8>, EventView> {
    Map::new(|key: Seq<u8>| has_key(entries, key), |key: Seq<u8>| entries[position(entries, key)].event)
}

/// `entries` after `event` was put under `key`: in the place of the entry
/// with that key where there is one, else at the end.
pub open spec fn inserted(entries: Seq<EntryView>, key: Seq<u8>, event: EventView) -> Seq<
    EntryView,
> {
    if has_key(entries, key) {
        entries.update(position(entries, key), EntryView { key, event })
    } else {
        entries.push(EntryView { key, event })
    }
}

/// Where no key occurs twice, the entry at `i` is what the map holds under
/// its key.
pub proof fn lemma_entry_is_mapped(entries: Seq<EntryView>, i: int)
    requires
        distinct_keys(entries),
        0 <= i < entries.len(),
    ensures
        has_key(entries, entries[i].key),
        position(entries, entries[i].key) == i,
        as_map(entries).contains_key(entries[i].key),
        as_map(entries)[entries[i].key] == entries[i].event,
{
    let key = entries[i].key;
    let p = position(entries, key);
    if p < i {
        assert(entries[p].key != entries[i].key);
    } else if i < p {
        assert(entries[i].key != entries[p].key);
    }
}

/// Putting an event under a key keeps the keys distinct, and is the map's
/// own insertion.
pub proof fn lemma_inserted(entries: Seq<EntryView>, key: Seq<u8>, event: EventView)
    requires
        distinct_keys(entries),
    ensures
        distinct_keys(inserted(entries, key, event)),
        as_map(inserted(entries, key, event)) == as_map(entries).insert(key, event),
{
    let after = inserted(entries, key, event);
    let entry = EntryView { key, event };
    if has_key(entries, key) {
        let p = position(entries, key);
        assert forall|i: int, j: int| 0 <= i < j < after.len() implies (#[trigger] after[i]).key
            != (#[trigger] after[j]).key by {
            assert(after[i].key == entries[i].key);
            assert(after[j].key == entries[j].key);
        }
        assert forall|k: Seq<u8>| has_key(after, k) == (#[trigger] has_key(entries, k)) by {
            if has_key(entries, k) {
                let i = position(entries, k);
                assert(after[i].key == k);
            }
            if has_key(after, k) {
                let i = position(after, k);
                assert(entries[i].key == k);
            }
        }
        assert forall|k: Seq<u8>| has_key(after, k) implies #[trigger] as_map(after)[k] == as_map(
            entries,
        ).insert(key, event)[k] by {
            let i = position(after, k);
            lemma_entry_is_mapped(after, i);
            if k != key {
                assert(entries[i].key == k);
                lemma_entry_is_mapped(entries, i);
            } else {
                lemma_entry_is_mapped(after, p);
            }
        }
        assert(as_map(after) =~= as_map(entries).insert(key, event));
    } else {
        assert forall|i: int, j: int| 0 <= i < j < after.len() implies (#[trigger] after[i]).key
            != (#[trigger] after[j]).key by {
            if j == entries.len() {
                assert(entries[i].key != key);
            } else {
                assert(after[i] == entries[i]);
                assert(after[j] == entries[j]);
            }
        }
        assert forall|k: Seq<u8>| has_key(after, k) == (k == key || #[trigger] has_key(entries, k)) by {
            if has_key(entries, k) {
                let i = position(entries, k);
                assert(after[i].key == k);
            }
            if k == key {
                assert(after[entries.len() as int].key == k);
            }
            if has_key(after, k) && k != key {
                let i = position(after, k);
                assert(entries[i].key == k);
            }
        }
        assert forall|k: Seq<u8>| has_key(after, k) implies #[trigger] as_map(after)[k] == as_map(
            entries,
        ).insert(key, event)[k] by {
            let i = position(after, k);
            lemma_entry_is_mapped(after, i);
            if k != key {
                assert(entries[i].key == k);
                lemma_entry_is_mapped(entries, i);
            } else {
                lemma_entry_is_mapped(after, entries.len() as int);
            }
        }
        assert(as_map(after) =~= as_map(entries).insert(key, event));
    }
}

/// The cache of events. No key occurs twice; an entry stays where it was
/// first put.
#[derive(Debug)]
pub struct EventCache {
    entries: Vec<Entry>,
}

impl View for EventCache {
    type V = Map<Seq<u8>, EventView>;

    /// The cache as a map.
    open spec fn view(&self) -> Map<Seq<u8>, EventView> {
        as_map(self.entries())
    }
}

impl EventCache {
    /// What every cache keeps to: no key occurs twice.
    #[verifier::type_invariant]
    pub open spec fn keys_are_distinct(self) -> bool {
        distinct_keys(self.entries())
    }

    /// The entries in the order in which their keys were first put.
    pub closed spec fn entries(&self) -> Seq<EntryView> {
        self.entries@.map_values(|e: Entry| e@)
    }

    /// Every key of a cache is the 32 bytes of an identifier.
    pub proof fn lemma_keys_are_identifiers(&self)
        ensures
            forall|i: int|
                0 <= i < self.entries().len() ==> (#[trigger] self.entries()[i]).key.len() == 32,
    {
        assert forall|i: int| 0 <= i < self.entries().len() implies (#[trigger] self.entries()[i]).key.len()
            == 32 by {
            assert(self.entries()[i].key == self.entries@[i].key@);
        }
    }

    /// The empty cache.
    pub fn new() -> (cache: EventCache)
        ensures
            cache.entries() == Seq::<EntryView>::empty(),
            cache@ == Map::<Seq<u8>, EventView>::empty(),
            distinct_keys(cache.entries()),
    {
        let cache = EventCache { entries: Vec::new() };
        proof {
            assert(cache.entries() =~= Seq::<EntryView>::empty());
            assert(cache@ =~= Map::<Seq<u8>, EventView>::empty());
        }
        cache
    }

    /// The number of entries.
    pub fn len(&self) -> (n: usize)
        ensures
            n == self.entries().len(),
            n == self@.dom().len(),
            distinct_keys(self.entries()),
    {
        proof {
            use_type_invariant(self);
            lemma_len_of_map(self.entries());
        }
        self.entries.len()
    }

    /// The index of the entry under `id`, if there is one.
    fn find(&self, id: &EventId) -> (found: Option<usize>)
        ensures
            distinct_keys(self.entries()),
            match found {
                Some(i) => i < self.entries().len() && self.entries()[i as int].key == id@
                    && has_key(self.entries(), id@) && position(self.entries(), id@) == i,
                None => !has_key(self.entries(), id@),
            },
    {
        proof {
            use_type_invariant(self);
        }
        let mut i: usize = 0;
        while i < self.entries.len()
            invariant
                i <= self.entries.len(),
                distinct_keys(self.entries()),
                forall|j: int| 0 <= j < i ==> (#[trigger] self.entries()[j]).key != id@,
            decreases self.entries.len() - i,
        {
            if self.entries[i].key == *id {
                proof {
                    assert(self.entries()[i as int].key == id@);
                    lemma_entry_is_mapped(self.entries(), i as int);
                }
                return Some(i);
            }
            proof {
                assert(self.entries()[i as int].key == self.entries@[i as int].key@);
            }
            i += 1;
        }
        None
    }

    /// Whether the cache holds an event under `id`.
    pub fn contains(&self, id: &EventId) -> (held: bool)
        ensures
            held == self@.contains_key(id@),
    {
        self.find(id).is_some()
    }

    /// The event held under `id`, if there is one.
    pub fn get(&self, id: &EventId) -> (held: Option<&Event>)
        ensures
            match held {
                Some(event) => self@.contains_key(id@) && self@[id@] == event@,
                None => !self@.contains_key(id@),
            },
    {
        match self.find(id) {
            Some(i) => {
                proof {
                    lemma_entry_is_mapped(self.entries(), i as int);
                }
                Some(&self.entries[i].event)
            },
            None => None,
        }
    }

    /// Puts `event` under `key`. An entry that was there under `key` is
    /// replaced, where it stood; every other entry stays as it was.
    pub fn insert(&mut self, key: EventId, event: Event)
        ensures
            final(self).entries() == inserted(old(self).entries(), key@, event@),
            final(self)@ == old(self)@.insert(key@, event@),
            distinct_keys(final(self).entries()),
    {
        proof {
            use_type_invariant(&*self);
            lemma_inserted(self.entries(), key@, event@);
        }
        let ghost before = self.entries();
        let found = self.find(&key);
        let mut entries: Vec<Entry> = Vec::new();
        core::mem::swap(&mut self.entries, &mut entries);
        match found {
            Some(i) => {
                entries[i] = Entry { key, event };
            },
            None => {
                entries.push(Entry { key, event });
            },
        }
        proof {
            assert(entries@.map_values(|e: Entry| e@) =~= inserted(before, key@, event@));
        }
        self.entries = entries;
    }
}

/// Where no key occurs twice, the map has as many keys as there are entries.
pub proof fn lemma_len_of_map(entries: Seq<EntryView>)
    requires
        distinct_keys(entries),
    ensures
        as_map(entries).dom().finite(),
        as_map(entries).dom().len() == entries.len(),
    decreases entries.len(),
{
    if entries.len() == 0 {
        assert(as_map(entries).dom() =~= Set::<Seq<u8>>::empty());
    } else {
        let rest = entries.drop_last();
        let last = entries.last();
        assert(distinct_keys(rest)) by {
            assert forall|i: int, j: int| 0 <= i < j < rest.len() implies (#[trigger] rest[i]).key != (
            #[trigger] rest[j]).key by {
                assert(rest[i] == entries[i]);
                assert(rest[j] == entries[j]);
            }
        }
        lemma_len_of_map(rest);
        assert(!has_key(rest, last.key)) by {
            if has_key(rest, last.key) {
                let i = position(rest, last.key);
                assert(rest[i] == entries[i]);
                assert(entries[i].key != entries[entries.len() - 1].key);
            }
        }
        assert(as_map(entries).dom() =~= as_map(rest).dom().insert(last.key)) by {
            assert forall|k: Seq<u8>| has_key(entries, k) == (k == last.key || has_key(rest, k)) by {
                if has_key(rest, k) {
                    let i = position(rest, k);
                    assert(entries[i] == rest[i]);
                }
                if k == last.key {
                    assert(entries[entries.len() - 1].key == k);
                }
                if has_key(entries, k) && k != last.key {
                    let i = position(entries, k);
                    assert(rest[i] == entries[i]);
                }
            }
        }
    }
}

/// A member of a JSON object: its name, and the JSON text of its value.
#[derive(Debug)]
pub struct Member {
    pub name: String,
    pub value: String,
}

/// A member as contracts speak of it.
pub struct MemberView {
    pub name: Seq<char>,
    pub value: Seq<char>,
}

impl View for Member {
    type V = MemberView;

    open spec fn view(&self) -> MemberView {
        MemberView { name: self.name@, value: self.value@ }
    }
}

/// The members of the JSON object that `content` is, in the order of their
/// names, each name once with the value that comes last under it. `None`
/// where `content` is not a JSON object.
pub uninterp spec fn object_members(content: Seq<char>) -> Option<Seq<MemberView>>;

/// The text of the JSON object with these members. `None` where the value of
/// a member is not JSON text.
pub uninterp spec fn object_text(members: Seq<MemberView>) -> Option<Seq<char>>;

/// Calls `serde_json::from_str` to read `content` as a map from names to raw
/// JSON values.
///
/// The contract claims that the outcome is a function of `content`, and
/// gives that function a name. It claims nothing of which texts are objects.
#[verifier::external_body]
fn split_object(content: &str) -> (split: Result<Vec<Member>, serde_json::Error>)
    ensures
        match split {
            Ok(members) => object_members(content@) == Some(members@.map_values(|m: Member| m@)),
            Err(_) => object_members(content@) is None,
        },
{
    let object: BTreeMap<String, Box<RawValue>> = serde_json::from_str(content)?;
    Ok(object.into_iter().map(|(name, value)| Member { name, value: value.get().to_owned() }).collect())
}

/// Calls `serde_json::to_string` on the map from the members' names to their
/// values as raw JSON, which `RawValue::from_string` makes of each.
///
/// The contract claims that the outcome is a function of `members`, and
/// gives that function a name.
#[verifier::external_body]
fn join_object(members: &Vec<Member>) -> (joined: Result<String, serde_json::Error>)
    ensures
        match joined {
            Ok(text) => object_text(members@.map_values(|m: Member| m@)) == Some(text@),
            Err(_) => object_text(members@.map_values(|m: Member| m@)) is None,
        },
{
    let object = members.iter().map(
        |m| Ok((m.name.as_str(), RawValue::from_string(m.value.clone())?)),
    ).collect::<Result<BTreeMap<&str, Box<RawValue>>, serde_json::Error>>()?;
    serde_json::to_string(&object)
}

/// The entry that a member of the stored object stands for: its name is the
/// key in hexadecimal digits, its value the record of the event.
pub open spec fn entry_of_member(member: MemberView) -> Option<EntryView> {
    match (event_id_of_hex(member.name), event_of_json(member.value)) {
        (Some(key), Some(event)) => Some(EntryView { key, event }),
        _ => None,
    }
}

/// The entries that the members of a stored object stand for, each put in
/// turn. `None` where a member stands for no entry.
pub open spec fn entries_of_members(members: Seq<MemberView>) -> Option<Seq<EntryView>>
    decreases members.len(),
{
    if members.len() == 0 {
        Some(Seq::empty())
    } else {
        match (entries_of_members(members.drop_last()), entry_of_member(members.last())) {
            (Some(entries), Some(entry)) => Some(inserted(entries, entry.key, entry.event)),
            _ => None,
        }
    }
}

/// The entries of the cache that `content` stores. `None` where `content` is
/// not a JSON object, a name is not an identifier or a value is not the
/// record of an event.
pub open spec fn entries_of_json(content: Seq<char>) -> Option<Seq<EntryView>> {
    match object_members(content) {
        Some(members) => entries_of_members(members),
        None => None,
    }
}

/// The member that stands for an entry.
pub open spec fn member_of_entry(entry: EntryView) -> MemberView {
    MemberView { name: hex_encoded(entry.key), value: entry.event.json }
}

/// The text that stores `entries`. `None` where the record of an event is
/// not JSON text.
pub open spec fn json_of_entries(entries: Seq<EntryView>) -> Option<Seq<char>> {
    object_text(entries.map_values(|e: EntryView| member_of_entry(e)))
}

/// One member that stands for no entry spoils the whole object.
pub proof fn lemma_bad_member(members: Seq<MemberView>, i: int)
    requires
        0 <= i < members.len(),
        entry_of_member(members[i]) is None,
    ensures
        entries_of_members(members) is None,
    decreases members.len(),
{
    if i < members.len() - 1 {
        let rest = members.drop_last();
        assert(rest[i] == members[i]);
        lemma_bad_member(rest, i);
    }
}

/// The members that stand for entries, read back, are those entries: where
/// no key occurs twice, every key is the 32 bytes of an identifier, and the
/// record of every event reads as that event.
pub proof fn lemma_members_read_back(entries: Seq<EntryView>)
    requires
        distinct_keys(entries),
        forall|i: int| 0 <= i < entries.len() ==> (#[trigger] entries[i]).key.len() == 32,
        forall|i: int|
            0 <= i < entries.len() ==> event_of_json((#[trigger] entries[i]).event.json) == Some(
                entries[i].event,
            ),
    ensures
        entries_of_members(entries.map_values(|e: EntryView| member_of_entry(e))) == Some(entries),
    decreases entries.len(),
{
    let members = entries.map_values(|e: EntryView| member_of_entry(e));
    if entries.len() > 0 {
        let rest = entries.drop_last();
        let last = entries.last();
        assert(members.drop_last() =~= rest.map_values(|e: EntryView| member_of_entry(e)));
        assert(members.last() == member_of_entry(last));
        assert forall|i: int, j: int| 0 <= i < j < rest.len() implies (#[trigger] rest[i]).key != (
        #[trigger] rest[j]).key by {
            assert(rest[i] == entries[i]);
            assert(rest[j] == entries[j]);
        }
        assert forall|i: int| 0 <= i < rest.len() implies (#[trigger] rest[i]).key.len() == 32
            && event_of_json(rest[i].event.json) == Some(rest[i].event) by {
            assert(rest[i] == entries[i]);
        }
        lemma_members_read_back(rest);
        crate::hex::lemma_hex_round_trip(last.key);
        assert(hex_encoded(last.key).len() == 64);
        assert(entry_of_member(member_of_entry(last)) == Some(last));
        assert(!has_key(rest, last.key)) by {
            if has_key(rest, last.key) {
                let i = position(rest, last.key);
                assert(rest[i] == entries[i]);
                assert(entries[i].key != entries[entries.len() - 1].key);
            }
        }
        assert(inserted(rest, last.key, last.event) =~= entries);
    } else {
        assert(entries =~= Seq::<EntryView>::empty());
    }
}

impl EventCache {
    /// Reads a cache from the text that stores it: a JSON object with, for
    /// each entry, the key in hexadecimal digits as the name and the record
    /// of the event as the value. Fails with `CacheCorrupt` where the text is
    /// no such object.
    pub fn from_json(content: &str) -> (read: Result<EventCache, ErrorKind>)
        ensures
            match read {
                Ok(cache) => entries_of_json(content@) == Some(cache.entries()),
                Err(kind) => kind == ErrorKind::CacheCorrupt && entries_of_json(content@) is None,
            },
    {
        let members = match split_object(content) {
            Ok(members) => members,
            Err(_) => {
                return Err(ErrorKind::CacheCorrupt);
            },
        };
        let ghost all = members@.map_values(|m: Member| m@);
        let mut cache = EventCache::new();
        let mut i: usize = 0;
        proof {
            assert(all.take(0) =~= Seq::<MemberView>::empty());
        }
        while i < members.len()
            invariant
                i <= members.len(),
                all == members@.map_values(|m: Member| m@),
                object_members(content@) == Some(all),
                entries_of_members(all.take(i as int)) == Some(cache.entries()),
            decreases members.len() - i,
        {
            let key = EventId::from_hex(members[i].name.as_str());
            let event = Event::from_json(members[i].value.as_str());
            proof {
                assert(all[i as int] == members@[i as int]@);
                assert(all.take(i + 1).drop_last() =~= all.take(i as int));
                assert(all.take(i + 1).last() == all[i as int]);
            }
            match (key, event) {
                (Some(key), Some(event)) => {
                    cache.insert(key, event);
                },
                _ => {
                    proof {
                        lemma_bad_member(all, i as int);
                    }
                    return Err(ErrorKind::CacheCorrupt);
                },
            }
            i += 1;
        }
        proof {
            assert(all.take(members.len() as int) =~= all);
        }
        Ok(cache)
    }

    /// Writes the cache as the text that stores it. Fails with
    /// `CachePersistFailure` where it cannot be written.
    pub fn to_json(&self) -> (written: Result<String, ErrorKind>)
        ensures
            match written {
                Ok(text) => json_of_entries(self.entries()) == Some(text@),
                Err(kind) => kind == ErrorKind::CachePersistFailure && json_of_entries(
                    self.entries(),
                ) is None,
            },
    {
        let mut members: Vec<Member> = Vec::new();
        let mut i: usize = 0;
        while i < self.entries.len()
            invariant
                i <= self.entries.len(),
                members@.len() == i,
                members@.map_values(|m: Member| m@) == self.entries().take(i as int).map_values(
                    |e: EntryView| member_of_entry(e),
                ),
            decreases self.entries.len() - i,
        {
            let entry = &self.entries[i];
            let ghost before = members@.map_values(|m: Member| m@);
            members.push(Member { name: entry.key.to_hex(), value: entry.event.json.clone() });
            proof {
                let after = members@.map_values(|m: Member| m@);
                let wanted = self.entries().take(i + 1).map_values(
                    |e: EntryView| member_of_entry(e),
                );
                assert(self.entries()[i as int] == entry@);
                assert forall|j: int| 0 <= j < i + 1 implies after[j] == wanted[j] by {
                    if j < i {
                        assert(after[j] == before[j]);
                        assert(self.entries().take(i as int)[j] == self.entries().take(i + 1)[j]);
                    }
                }
                assert(after =~= wanted);
            }
            i += 1;
        }
        proof {
            assert(self.entries().take(self.entries.len() as int) =~= self.entries());
        }
        match join_object(&members) {
            Ok(text) => Ok(text),
            Err(_) => Err(ErrorKind::CachePersistFailure),
        }
    }
}

/// Loads the cache from what storage holds: the empty cache where nothing is
/// stored, else the cache that the stored text is. Fails with `CacheCorrupt`
/// where the stored text is no cache.
pub fn load(stored: Option<&str>) -> (loaded: Result<EventCache, ErrorKind>)
    ensures
        match stored {
            None => loaded is Ok && loaded->Ok_0.entries() == Seq::<EntryView>::empty(),
            Some(content) => match loaded {
                Ok(cache) => entries_of_json(content@) == Some(cache.entries()),
                Err(kind) => kind == ErrorKind::CacheCorrupt && entries_of_json(content@) is None,
            },
        },
{
    match stored {
        None => Ok(EventCache::new()),
        Some(content) => EventCache::from_json(content),
    }
}

/// The text to put into storage for `cache`, all of it at once. Fails with
/// `CachePersistFailure` where the cache cannot be written.
pub fn store(cache: &EventCache) -> (content: Result<String, ErrorKind>)
    ensures
        match content {
            Ok(text) => json_of_entries(cache.entries()) == Some(text@),
            Err(kind) => kind == ErrorKind::CachePersistFailure && json_of_entries(
                cache.entries(),
            ) is None,
        },
{
    cache.to_json()
}

} // verus!
