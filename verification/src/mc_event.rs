// Events of the registry
//  McEvent, McEventList, McEventListIterator

use vstd::prelude::*;
use vstd::relations::sorted_by;

use crate::mc_text::McIdentifier;
use crate::registry::{Registry, RegistryError};
use crate::sorting::{lemma_stable_filter, sort_by_le};
use crate::strings::{
    dec, lemma_lex_le_total, lemma_lex_ord_antisym, lemma_lex_le_trans, lex_le, push_char, push_dec, push_str,
    str_compare, str_eq, str_to_string,
};

verus! {

//----------------------------------------------------------------------------------------------
// McEvent

/// An event which may trigger consistent data acquisition
/// Events have a unique id number. The name is not unique: several thread instances of a task
/// may create events with the same name, told apart by index > 0
#[derive(Debug, Clone, Copy)]
pub struct McEvent {
    pub name: McIdentifier,  // Name of the event, not unique
    pub index: u16,  // Instance index 1..n, 0 if single instance
    pub id: u16,  // Unique event id number used in A2L and the XCP protocol
    pub target_cycle_time_ns: u32,  // 0 -> sporadic event
}

/// "name_index"
pub open spec fn indexed_name(name: Seq<char>, index: u16) -> Seq<char> {
    name + seq!['_'] + dec(index as nat)
}

/// The full name of an event, optionally prefixed by the application name
pub open spec fn event_unique_name(e: McEvent, prefix_names: bool, app_name: Seq<char>) -> Seq<char> {
    if e.index > 0 {
        if prefix_names {
            app_name + seq!['.'] + indexed_name(e.name@, e.index)
        } else {
            indexed_name(e.name@, e.index)
        }
    } else {
        if prefix_names {
            indexed_name(e.name@, e.index)
        } else {
            e.name@
        }
    }
}

impl McEvent {
    /// Create a new event with name, instance index, id and cycle time in ns
    pub fn new(name: McIdentifier, index: u16, id: u16, target_cycle_time_ns: u32) -> (e: McEvent)
        ensures
            e == (McEvent { name, index, id, target_cycle_time_ns }),
    {
        McEvent { name, index, id, target_cycle_time_ns }
    }

    /// Get the event name
    pub fn get_name(&self) -> (s: &'static str)
        ensures
            s@ == self.name@,
    {
        self.name.as_str()
    }

    /// Get the full indexed name of the event
    pub fn get_unique_name(&self, registry: &Registry) -> (s: String)
        ensures
            s@ == event_unique_name(*self, registry.prefix_names, registry.app_name()),
    {
        let mut s = String::new();
        if self.index > 0 && registry.prefix_names {
            push_str(&mut s, registry.get_app_name());
            push_char(&mut s, '.');
        }
        push_str(&mut s, self.name.as_str());
        if self.index > 0 || registry.prefix_names {
            push_char(&mut s, '_');
            push_dec(&mut s, self.index as u64);
        }
        s
    }
}

//----------------------------------------------------------------------------------------------
// McEventList

/// List of events
#[derive(Debug)]
pub struct McEventList(Vec<McEvent>);

impl View for McEventList {
    type V = Seq<McEvent>;

    closed spec fn view(&self) -> Seq<McEvent> {
        self.0@
    }
}

/// No two events share an id, no two share name and index
pub open spec fn events_unique(s: Seq<McEvent>) -> bool {
    &&& forall|i: int, j: int| 0 <= i < j < s.len() ==> (#[trigger] s[i]).id != (#[trigger] s[j]).id
    &&& forall|i: int, j: int|
        0 <= i < j < s.len() ==> !((#[trigger] s[i]).name@ == (#[trigger] s[j]).name@ && s[i].index
            == s[j].index)
}

/// Position of the first event with this name and index
pub open spec fn is_first_named(s: Seq<McEvent>, i: int, name: Seq<char>, index: u16) -> bool {
    &&& 0 <= i < s.len()
    &&& s[i].name@ == name && s[i].index == index
    &&& forall|j: int| 0 <= j < i ==> !((#[trigger] s[j]).name@ == name && s[j].index == index)
}

/// No event has this name and index
pub open spec fn no_event_named(s: Seq<McEvent>, name: Seq<char>, index: u16) -> bool {
    forall|j: int| 0 <= j < s.len() ==> !((#[trigger] s[j]).name@ == name && s[j].index == index)
}

/// Position of the first event with this id
pub open spec fn is_first_with_id(s: Seq<McEvent>, i: int, id: u16) -> bool {
    &&& 0 <= i < s.len()
    &&& s[i].id == id
    &&& forall|j: int| 0 <= j < i ==> (#[trigger] s[j]).id != id
}

/// No event has this id
pub open spec fn no_event_with_id(s: Seq<McEvent>, id: u16) -> bool {
    forall|j: int| 0 <= j < s.len() ==> (#[trigger] s[j]).id != id
}

/// Events ordered by name
pub open spec fn event_name_le(a: McEvent, b: McEvent) -> bool {
    lex_le(a.name@, b.name@)
}

/// Events ordered by id
pub open spec fn event_id_le(a: McEvent, b: McEvent) -> bool {
    a.id <= b.id
}

/// The events of a name, in list order
pub open spec fn events_named(s: Seq<McEvent>, n: Seq<char>) -> Seq<McEvent> {
    s.filter(|y: McEvent| y.name@ == n)
}

/// The events of an id, in list order
pub open spec fn events_with_id(s: Seq<McEvent>, id: u16) -> Seq<McEvent> {
    s.filter(|y: McEvent| y.id == id)
}

impl McEventList {
    pub fn new() -> (l: Self)
        ensures
            l@.len() == 0,
    {
        McEventList(Vec::with_capacity(100))
    }

    /// Add an event
    /// Err(Duplicate) if an event with the same name and index, or with the same id exists
    pub fn add_event(&mut self, event: McEvent) -> (r: Result<(), RegistryError>)
        ensures
            r is Ok <==> (no_event_named(old(self)@, event.name@, event.index) && no_event_with_id(
                old(self)@,
                event.id,
            )),
            r is Ok ==> final(self)@ == old(self)@.push(event),
            r matches Err(e) ==> final(self)@ == old(self)@ && (e matches RegistryError::Duplicate(
                s,
            ) && s@ == event.name@),
            events_unique(old(self)@) ==> events_unique(final(self)@),
    {
        if self.find_event(event.name.as_str(), event.index).is_some() {
            return Err(RegistryError::Duplicate(str_to_string(event.name.as_str())));
        }
        if self.find_event_id(event.id).is_some() {
            return Err(RegistryError::Duplicate(str_to_string(event.name.as_str())));
        }
        self.push(event);
        Ok(())
    }

    pub fn len(&self) -> (n: usize)
        ensures
            n == self@.len(),
    {
        self.0.len()
    }

    pub fn is_empty(&self) -> (b: bool)
        ensures
            b == (self@.len() == 0),
    {
        self.0.len() == 0
    }

    pub fn push(&mut self, object: McEvent)
        ensures
            final(self)@ == old(self)@.push(object),
    {
        self.0.push(object);
    }

    pub fn get(&self, i: usize) -> (e: &McEvent)
        requires
            i < self@.len(),
        ensures
            *e == self@[i as int],
    {
        &self.0[i]
    }

    /// Sort by name, events with the same name keep their order
    pub fn sort_by_name(&mut self)
        ensures
            final(self)@.to_multiset() == old(self)@.to_multiset(),
            sorted_by(final(self)@, |a: McEvent, b: McEvent| event_name_le(a, b)),
            forall|n: Seq<char>| #[trigger] events_named(final(self)@, n) == events_named(old(self)@, n),
    {
        let le = |a: &McEvent, b: &McEvent| -> (r: bool)
            ensures
                r == event_name_le(*a, *b),
            { str_compare(a.name.as_str(), b.name.as_str()) <= 0 };
        let ghost rel = |a: McEvent, b: McEvent| event_name_le(a, b);
        proof {
            assert forall|x: McEvent, y: McEvent, z: McEvent|
                #[trigger] rel(x, y) && #[trigger] rel(y, z) implies rel(x, z) by {
                lemma_lex_le_trans(x.name@, y.name@, z.name@);
            }
            assert forall|x: McEvent, y: McEvent| #[trigger] rel(x, y) || #[trigger] rel(y, x) by {
                lemma_lex_le_total(x.name@, y.name@);
            }
        }
        sort_by_le(&mut self.0, &le, Ghost(rel));
        proof {
            assert forall|n: Seq<char>| #[trigger] events_named(self@, n) == events_named(old(self)@, n) by {
                let pred = |y: McEvent| y.name@ == n;
                assert forall|a: McEvent, b: McEvent| #[trigger] pred(a) && #[trigger] pred(b) implies rel(a, b) && rel(b, a) by {
                    lemma_lex_ord_antisym(a.name@, b.name@);
                }
                assert forall|a: McEvent, b: McEvent| pred(a) && #[trigger] rel(a, b) && #[trigger] rel(b, a) implies pred(b) by {
                    lemma_lex_ord_antisym(a.name@, b.name@);
                }
                lemma_stable_filter(old(self)@, self@, rel, pred);
            }
        }
    }

    /// Sort by id
    pub fn sort_by_id(&mut self)
        ensures
            final(self)@.to_multiset() == old(self)@.to_multiset(),
            sorted_by(final(self)@, |a: McEvent, b: McEvent| event_id_le(a, b)),
            forall|id: u16| #[trigger] events_with_id(final(self)@, id) == events_with_id(old(self)@, id),
    {
        let le = |a: &McEvent, b: &McEvent| -> (r: bool)
            ensures
                r == event_id_le(*a, *b),
            { a.id <= b.id };
        let ghost rel = |a: McEvent, b: McEvent| event_id_le(a, b);
        sort_by_le(&mut self.0, &le, Ghost(rel));
        proof {
            assert forall|id: u16| #[trigger] events_with_id(self@, id) == events_with_id(old(self)@, id) by {
                let pred = |y: McEvent| y.id == id;
                assert forall|a: McEvent, b: McEvent| #[trigger] pred(a) && #[trigger] pred(b) implies rel(a, b) && rel(b, a) by {
                    
                }
                assert forall|a: McEvent, b: McEvent| pred(a) && #[trigger] rel(a, b) && #[trigger] rel(b, a) implies pred(b) by {
                    
                }
                lemma_stable_filter(old(self)@, self@, rel, pred);
            }
        }
    }

    /// Find an event by name and index
    pub fn find_event(&self, name: &str, index: u16) -> (r: Option<&McEvent>)
        ensures
            match r {
                Some(e) => exists|i: int| is_first_named(self@, i, name@, index) && *e == self@[i],
                None => no_event_named(self@, name@, index),
            },
    {
        let mut i: usize = 0;
        while i < self.0.len()
            invariant
                i <= self@.len(),
                forall|j: int|
                    0 <= j < i ==> !((#[trigger] self@[j]).name@ == name@ && self@[j].index == index),
            decreases self@.len() - i,
        {
            let e = &self.0[i];
            if e.index == index && str_eq(e.name.as_str(), name) {
                assert(is_first_named(self@, i as int, name@, index));
                return Some(e);
            }
            i += 1;
        }
        None
    }

    /// Find an event by id
    pub fn find_event_id(&self, id: u16) -> (r: Option<&McEvent>)
        ensures
            match r {
                Some(e) => exists|i: int| is_first_with_id(self@, i, id) && *e == self@[i],
                None => no_event_with_id(self@, id),
            },
    {
        let mut i: usize = 0;
        while i < self.0.len()
            invariant
                i <= self@.len(),
                forall|j: int| 0 <= j < i ==> (#[trigger] self@[j]).id != id,
            decreases self@.len() - i,
        {
            let e = &self.0[i];
            if e.id == id {
                assert(is_first_with_id(self@, i as int, id));
                return Some(e);
            }
            i += 1;
        }
        None
    }
}

/// An event that was added can be found by its id, and by its name and index
pub proof fn lemma_added_event_is_found(before: Seq<McEvent>, event: McEvent)
    requires
        no_event_named(before, event.name@, event.index),
        no_event_with_id(before, event.id),
    ensures
        is_first_with_id(before.push(event), before.len() as int, event.id),
        is_first_named(before.push(event), before.len() as int, event.name@, event.index),
{
    let after = before.push(event);
    assert forall|j: int| 0 <= j < before.len() implies (#[trigger] after[j]).id != event.id by {
        assert(after[j] == before[j]);
    }
    assert forall|j: int| 0 <= j < before.len() implies !((#[trigger] after[j]).name@ == event.name@
        && after[j].index == event.index) by {
        assert(after[j] == before[j]);
    }
}

//-------------------------------------------------------------------------------------------------
// McEventListIterator

/// Iterator for McEventList
pub struct McEventListIterator<'a> {
    index: usize,
    list: &'a McEventList,
}

impl<'a> McEventListIterator<'a> {
    pub fn new(list: &'a McEventList) -> (it: McEventListIterator<'a>)
        ensures
            it.position() == 0,
            it.list() == list,
    {
        McEventListIterator { index: 0, list }
    }

    pub closed spec fn position(&self) -> int {
        self.index as int
    }

    pub closed spec fn list(&self) -> &'a McEventList {
        self.list
    }

    /// The next event of the list, None at the end
    pub fn next(&mut self) -> (r: Option<&'a McEvent>)
        ensures
            final(self).list() == old(self).list(),
            old(self).position() < old(self).list()@.len() ==> r == Some(
                &old(self).list()@[old(self).position()],
            ) && final(self).position() == old(self).position() + 1,
            old(self).position() >= old(self).list()@.len() ==> r is None && final(self).position()
                == old(self).position(),
    {
        let index = self.index;
        if index < self.list.0.len() {
            self.index += 1;
            Some(&self.list.0[index])
        } else {
            None
        }
    }
}

} // verus!
