// XCP events, event list, transport layer, calibration pages and the decisions of the XCP server
// callbacks

use vstd::prelude::*;
use vstd::relations::sorted_by;

use crate::mc_event::{McEvent, McEventList, events_unique, no_event_named, no_event_with_id};
use crate::mc_text::{is_identifier, McIdentifier};
use crate::sorting::{lemma_stable_filter, sort_by_le};
use crate::strings::{
    lemma_lex_ord_antisym, lemma_lex_ord_range, lemma_lex_le_total, lemma_lex_le_trans, lex_le,
    str_compare, str_eq,
};

verus! {

//----------------------------------------------------------------------------------------------
// XCP errors

/// Error of the XCP server
#[derive(Debug)]
pub enum XcpError {
    /// Error of the XCP library
    XcpLib(&'static str),
    /// Unknown error
    Unknown,
}

/// Error of the XCP client interface
#[derive(Debug)]
pub enum XcpClientError {
    /// Error of the XCP library
    XcpLib(&'static str),
    /// Unknown error
    Unknown,
}

//----------------------------------------------------------------------------------------------
// XcpEvent

/// Maximum number of events
pub const XCP_MAX_EVENTS: u16 = 1024;

/// Maximum number of thread local event instances
pub const XCP_MAX_EVENT_INSTS: u16 = 255;

/// Undefined event id number
pub const XCP_UNDEFINED_EVENT_ID: u16 = 0xFFFF;

/// Relative addressing mode of the XCP server (event in the high word)
pub const XCP_ADDR_EXT_DYN: u8 = 2;

/// Segment relative addressing mode of the XCP server (index | 0x8000 in the high word)
pub const XCP_ADDR_EXT_APP: u8 = 0;

/// Absolute addressing mode of the XCP server
pub const XCP_ADDR_EXT_ABS: u8 = 1;

/// A measurement event: the event id used in the XCP protocol and in A2L IF_DATA, and an instance
/// index > 0 when several events of the same name exist in different thread local instances
#[derive(Debug, Clone, Copy)]
pub struct XcpEvent {
    id: u16,
    index: u16,
}

impl View for XcpEvent {
    type V = (u16, u16);

    closed spec fn view(&self) -> (u16, u16) {
        (self.id, self.index)
    }
}

/// Channel of an event id: its position after the events were sorted, when they were
pub open spec fn channel_of(id: u16, event_map: Option<Seq<u16>>) -> u16 {
    match event_map {
        Some(m) => m[id as int],
        None => id,
    }
}

impl XcpEvent {
    /// Create a new XCP event
    pub fn new(id: u16, index: u16) -> (e: XcpEvent)
        requires
            id < XCP_MAX_EVENTS,
        ensures
            e@ == (id, index),
    {
        XcpEvent { id, index }
    }

    /// The event that is not defined
    pub fn undefined() -> (e: XcpEvent)
        ensures
            e@ == (XCP_UNDEFINED_EVENT_ID, 0u16),
    {
        XcpEvent { id: XCP_UNDEFINED_EVENT_ID, index: 0 }
    }

    /// The event id
    pub fn get_id(self) -> (id: u16)
        ensures
            id == self@.0,
    {
        self.id
    }

    /// The event instance index, 0 if single instance
    pub fn get_index(self) -> (i: u16)
        ensures
            i == self@.1,
    {
        self.index
    }

    /// Events are the same when their ids are
    pub fn same_event(self, other: XcpEvent) -> (b: bool)
        ensures
            b == (self@.0 == other@.0),
    {
        self.id == other.id
    }

    /// The event channel number: the id, remapped by the event map of the registered event list
    pub fn get_channel(self, event_map: Option<&Vec<u16>>) -> (c: u16)
        requires
            event_map matches Some(m) ==> self@.0 < m@.len(),
        ensures
            c == channel_of(
                self@.0,
                match event_map {
                    Some(m) => Some(m@),
                    None => None,
                },
            ),
    {
        match event_map {
            Some(m) => m[self.id as usize],
            None => self.id,
        }
    }

    /// The event name
    pub fn get_name(self, event_list: &EventList) -> (r: Option<&'static str>)
        ensures
            match r {
                Some(n) => exists|i: int|
                    0 <= i < event_list@.len() && event_list@[i].event@.0 == self@.0 && n@
                        == event_list@[i].name@,
                None => forall|i: int|
                    0 <= i < event_list@.len() ==> (#[trigger] event_list@[i]).event@.0 != self@.0,
            },
    {
        event_list.get_name(self)
    }

    /// Address extension and address of an event relative object at an offset:
    /// channel in the high word, offset in the low word
    pub fn get_dyn_ext_addr(self, offset: i16, event_map: Option<&Vec<u16>>) -> (r: (u8, u32))
        requires
            event_map matches Some(m) ==> self@.0 < m@.len(),
        ensures
            r == (
                XCP_ADDR_EXT_DYN,
                crate::mc_address::dyn_addr(
                    channel_of(
                        self@.0,
                        match event_map {
                            Some(m) => Some(m@),
                            None => None,
                        },
                    ),
                    offset,
                ),
            ),
    {
        let channel = self.get_channel(event_map);
        let lo: u32 = if offset < 0 {
            (offset as i32 + 0x10000) as u32
        } else {
            offset as u32
        };
        (XCP_ADDR_EXT_DYN, (channel as u32) * 0x10000 + lo)
    }
}

//----------------------------------------------------------------------------------------------
// EventList

/// Name and event of an entry of the event list
#[derive(Clone, Copy)]
pub struct XcpEventInfo {
    pub name: &'static str,
    pub event: XcpEvent,
}

/// The events created by the application, in creation order until they are registered
pub struct EventList(Vec<XcpEventInfo>);

impl View for EventList {
    type V = Seq<XcpEventInfo>;

    closed spec fn view(&self) -> Seq<XcpEventInfo> {
        self.0@
    }
}

/// The ids of the events are 0..n-1, each once, all below XCP_MAX_EVENTS
pub open spec fn event_ids_dense(s: Seq<XcpEventInfo>) -> bool {
    &&& s.len() <= XCP_MAX_EVENTS
    &&& forall|i: int| 0 <= i < s.len() ==> (#[trigger] s[i]).event@.0 < s.len()
    &&& forall|i: int, j: int| 0 <= i < j < s.len() ==> (#[trigger] s[i]).event@.0 != (#[trigger] s[j]).event@.0
}

/// Number of events with this name and an instance index > 0
pub open spec fn indexed_count(s: Seq<XcpEventInfo>, name: Seq<char>) -> nat
    decreases s.len(),
{
    if s.len() == 0 {
        0
    } else {
        indexed_count(s.drop_last(), name) + if s.last().name@ == name && s.last().event@.1 > 0 {
            1nat
        } else {
            0nat
        }
    }
}

/// An event with this name exists
pub open spec fn has_event_named(s: Seq<XcpEventInfo>, name: Seq<char>) -> bool {
    exists|i: int| 0 <= i < s.len() && (#[trigger] s[i]).name@ == name
}

/// Events ordered by name, events with the same name by instance index
pub open spec fn event_info_le(a: XcpEventInfo, b: XcpEventInfo) -> bool {
    if a.name@ == b.name@ {
        a.event@.1 <= b.event@.1
    } else {
        lex_le(a.name@, b.name@)
    }
}

fn info_le(a: &XcpEventInfo, b: &XcpEventInfo) -> (r: bool)
    ensures
        r == event_info_le(*a, *b),
{
    let c = str_compare(a.name, b.name);
    proof {
        lemma_lex_ord_antisym(a.name@, b.name@);
    }
    if c == 0 {
        a.event.index <= b.event.index
    } else {
        c < 0
    }
}

/// The effect of creating an event of a name: the next id, and the next instance index of
/// the name where indexed; the undefined event and no change where the maximum number of events
/// or instances is reached or a non indexed name exists
pub open spec fn event_created(
    before: Seq<XcpEventInfo>,
    after: Seq<XcpEventInfo>,
    name: &'static str,
    indexed: bool,
    e: XcpEvent,
) -> bool {
    let n = before.len();
    let index: int = if indexed {
        (indexed_count(before, name@) + 1) as int
    } else {
        0
    };
    let ok = n < XCP_MAX_EVENTS && (indexed || !has_event_named(before, name@)) && index
        <= XCP_MAX_EVENT_INSTS;
    &&& ok ==> e@ == (n as u16, index as u16) && after == before.push(XcpEventInfo { name, event: e })
    &&& !ok ==> e@ == (XCP_UNDEFINED_EVENT_ID, 0u16) && after == before
}

/// The entries of a name and instance index, in list order
pub open spec fn event_infos_named(s: Seq<XcpEventInfo>, n: Seq<char>, index: u16) -> Seq<XcpEventInfo> {
    s.filter(|y: XcpEventInfo| y.name@ == n && y.event@.1 == index)
}

impl EventList {
    pub fn new() -> (l: EventList)
        ensures
            l@.len() == 0,
    {
        EventList(Vec::new())
    }

    pub fn clear(&mut self)
        ensures
            final(self)@.len() == 0,
    {
        self.0.clear();
    }

    pub fn len(&self) -> (n: usize)
        ensures
            n == self@.len(),
    {
        self.0.len()
    }

    /// The entries in creation order
    pub fn iter(&self) -> (r: &[XcpEventInfo])
        ensures
            r@ == self@,
    {
        self.0.as_slice()
    }

    /// Name of the first entry with the event's id
    pub fn get_name(&self, event: XcpEvent) -> (r: Option<&'static str>)
        ensures
            match r {
                Some(n) => exists|i: int|
                    0 <= i < self@.len() && self@[i].event@.0 == event@.0 && n@ == self@[i].name@,
                None => forall|i: int| 0 <= i < self@.len() ==> (#[trigger] self@[i]).event@.0 != event@.0,
            },
    {
        let mut i: usize = 0;
        while i < self.0.len()
            invariant
                i <= self@.len(),
                forall|j: int| 0 <= j < i ==> (#[trigger] self@[j]).event@.0 != event@.0,
            decreases self@.len() - i,
        {
            if self.0[i].event.id == event.id {
                return Some(self.0[i].name);
            }
            i += 1;
        }
        None
    }

    /// Sort by name and then by instance index
    pub fn sort_by_name_and_index(&mut self)
        ensures
            final(self)@.to_multiset() == old(self)@.to_multiset(),
            sorted_by(
                final(self)@,
                |a: XcpEventInfo, b: XcpEventInfo| event_info_le(a, b),
            ),
            forall|n: Seq<char>, index: u16| #[trigger] event_infos_named(final(self)@, n, index) == event_infos_named(old(self)@, n, index),
    {
        let le = |a: &XcpEventInfo, b: &XcpEventInfo| -> (r: bool)
            ensures
                r == event_info_le(*a, *b),
            { info_le(a, b) };
        let ghost rel = |a: XcpEventInfo, b: XcpEventInfo| event_info_le(a, b);
        proof {
            assert forall|x: XcpEventInfo, y: XcpEventInfo, z: XcpEventInfo|
                #[trigger] rel(x, y) && #[trigger] rel(y, z) implies rel(x, z) by {
                lemma_lex_ord_antisym(x.name@, y.name@);
                lemma_lex_ord_antisym(y.name@, z.name@);
                lemma_lex_ord_antisym(x.name@, z.name@);
                lemma_lex_ord_antisym(x.name@, x.name@);
                lemma_lex_ord_antisym(y.name@, y.name@);
                lemma_lex_le_trans(x.name@, y.name@, z.name@);
                if x.name@ == z.name@ {
                    lemma_lex_ord_range(x.name@, y.name@);
                }
            }
            assert forall|x: XcpEventInfo, y: XcpEventInfo| #[trigger] rel(x, y) || #[trigger] rel(
                y,
                x,
            ) by {
                lemma_lex_le_total(x.name@, y.name@);
            }
        }
        sort_by_le(&mut self.0, &le, Ghost(rel));
        proof {
            assert forall|n: Seq<char>, index: u16| #[trigger] event_infos_named(self@, n, index) == event_infos_named(old(self)@, n, index) by {
                let pred = |y: XcpEventInfo| y.name@ == n && y.event@.1 == index;
                assert forall|a: XcpEventInfo, b: XcpEventInfo| #[trigger] pred(a) && #[trigger] pred(b) implies rel(a, b) && rel(b, a) by {
                    lemma_lex_ord_antisym(a.name@, b.name@);
                }
                assert forall|a: XcpEventInfo, b: XcpEventInfo| pred(a) && #[trigger] rel(a, b) && #[trigger] rel(b, a) implies pred(b) by {
                    lemma_lex_ord_antisym(a.name@, b.name@);
                }
                lemma_stable_filter(old(self)@, self@, rel, pred);
            }
        }
    }

    /// Create a new event with the next sequential id
    /// With indexed, the instance index is one more than the number of indexed events of that name,
    /// otherwise the name must be new and the index is 0
    /// The undefined event, and no change, when the maximum number of events or instances is
    /// reached or a non indexed name exists
    pub fn create_event_ext(&mut self, name: &'static str, indexed: bool) -> (e: XcpEvent)
        requires
            old(self)@.len() <= u16::MAX,
        ensures
            event_created(old(self)@, final(self)@, name, indexed, e),
            event_ids_dense(old(self)@) ==> event_ids_dense(final(self)@),
    {
        let n = self.0.len();
        if n >= XCP_MAX_EVENTS as usize {
            return XcpEvent::undefined();
        }
        let id = n as u16;
        let index: u16 = if indexed {
            let c = self.count_indexed(name);
            if c >= XCP_MAX_EVENT_INSTS as usize {
                return XcpEvent::undefined();
            }
            (c + 1) as u16
        } else {
            if self.has_name(name) {
                return XcpEvent::undefined();
            }
            0
        };
        let event = XcpEvent::new(id, index);
        let ghost before = self@;
        self.0.push(XcpEventInfo { name, event });
        proof {
            assert(self@ =~= before.push(XcpEventInfo { name, event }));
            if event_ids_dense(before) {
                assert forall|i: int, j: int| 0 <= i < j < self@.len() implies (#[trigger] self@[i]).event@.0
                    != (#[trigger] self@[j]).event@.0 by {
                    if j == before.len() {
                        assert(self@[i] == before[i]);
                    } else {
                        assert(self@[i] == before[i]);
                        assert(self@[j] == before[j]);
                    }
                }
                assert forall|i: int| 0 <= i < self@.len() implies (#[trigger] self@[i]).event@.0
                    < self@.len() by {
                    if i < before.len() {
                        assert(self@[i] == before[i]);
                    }
                }
            }
        }
        event
    }

    fn count_indexed(&self, name: &str) -> (c: usize)
        ensures
            c == indexed_count(self@, name@),
    {
        let mut c: usize = 0;
        let mut i: usize = 0;
        while i < self.0.len()
            invariant
                i <= self@.len(),
                c == indexed_count(self@.take(i as int), name@),
                c <= i,
            decreases self@.len() - i,
        {
            assert(self@.take(i + 1).drop_last() =~= self@.take(i as int));
            if self.0[i].event.index > 0 && str_eq(self.0[i].name, name) {
                c += 1;
            }
            i += 1;
        }
        assert(self@.take(self@.len() as int) =~= self@);
        c
    }

    fn has_name(&self, name: &str) -> (b: bool)
        ensures
            b == has_event_named(self@, name@),
    {
        let mut i: usize = 0;
        while i < self.0.len()
            invariant
                i <= self@.len(),
                forall|j: int| 0 <= j < i ==> (#[trigger] self@[j]).name@ != name@,
            decreases self@.len() - i,
        {
            if str_eq(self.0[i].name, name) {
                return true;
            }
            i += 1;
        }
        false
    }

    /// Register all events: sort them by name and instance index, add them to the registry events
    /// and return the event map, which maps the id of each event to its position in that order
    /// (event channel numbers that do not depend on the order of creation)
    /// Events the registry refuses are left out of it
    pub fn register(&mut self, registry_events: &mut McEventList) -> (event_map: Vec<u16>)
        requires
            event_ids_dense(old(self)@),
            forall|i: int| 0 <= i < old(self)@.len() ==> is_identifier((#[trigger] old(self)@[i]).name@),
        ensures
            final(self)@.to_multiset() == old(self)@.to_multiset(),
            sorted_by(
                final(self)@,
                |a: XcpEventInfo, b: XcpEventInfo| event_info_le(a, b),
            ),
            event_ids_dense(final(self)@),
            event_map@.len() == XCP_MAX_EVENTS,
            forall|i: int|
                0 <= i < final(self)@.len() ==> event_map@[(#[trigger] final(self)@[i]).event@.0 as int]
                    == i,
            final(registry_events)@.map_values(|e: McEvent| event_key(e)) == registered_events(
                old(registry_events)@.map_values(|e: McEvent| event_key(e)),
                final(self)@,
            ),
            events_unique(old(registry_events)@) ==> events_unique(final(registry_events)@),
    {
        self.sort_by_name_and_index();
        proof {
            lemma_dense_preserved(old(self)@, self@);
        }
        let mut event_map: Vec<u16> = vec![0u16; 1024];
        let mut i: usize = 0;
        while i < self.0.len()
            invariant
                i <= self@.len(),
                event_ids_dense(self@),
                event_map@.len() == XCP_MAX_EVENTS,
                forall|j: int| 0 <= j < i ==> event_map@[(#[trigger] self@[j]).event@.0 as int] == j,
                forall|j: int| 0 <= j < self@.len() ==> is_identifier((#[trigger] self@[j]).name@),
                registry_events@.map_values(|e: McEvent| event_key(e)) == registered_events(
                    old(registry_events)@.map_values(|e: McEvent| event_key(e)),
                    self@.take(i as int),
                ),
                events_unique(old(registry_events)@) ==> events_unique(registry_events@),
            decreases self@.len() - i,
        {
            let e = &self.0[i];
            let ghost before = event_map@;
            event_map.set(e.event.id as usize, i as u16);
            proof {
                assert forall|j: int| 0 <= j < i + 1 implies event_map@[(#[trigger] self@[j]).event@.0 as int]
                    == j by {
                    if j < i {
                        assert(self@[j].event@.0 != self@[i as int].event@.0);
                    }
                }
            }
            let ghost keys = registry_events@.map_values(|e: McEvent| event_key(e));
            let ghost before_events = registry_events@;
            let ev = McEvent::new(McIdentifier::new(e.name), e.event.index, e.event.id, 0);
            let _ = registry_events.add_event(ev);
            proof {
                let k = info_key(self@[i as int]);
                assert(event_key(ev) == k);
                assert(self@.take(i + 1).drop_last() =~= self@.take(i as int));
                assert(no_key_clash(keys, k) == (no_event_named(before_events, ev.name@, ev.index)
                    && no_event_with_id(before_events, ev.id))) by {
                    if no_key_clash(keys, k) {
                        assert forall|j: int| 0 <= j < before_events.len() implies !((#[trigger] before_events[j]).name@ == ev.name@ && before_events[j].index == ev.index) by {
                            assert(keys[j] == event_key(before_events[j]));
                        }
                        assert forall|j: int| 0 <= j < before_events.len() implies (#[trigger] before_events[j]).id != ev.id by {
                            assert(keys[j] == event_key(before_events[j]));
                        }
                    }
                    if no_event_named(before_events, ev.name@, ev.index) && no_event_with_id(before_events, ev.id) {
                        assert forall|j: int| 0 <= j < keys.len() implies !((#[trigger] keys[j]).0 == k.0 && keys[j].1 == k.1) && keys[j].2 != k.2 by {
                            assert(keys[j] == event_key(before_events[j]));
                        }
                    }
                }
                if no_key_clash(keys, k) {
                    assert(registry_events@.map_values(|e: McEvent| event_key(e)) =~= keys.push(k));
                }
            }
            i += 1;
        }
        assert(self@.take(i as int) =~= self@);
        event_map
    }
}

/// What the registry keeps of an event: name, instance index, id and cycle time
pub open spec fn event_key(e: McEvent) -> (Seq<char>, u16, u16, u32) {
    (e.name@, e.index, e.id, e.target_cycle_time_ns)
}

/// The registry event of an entry of the event list: its name, instance index and id, sporadic
pub open spec fn info_key(e: XcpEventInfo) -> (Seq<char>, u16, u16, u32) {
    (e.name@, e.event@.1, e.event@.0, 0u32)
}

/// No event of the list has the name and index, or the id, of k
pub open spec fn no_key_clash(s: Seq<(Seq<char>, u16, u16, u32)>, k: (Seq<char>, u16, u16, u32)) -> bool {
    forall|j: int| 0 <= j < s.len() ==> !((#[trigger] s[j]).0 == k.0 && s[j].1 == k.1) && s[j].2 != k.2
}

/// The registry events after adding the entries one by one, in order; an entry that clashes
/// with an event already there is left out
pub open spec fn registered_events(
    s: Seq<(Seq<char>, u16, u16, u32)>,
    infos: Seq<XcpEventInfo>,
) -> Seq<(Seq<char>, u16, u16, u32)>
    decreases infos.len(),
{
    if infos.len() == 0 {
        s
    } else {
        let before = registered_events(s, infos.drop_last());
        let k = info_key(infos.last());
        if no_key_clash(before, k) {
            before.push(k)
        } else {
            before
        }
    }
}

/// Sorting keeps the ids 0..n-1 each once
proof fn lemma_dense_preserved(a: Seq<XcpEventInfo>, b: Seq<XcpEventInfo>)
    requires
        event_ids_dense(a),
        a.to_multiset() == b.to_multiset(),
    ensures
        event_ids_dense(b),
        forall|j: int| 0 <= j < b.len() ==> a.contains(#[trigger] b[j]),
{
    broadcast use vstd::seq_lib::group_to_multiset_ensures;

    assert(a.len() == b.len()) by {
        vstd::seq_lib::to_multiset_len(a);
        vstd::seq_lib::to_multiset_len(b);
    }
    assert forall|j: int| 0 <= j < b.len() implies a.contains(#[trigger] b[j]) by {
        assert(b.contains(b[j]));
        assert(b.to_multiset().count(b[j]) > 0);
    }
    assert forall|j: int| 0 <= j < b.len() implies (#[trigger] b[j]).event@.0 < b.len() by {
        assert(a.contains(b[j]));
    }
    assert forall|i: int, j: int| 0 <= i < j < b.len() implies (#[trigger] b[i]).event@.0
        != (#[trigger] b[j]).event@.0 by {
        if b[i].event@.0 == b[j].event@.0 {
            assert(a.contains(b[i]));
            assert(a.contains(b[j]));
            let p = choose|p: int| 0 <= p < a.len() && a[p] == b[i];
            let q = choose|q: int| 0 <= q < a.len() && a[q] == b[j];
            assert(p == q);
            assert(b[i] == b[j]);
            // the same entry twice in b but once in a
            assert(b.to_multiset().count(b[i]) >= 2) by {
                lemma_count_two(b, i, j);
            }
            assert(a.to_multiset().count(a[p]) <= 1) by {
                lemma_count_unique_id(a, p);
            }
        }
    }
}

proof fn lemma_count_two<T>(s: Seq<T>, i: int, j: int)
    requires
        0 <= i < j < s.len(),
        s[i] == s[j],
    ensures
        s.to_multiset().count(s[i]) >= 2,
{
    broadcast use vstd::seq_lib::group_to_multiset_ensures;

    let r = s.remove(j);
    assert(r.to_multiset() == s.to_multiset().remove(s[j]));
    assert(r[i] == s[i]);
    assert(r.contains(s[i]));
    assert(r.to_multiset().count(s[i]) >= 1);
}

proof fn lemma_count_unique_id(a: Seq<XcpEventInfo>, p: int)
    requires
        event_ids_dense(a),
        0 <= p < a.len(),
    ensures
        a.to_multiset().count(a[p]) <= 1,
{
    broadcast use vstd::seq_lib::group_to_multiset_ensures;

    let r = a.remove(p);
    assert(r.to_multiset() == a.to_multiset().remove(a[p]));
    assert(!r.contains(a[p])) by {
        if r.contains(a[p]) {
            let k = choose|k: int| 0 <= k < r.len() && r[k] == a[p];
            if k < p {
                assert(r[k] == a[k]);
            } else {
                assert(r[k] == a[k + 1]);
            }
        }
    }
    assert(r.to_multiset().count(a[p]) == 0);
}

//------------------------------------------------------------------------------------------
// XcpCalPage

/// Calibration page: the mutable page ("RAM") or the constant default page ("FLASH")
#[derive(Debug, Clone, Copy, PartialEq, Eq, Structural)]
pub enum XcpCalPage {
    /// The mutable page
    Ram,
    /// The default page
    Flash,
}

/// Code of the RAM page
pub const XCP_CAL_PAGE_RAM: u8 = 0;

/// Code of the FLASH page
pub const XCP_CAL_PAGE_FLASH: u8 = 1;

impl XcpCalPage {
    /// Page from its code: 0 is RAM, anything else FLASH
    pub fn from_u8(item: u8) -> (p: XcpCalPage)
        ensures
            p == (if item == XCP_CAL_PAGE_RAM {
                XcpCalPage::Ram
            } else {
                XcpCalPage::Flash
            }),
    {
        if item == XCP_CAL_PAGE_RAM {
            XcpCalPage::Ram
        } else {
            XcpCalPage::Flash
        }
    }

    /// Code of the page
    pub fn as_u8(self) -> (c: u8)
        ensures
            c == (if self == XcpCalPage::Ram {
                XCP_CAL_PAGE_RAM
            } else {
                XCP_CAL_PAGE_FLASH
            }),
    {
        match self {
            XcpCalPage::Ram => XCP_CAL_PAGE_RAM,
            XcpCalPage::Flash => XCP_CAL_PAGE_FLASH,
        }
    }
}

//------------------------------------------------------------------------------------------
// Calibration page switching of the server callbacks

/// Command ok
pub const CRC_CMD_OK: u8 = 0;

/// Page switching mode not valid
pub const CRC_MODE_NOT_VALID: u8 = 0x27;

/// Access denied
pub const CRC_ACCESS_DENIED: u8 = 0x24;

/// The page the ECU reads
pub const CAL_PAGE_MODE_ECU: u8 = 0x01;

/// The page XCP reads and writes
pub const CAL_PAGE_MODE_XCP: u8 = 0x02;

/// Switch all segments at once
pub const CAL_PAGE_MODE_ALL: u8 = 0x80;

/// The active calibration pages of the ECU access and of the XCP access
pub struct CalPageState {
    pub ecu_page: XcpCalPage,
    pub xcp_page: XcpCalPage,
}

/// Whether a mode has a bit
pub open spec fn has_mode(mode: u8, bit: u8) -> bool {
    mode & bit != 0
}

impl CalPageState {
    /// Both pages on RAM
    pub fn new() -> (s: CalPageState)
        ensures
            s.ecu_page == XcpCalPage::Ram,
            s.xcp_page == XcpCalPage::Ram,
    {
        CalPageState { ecu_page: XcpCalPage::Ram, xcp_page: XcpCalPage::Ram }
    }

    /// Answer to GET_CAL_PAGE: the ECU page when the mode asks for it, else the XCP page when the
    /// mode asks for it, else 0xFF (the segment number is ignored)
    pub fn get_cal_page(&self, mode: u8) -> (page: u8)
        ensures
            has_mode(mode, CAL_PAGE_MODE_ECU) ==> page == (if self.ecu_page == XcpCalPage::Ram {
                XCP_CAL_PAGE_RAM
            } else {
                XCP_CAL_PAGE_FLASH
            }),
            !has_mode(mode, CAL_PAGE_MODE_ECU) && has_mode(mode, CAL_PAGE_MODE_XCP) ==> page == (
            if self.xcp_page == XcpCalPage::Ram {
                XCP_CAL_PAGE_RAM
            } else {
                XCP_CAL_PAGE_FLASH
            }),
            !has_mode(mode, CAL_PAGE_MODE_ECU) && !has_mode(mode, CAL_PAGE_MODE_XCP) ==> page
                == 0xFF,
    {
        if (mode & CAL_PAGE_MODE_ECU) != 0 {
            self.ecu_page.as_u8()
        } else if (mode & CAL_PAGE_MODE_XCP) != 0 {
            self.xcp_page.as_u8()
        } else {
            0xFF
        }
    }

    /// Answer to SET_CAL_PAGE: only switching all segments at once is supported; switches the ECU
    /// and/or XCP page as the mode asks
    pub fn set_cal_page(&mut self, page: u8, mode: u8) -> (r: u8)
        ensures
            !has_mode(mode, CAL_PAGE_MODE_ALL) ==> r == CRC_MODE_NOT_VALID && final(self).ecu_page
                == old(self).ecu_page && final(self).xcp_page == old(self).xcp_page,
            has_mode(mode, CAL_PAGE_MODE_ALL) ==> {
                let p = if page == XCP_CAL_PAGE_RAM {
                    XcpCalPage::Ram
                } else {
                    XcpCalPage::Flash
                };
                &&& r == CRC_CMD_OK
                &&& final(self).ecu_page == (if has_mode(mode, CAL_PAGE_MODE_ECU) {
                    p
                } else {
                    old(self).ecu_page
                })
                &&& final(self).xcp_page == (if has_mode(mode, CAL_PAGE_MODE_XCP) {
                    p
                } else {
                    old(self).xcp_page
                })
            },
    {
        if (mode & CAL_PAGE_MODE_ALL) == 0 {
            return CRC_MODE_NOT_VALID;
        }
        if (mode & CAL_PAGE_MODE_ECU) != 0 {
            self.ecu_page = XcpCalPage::from_u8(page);
        }
        if (mode & CAL_PAGE_MODE_XCP) != 0 {
            self.xcp_page = XcpCalPage::from_u8(page);
        }
        CRC_CMD_OK
    }
}

//------------------------------------------------------------------------------------------
// Calibration memory addresses of the server callbacks

/// Address of a calibration segment: (index + 1) | 0x8000 in the high word
pub open spec fn app_calseg_base(calseg_index: u16) -> u32 {
    if calseg_index < 0x7FFF {
        ((calseg_index + 1 + 0x8000) * 0x10000) as u32
    } else if calseg_index < 0xFFFF {
        ((calseg_index + 1) * 0x10000) as u32
    } else {
        0x8000_0000
    }
}

/// Address of a calibration segment: (index + 1) | 0x8000 in the high word, segment 0 is the EPK
pub fn get_calseg_ext_addr_base(calseg_index: u16) -> (r: (u8, u32))
    ensures
        r == (XCP_ADDR_EXT_APP, app_calseg_base(calseg_index)),
        r.0 == XCP_ADDR_EXT_APP,
        calseg_index < 0x7FFF ==> r.1 == (calseg_index + 1 + 0x8000) * 0x10000,
        0x7FFF <= calseg_index < 0xFFFF ==> r.1 == (calseg_index + 1) * 0x10000,
        calseg_index == 0xFFFF ==> r.1 == 0x8000_0000,
{
    let i1: u32 = (calseg_index as u32) + 1;
    let hi: u32 = i1 | 0x8000;
    assert(i1 <= 0x7FFF ==> (i1 | 0x8000u32) == i1 + 0x8000) by (bit_vector);
    assert(0x8000 <= i1 <= 0xFFFF ==> (i1 | 0x8000u32) == i1) by (bit_vector);
    assert(i1 == 0x10000 ==> (i1 | 0x8000u32) == 0x18000) by (bit_vector);
    assert(hi < 0x10000 || hi == 0x18000) by (bit_vector)
        requires
            hi == (i1 | 0x8000u32),
            i1 <= 0x10000,
    ;
    let addr: u32 = if hi < 0x10000 {
        hi * 0x10000
    } else {
        0x8000_0000
    };
    (XCP_ADDR_EXT_APP, addr)
}

/// Address of a calibration value at an offset in a calibration segment
pub fn get_calseg_ext_addr(calseg_index: u16, offset: u16) -> (r: (u8, u32))
    ensures
        r == (XCP_ADDR_EXT_APP, (app_calseg_base(calseg_index) + offset) as u32),
        app_calseg_base(calseg_index) + offset <= u32::MAX,
        calseg_index < 0x7FFF ==> r.1 == (calseg_index + 1 + 0x8000) * 0x10000 + offset,
{
    let (ext, addr) = get_calseg_ext_addr_base(calseg_index);
    (ext, addr + offset as u32)
}

/// Target of a calibration memory access
pub enum CalMemTarget {
    /// The EPK text at an offset
    Epk { offset: u16 },
    /// A calibration segment at an offset
    Segment { index: u16, offset: u16 },
}

/// Decode an address of an UPLOAD or DOWNLOAD command: index in the high word without bit 31
/// (0 for the EPK, index + 1 for a segment), offset in the low word; bit 31 must be set
pub fn decode_cal_addr(addr: u32) -> (t: CalMemTarget)
    requires
        addr >= 0x8000_0000,
    ensures
        ({
            let index = (addr / 0x10000) % 0x8000;
            let offset = addr % 0x10000;
            &&& index == 0 ==> t == (CalMemTarget::Epk { offset: offset as u16 })
            &&& index > 0 ==> t == (CalMemTarget::Segment {
                index: (index - 1) as u16,
                offset: offset as u16,
            })
        }),
{
    let index: u16 = ((addr / 0x10000) % 0x8000) as u16;
    let offset: u16 = (addr % 0x10000) as u16;
    if index == 0 {
        CalMemTarget::Epk { offset }
    } else {
        CalMemTarget::Segment { index: index - 1, offset }
    }
}

/// A read of len bytes at offset of the EPK text is within the text, and the text is short
pub fn epk_read_ok(epk_len: usize, offset: u16, len: u8) -> (b: bool)
    ensures
        b == (offset + len <= epk_len && epk_len <= 0xFF),
{
    (offset as usize) + (len as usize) <= epk_len && epk_len <= 0xFF
}

/// An address of a segment value decodes to that segment and offset
pub proof fn lemma_calseg_addr_roundtrip(calseg_index: u16, offset: u16)
    requires
        calseg_index < 0x7FFF,
    ensures
        ({
            let a = (calseg_index + 1 + 0x8000) * 0x10000 + offset;
            &&& a >= 0x8000_0000
            &&& a <= u32::MAX
            &&& (a / 0x10000) % 0x8000 == calseg_index + 1
            &&& a % 0x10000 == offset
        }),
{
    let a = (calseg_index + 1 + 0x8000) * 0x10000 + offset;
    assert(a / 0x10000 == calseg_index + 1 + 0x8000) by (nonlinear_arith)
        requires
            a == (calseg_index + 1 + 0x8000) * 0x10000 + offset,
            0 <= offset < 0x10000,
    ;
    assert(a % 0x10000 == offset) by (nonlinear_arith)
        requires
            a == (calseg_index + 1 + 0x8000) * 0x10000 + offset,
            0 <= offset < 0x10000,
    ;
}

//------------------------------------------------------------------------------------------
// XcpTransportLayer

/// Transport layer of the XCP server
#[derive(Debug, Clone, Copy, PartialEq, Eq, Structural)]
pub enum XcpTransportLayer {
    /// UDP transport layer
    Udp,
    /// TCP transport layer
    Tcp,
}

impl XcpTransportLayer {
    /// Protocol name of the transport layer
    pub fn protocol_name(self) -> (s: &'static str)
        ensures
            s@ == (if self == XcpTransportLayer::Tcp {
                "TCP"@
            } else {
                "UDP"@
            }),
    {
        match self {
            XcpTransportLayer::Tcp => "TCP",
            XcpTransportLayer::Udp => "UDP",
        }
    }
}

//------------------------------------------------------------------------------------------
// XcpBuilder

/// A builder to initialize the XCP server
#[derive(Debug)]
pub struct XcpBuilder {
    pub log_level: u8,  // log level for the server
    pub name: &'static str,  // Registry name, file name for the registry A2L generator
    pub epk: &'static str,  // EPK string for A2L version check
}

impl XcpBuilder {
    /// Create a XcpBuilder with log level 3 and EPK "EPK"
    pub fn new(name: &'static str) -> (b: XcpBuilder)
        ensures
            b.log_level == 3,
            b.name == name,
            b.epk@ == "EPK"@,
    {
        XcpBuilder { log_level: 3, name, epk: "EPK" }
    }

    /// Set log level
    pub fn set_log_level(self, log_level: u8) -> (b: Self)
        ensures
            b == (XcpBuilder { log_level, ..self }),
    {
        XcpBuilder { log_level, ..self }
    }

    /// Set the EPK to enable the XCP tool to check the A2L file fits the code
    pub fn set_epk(self, epk: &'static str) -> (b: Self)
        ensures
            b == (XcpBuilder { epk, ..self }),
    {
        XcpBuilder { epk, ..self }
    }
}

} // verus!
