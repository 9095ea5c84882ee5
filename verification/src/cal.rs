// Calibration segment descriptors
//  CalSegTrait, CalSegDescriptor, CalSegList

use vstd::prelude::*;
use vstd::relations::{sorted_by, total_ordering};
use vstd::seq_lib::lemma_sorted_unique;

use crate::mc_calseg::{McCalibrationSegment, McCalibrationSegmentList};
use crate::mc_text::{McIdentifier, is_identifier};
use crate::registry::RegistryError;
use crate::sorting::{equiv_class, lemma_multiset_map_values, sort_by_le};
use crate::strings::{lemma_lex_le_total, lemma_lex_le_trans, lemma_lex_ord_antisym, lex_le, str_compare, str_eq};
use crate::xcp::{XCP_ADDR_EXT_APP, get_calseg_ext_addr_base};

verus! {

//----------------------------------------------------------------------------------------------
// CalSegTrait

/// A calibration segment, as seen by the segment list: it takes requests, learns its index in
/// the list and flushes delayed modifications
/// A request stays pending until the segment's next sync takes it up
pub trait CalSegTrait: Sized {
    /// A request to set the segment to its default values is pending
    spec fn init_requested(&self) -> bool;

    /// A request to keep the segment's working page as its default values is pending
    spec fn freeze_requested(&self) -> bool;

    /// The segment's position in the segment list, as it was told
    spec fn index(&self) -> usize;

    /// The segment with a pending init request, otherwise as it is
    spec fn with_init_request(&self) -> Self;

    /// The segment with a pending freeze request, otherwise as it is
    spec fn with_freeze_request(&self) -> Self;

    /// The segment told index `index`, otherwise as it is
    spec fn with_index(&self, index: usize) -> Self;

    fn set_init_request(&mut self)
        ensures
            *final(self) == old(self).with_init_request(),
            final(self).init_requested(),
            final(self).freeze_requested() == old(self).freeze_requested(),
            final(self).index() == old(self).index(),
    ;

    fn set_freeze_request(&mut self)
        ensures
            *final(self) == old(self).with_freeze_request(),
            final(self).freeze_requested(),
            final(self).init_requested() == old(self).init_requested(),
            final(self).index() == old(self).index(),
    ;

    fn set_index(&mut self, index: usize)
        ensures
            *final(self) == old(self).with_index(index),
            final(self).index() == index,
            final(self).init_requested() == old(self).init_requested(),
            final(self).freeze_requested() == old(self).freeze_requested(),
    ;

    fn flush(&self);
}

/// The request state of a calibration segment: its index in the segment list and its pending
/// init and freeze requests, which the segment's sync takes up
pub struct CalSegState {
    pub index: usize,
    pub init_request: bool,
    pub freeze_request: bool,
}

impl CalSegState {
    /// Index 0, no request pending
    pub fn new() -> (s: CalSegState)
        ensures
            s.index == 0,
            !s.init_request,
            !s.freeze_request,
    {
        CalSegState { index: 0, init_request: false, freeze_request: false }
    }

    /// The pending requests (freeze, init), which are no longer pending afterwards
    pub fn take_requests(&mut self) -> (r: (bool, bool))
        ensures
            r == (old(self).freeze_request, old(self).init_request),
            !final(self).freeze_request,
            !final(self).init_request,
            final(self).index == old(self).index,
    {
        let r = (self.freeze_request, self.init_request);
        self.freeze_request = false;
        self.init_request = false;
        r
    }
}

impl CalSegTrait for CalSegState {
    open spec fn init_requested(&self) -> bool {
        self.init_request
    }

    open spec fn freeze_requested(&self) -> bool {
        self.freeze_request
    }

    open spec fn index(&self) -> usize {
        self.index
    }

    open spec fn with_init_request(&self) -> CalSegState {
        CalSegState { init_request: true, ..*self }
    }

    open spec fn with_freeze_request(&self) -> CalSegState {
        CalSegState { freeze_request: true, ..*self }
    }

    open spec fn with_index(&self, index: usize) -> CalSegState {
        CalSegState { index, ..*self }
    }

    fn set_init_request(&mut self) {
        self.init_request = true;
    }

    fn set_freeze_request(&mut self) {
        self.freeze_request = true;
    }

    fn set_index(&mut self, index: usize) {
        self.index = index;
    }

    /// The state holds no page, there is nothing to copy
    fn flush(&self) {
    }
}

//----------------------------------------------------------------------------------------------
// CalSegDescriptor

/// Name, size in bytes and handle of a calibration segment
pub struct CalSegDescriptor<C> {
    name: &'static str,
    calseg: C,
    size: usize,
}

/// Name and size of a calibration segment
pub open spec fn descriptor_entry<C>(d: CalSegDescriptor<C>) -> (Seq<char>, usize) {
    (d.name_view(), d.size_view())
}

/// Names and sizes of calibration segments
pub open spec fn descriptor_entries<C>(s: Seq<CalSegDescriptor<C>>) -> Seq<(Seq<char>, usize)> {
    s.map_values(|d: CalSegDescriptor<C>| descriptor_entry(d))
}

/// Entries ordered by name
pub open spec fn entry_name_le(a: (Seq<char>, usize), b: (Seq<char>, usize)) -> bool {
    lex_le(a.0, b.0)
}

impl<C> CalSegDescriptor<C> {
    pub closed spec fn name_view(self) -> Seq<char> {
        self.name@
    }

    pub closed spec fn size_view(self) -> usize {
        self.size
    }

    pub closed spec fn calseg_view(self) -> C {
        self.calseg
    }

    /// The descriptor with its segment handle replaced
    pub closed spec fn with_calseg(self, calseg: C) -> CalSegDescriptor<C> {
        CalSegDescriptor { calseg, ..self }
    }

    pub proof fn lemma_with_calseg(self, calseg: C)
        ensures
            self.with_calseg(calseg).name_view() == self.name_view(),
            self.with_calseg(calseg).size_view() == self.size_view(),
            self.with_calseg(calseg).calseg_view() == calseg,
    {
    }
}

/// Descriptors ordered by name
pub open spec fn descriptor_name_le<C>(a: CalSegDescriptor<C>, b: CalSegDescriptor<C>) -> bool {
    lex_le(a.name_view(), b.name_view())
}

/// The order of descriptors by name
pub open spec fn by_name<C>() -> spec_fn(CalSegDescriptor<C>, CalSegDescriptor<C>) -> bool {
    |a: CalSegDescriptor<C>, b: CalSegDescriptor<C>| descriptor_name_le(a, b)
}

/// t holds the descriptors of s, sorted by name, where descriptors of equal name keep their order
pub open spec fn stably_sorted_by_name<C>(s: Seq<CalSegDescriptor<C>>, t: Seq<CalSegDescriptor<C>>) -> bool {
    &&& t.to_multiset() == s.to_multiset()
    &&& sorted_by(t, by_name::<C>())
    &&& forall|e: CalSegDescriptor<C>| #[trigger] equiv_class(t, by_name::<C>(), e) == equiv_class(s, by_name::<C>(), e)
}

/// The descriptors with the segment at position i told index i
pub open spec fn indexed_descriptors<C: CalSegTrait>(s: Seq<CalSegDescriptor<C>>) -> Seq<CalSegDescriptor<C>> {
    Seq::new(s.len(), |i: int| s[i].with_calseg(s[i].calseg_view().with_index(i as usize)))
}

impl<C: CalSegTrait> CalSegDescriptor<C> {
    pub fn new(name: &'static str, calseg: C, size: usize) -> (d: CalSegDescriptor<C>)
        ensures
            d.name_view() == name@,
            d.size_view() == size,
    {
        CalSegDescriptor { name, calseg, size }
    }

    pub fn get_name(&self) -> (r: &'static str)
        ensures
            r@ == self.name_view(),
    {
        self.name
    }

    pub fn get_size(&self) -> (r: usize)
        ensures
            r == self.size_view(),
    {
        self.size
    }

    /// Request the segment to be set to its default values
    pub fn set_init_request(&mut self)
        ensures
            *final(self) == old(self).with_calseg(old(self).calseg_view().with_init_request()),
            descriptor_entry(*final(self)) == descriptor_entry(*old(self)),
            final(self).calseg_view().init_requested(),
            final(self).calseg_view().freeze_requested() == old(self).calseg_view().freeze_requested(),
            final(self).calseg_view().index() == old(self).calseg_view().index(),
    {
        self.calseg.set_init_request();
    }

    /// Request the segment's working page to be kept as its default values
    pub fn set_freeze_request(&mut self)
        ensures
            *final(self) == old(self).with_calseg(old(self).calseg_view().with_freeze_request()),
            descriptor_entry(*final(self)) == descriptor_entry(*old(self)),
            final(self).calseg_view().freeze_requested(),
            final(self).calseg_view().init_requested() == old(self).calseg_view().init_requested(),
            final(self).calseg_view().index() == old(self).calseg_view().index(),
    {
        self.calseg.set_freeze_request();
    }
}

//----------------------------------------------------------------------------------------------
// CalSegList

/// Calibration segment descriptor list
/// The Xcp singleton holds this type
pub struct CalSegList<C>(Vec<CalSegDescriptor<C>>);

impl<C> View for CalSegList<C> {
    type V = Seq<(Seq<char>, usize)>;

    closed spec fn view(&self) -> Seq<(Seq<char>, usize)> {
        descriptor_entries(self.0@)
    }
}

impl<C> CalSegList<C> {
    /// The segments, in list order
    pub closed spec fn calsegs(&self) -> Seq<C> {
        self.0@.map_values(|d: CalSegDescriptor<C>| d.calseg_view())
    }

    /// The descriptors, in list order
    pub closed spec fn descriptors(&self) -> Seq<CalSegDescriptor<C>> {
        self.0@
    }
}

/// No two segments have the same name
pub open spec fn segment_names_unique(s: Seq<(Seq<char>, usize)>) -> bool {
    forall|i: int, j: int| 0 <= i < j < s.len() ==> s[i].0 != s[j].0
}

/// The segments as the registry lists them: in list order, named, indexed and addressed by position
pub open spec fn registry_segments(s: Seq<(Seq<char>, usize)>) -> Seq<(Seq<char>, u16, u8, u32, u32)> {
    Seq::new(
        s.len(),
        |i: int|
            (
                s[i].0,
                i as u16,
                XCP_ADDR_EXT_APP,
                ((i + 1 + 0x8000) * 0x10000) as u32,
                s[i].1 as u32,
            ),
    )
}

pub open spec fn segment_view(s: McCalibrationSegment) -> (Seq<char>, u16, u8, u32, u32) {
    (s.name@, s.index, s.addr_ext, s.addr, s.size)
}

/// A rearrangement of segments keeps what holds of each segment, and unique names
proof fn lemma_permutation_props(s: Seq<(Seq<char>, usize)>, t: Seq<(Seq<char>, usize)>)
    requires
        s.to_multiset() == t.to_multiset(),
    ensures
        t.len() == s.len(),
        (forall|i: int| 0 <= i < s.len() ==> is_identifier(#[trigger] s[i].0)) ==> (forall|k: int|
            0 <= k < t.len() ==> is_identifier(#[trigger] t[k].0)),
        segment_names_unique(s) ==> segment_names_unique(t),
{
    broadcast use vstd::seq_lib::group_to_multiset_ensures;

    assert(s.to_multiset().len() == s.len());
    assert(t.to_multiset().len() == t.len());
    assert forall|k: int| 0 <= k < t.len() implies s.contains(#[trigger] t[k]) by {
        assert(t.to_multiset().count(t[k]) > 0);
    }
    if forall|i: int| 0 <= i < s.len() ==> is_identifier(#[trigger] s[i].0) {
        assert forall|k: int| 0 <= k < t.len() implies is_identifier(#[trigger] t[k].0) by {
            assert(s.contains(t[k]));
        }
    }
    if segment_names_unique(s) {
        let f = |e: (Seq<char>, usize)| e.0;
        let ns = s.map_values(f);
        let nt = t.map_values(f);
        lemma_multiset_map_values(s, t, f);
        assert(ns.no_duplicates());
        ns.lemma_multiset_has_no_duplicates();
        nt.lemma_multiset_has_no_duplicates_conv();
        assert forall|i: int, j: int| 0 <= i < j < t.len() implies t[i].0 != t[j].0 by {
            assert(nt[i] != nt[j]);
        }
    }
}

/// Creation order does not matter: two lists of the same uniquely named segments, created in
/// any order, are the same list once sorted by name, so each segment gets the same index and
/// the same address in the registry
pub proof fn lemma_segment_order_independent(
    created1: Seq<(Seq<char>, usize)>,
    created2: Seq<(Seq<char>, usize)>,
    sorted1: Seq<(Seq<char>, usize)>,
    sorted2: Seq<(Seq<char>, usize)>,
)
    requires
        created1.to_multiset() == created2.to_multiset(),
        segment_names_unique(created1),
        sorted1.to_multiset() == created1.to_multiset(),
        sorted2.to_multiset() == created2.to_multiset(),
        sorted_by(sorted1, |a: (Seq<char>, usize), b: (Seq<char>, usize)| entry_name_le(a, b)),
        sorted_by(sorted2, |a: (Seq<char>, usize), b: (Seq<char>, usize)| entry_name_le(a, b)),
    ensures
        sorted1 == sorted2,
        registry_segments(sorted1) == registry_segments(sorted2),
{
    broadcast use vstd::seq_lib::group_to_multiset_ensures;

    lemma_permutation_props(created1, sorted1);
    let f = |e: (Seq<char>, usize)| e.0;
    let n1 = sorted1.map_values(f);
    let n2 = sorted2.map_values(f);
    lemma_multiset_map_values(sorted1, sorted2, f);
    let le = |a: Seq<char>, b: Seq<char>| lex_le(a, b);
    assert(total_ordering(le)) by {
        assert forall|x: Seq<char>| #[trigger] le(x, x) by {
            lemma_lex_ord_antisym(x, x);
        }
        assert forall|x: Seq<char>, y: Seq<char>| #[trigger] le(x, y) && #[trigger] le(y, x) implies x == y by {
            lemma_lex_ord_antisym(x, y);
        }
        assert forall|x: Seq<char>, y: Seq<char>, z: Seq<char>|
            #[trigger] le(x, y) && #[trigger] le(y, z) implies le(x, z) by {
            lemma_lex_le_trans(x, y, z);
        }
        assert forall|x: Seq<char>, y: Seq<char>| #[trigger] le(x, y) || #[trigger] le(y, x) by {
            lemma_lex_le_total(x, y);
        }
    }
    let r = |a: (Seq<char>, usize), b: (Seq<char>, usize)| entry_name_le(a, b);
    assert(sorted_by(n1, le)) by {
        assert forall|i: int, j: int| 0 <= i < j < n1.len() implies #[trigger] le(n1[i], n1[j]) by {
            assert(r(sorted1[i], sorted1[j]));
        }
    }
    assert(sorted_by(n2, le)) by {
        assert forall|i: int, j: int| 0 <= i < j < n2.len() implies #[trigger] le(n2[i], n2[j]) by {
            assert(r(sorted2[i], sorted2[j]));
        }
    }
    lemma_sorted_unique(n1, n2, le);
    assert(sorted1.len() == sorted2.len()) by {
        assert(sorted1.to_multiset().len() == sorted2.to_multiset().len());
    }
    assert forall|i: int| 0 <= i < sorted1.len() implies #[trigger] sorted1[i] == sorted2[i] by {
        assert(sorted2.to_multiset().count(sorted1[i]) > 0);
        assert(sorted2.contains(sorted1[i]));
        let j = choose|j: int| 0 <= j < sorted2.len() && sorted2[j] == sorted1[i];
        assert(n1[i] == n2[i]);
        assert(n2[j] == n1[i]);
        lemma_permutation_props(sorted1, sorted2);
        if j != i {
            if j < i {
                assert(sorted2[j].0 != sorted2[i].0);
            } else {
                assert(sorted2[i].0 != sorted2[j].0);
            }
        }
    }
    assert(sorted1 =~= sorted2);
}

impl<C: CalSegTrait> CalSegList<C> {
    pub fn new() -> (l: CalSegList<C>)
        ensures
            l@ == Seq::<(Seq<char>, usize)>::empty(),
    {
        let l = CalSegList(Vec::new());
        assert(l@ =~= Seq::<(Seq<char>, usize)>::empty());
        l
    }

    pub fn len(&self) -> (n: usize)
        ensures
            n == self@.len(),
    {
        self.0.len()
    }

    /// Add a segment descriptor at the end, its index is its position
    pub fn push(&mut self, d: CalSegDescriptor<C>) -> (index: usize)
        requires
            forall|i: int| 0 <= i < old(self)@.len() ==> (#[trigger] old(self)@[i]).0 != d.name_view(),
        ensures
            index == old(self)@.len(),
            final(self)@ == old(self)@.push(descriptor_entry(d)),
    {
        let index = self.0.len();
        self.0.push(d);
        assert(descriptor_entries(self.0@) =~= descriptor_entries(old(self).0@).push(
            descriptor_entry(d),
        ));
        index
    }

    pub fn get_name(&self, i: usize) -> (r: &'static str)
        requires
            i < self@.len(),
        ensures
            r@ == self@[i as int].0,
    {
        self.0[i].get_name()
    }

    /// Position of the first segment with the given name
    pub fn get_index(&self, name: &str) -> (r: Option<usize>)
        ensures
            match r {
                Some(i) => i < self@.len() && self@[i as int].0 == name@ && forall|j: int|
                    0 <= j < i ==> (#[trigger] self@[j]).0 != name@,
                None => forall|j: int| 0 <= j < self@.len() ==> (#[trigger] self@[j]).0 != name@,
            },
    {
        let mut i: usize = 0;
        while i < self.0.len()
            invariant
                i <= self@.len(),
                self@ == descriptor_entries(self.0@),
                forall|j: int| 0 <= j < i ==> (#[trigger] self@[j]).0 != name@,
            decreases self@.len() - i,
        {
            if str_eq(self.0[i].get_name(), name) {
                return Some(i);
            }
            i += 1;
        }
        None
    }

    /// Sort by name and tell each segment its new index
    pub fn sort_by_name(&mut self)
        ensures
            final(self)@.to_multiset() == old(self)@.to_multiset(),
            sorted_by(
                final(self)@,
                |a: (Seq<char>, usize), b: (Seq<char>, usize)| entry_name_le(a, b),
            ),
            exists|t: Seq<CalSegDescriptor<C>>|
                #[trigger] stably_sorted_by_name(old(self).descriptors(), t) && final(self).descriptors()
                    == indexed_descriptors(t),
            final(self).calsegs().len() == final(self)@.len(),
            forall|i: int| 0 <= i < final(self).calsegs().len() ==> (#[trigger] final(self).calsegs()[i]).index() == i,
    {
        let le = |a: &CalSegDescriptor<C>, b: &CalSegDescriptor<C>| -> (r: bool)
            ensures
                r == lex_le(a.name_view(), b.name_view()),
            { str_compare(a.name, b.name) <= 0 };
        let ghost rel = by_name::<C>();
        proof {
            assert forall|x: CalSegDescriptor<C>, y: CalSegDescriptor<C>, z: CalSegDescriptor<C>|
                #[trigger] rel(x, y) && #[trigger] rel(y, z) implies rel(x, z) by {
                lemma_lex_le_trans(x.name_view(), y.name_view(), z.name_view());
            }
            assert forall|x: CalSegDescriptor<C>, y: CalSegDescriptor<C>|
                #[trigger] rel(x, y) || #[trigger] rel(y, x) by {
                lemma_lex_le_total(x.name_view(), y.name_view());
            }
        }
        sort_by_le(&mut self.0, &le, Ghost(rel));
        proof {
            assert forall|i: int, j: int| 0 <= i < j < self@.len() implies entry_name_le(
                #[trigger] self@[i],
                #[trigger] self@[j],
            ) by {
                assert(rel(self.0@[i], self.0@[j]));
            }
            lemma_multiset_map_values(
                self.0@,
                old(self).0@,
                |d: CalSegDescriptor<C>| descriptor_entry(d),
            );
        }
        let ghost sorted = self@;
        let ghost descs = self.0@;
        assert(stably_sorted_by_name(old(self).0@, descs));
        let mut i: usize = 0;
        while i < self.0.len()
            invariant
                i <= self.0@.len(),
                self@ == sorted,
                self.0@.len() == descs.len(),
                forall|j: int| 0 <= j < i ==> (#[trigger] self.0@[j]).calseg_view().index() == j,
                forall|j: int|
                    0 <= j < i ==> #[trigger] self.0@[j] == descs[j].with_calseg(
                        descs[j].calseg_view().with_index(j as usize),
                    ),
                forall|j: int| i <= j < descs.len() ==> #[trigger] self.0@[j] == descs[j],
            decreases self.0@.len() - i,
        {
            let ghost before = self.0@;
            let d = &mut self.0[i];
            d.calseg.set_index(i);
            proof {
                assert(self.0@ == before.update(i as int, self.0@[i as int]));
            }
            assert(descriptor_entries(self.0@) =~= sorted);
            i += 1;
        }
        assert(self.0@ =~= indexed_descriptors(descs));
        assert(stably_sorted_by_name(old(self).descriptors(), descs) && self.descriptors() == indexed_descriptors(descs));
    }

    /// Sort by name and add all segments to the registry's segment list, each with its position
    /// as index and the address of that index
    /// Err(Duplicate) where the registry has a segment of the same name; the segments before
    /// it stay added
    pub fn register(&mut self, segments: &mut McCalibrationSegmentList) -> (r: Result<(), RegistryError>)
        requires
            old(self)@.len() <= 0x7FFE,
            forall|i: int| 0 <= i < old(self)@.len() ==> is_identifier(#[trigger] old(self)@[i].0),
            segment_names_unique(old(self)@),
        ensures
            final(self)@.to_multiset() == old(self)@.to_multiset(),
            sorted_by(
                final(self)@,
                |a: (Seq<char>, usize), b: (Seq<char>, usize)| entry_name_le(a, b),
            ),
            r is Ok <==> forall|i: int, j: int|
                0 <= i < final(self)@.len() && 0 <= j < old(segments)@.len() ==> (#[trigger] final(self)@[i]).0
                    != (#[trigger] old(segments)@[j]).name@,
            r is Ok ==> final(segments)@.map_values(|s: McCalibrationSegment| segment_view(s))
                == old(segments)@.map_values(|s: McCalibrationSegment| segment_view(s)) + registry_segments(
                final(self)@,
            ),
            exists|t: Seq<CalSegDescriptor<C>>|
                #[trigger] stably_sorted_by_name(old(self).descriptors(), t) && final(self).descriptors()
                    == indexed_descriptors(t),
            final(self).calsegs().len() == final(self)@.len(),
            forall|i: int| 0 <= i < final(self).calsegs().len() ==> (#[trigger] final(self).calsegs()[i]).index() == i,
    {
        self.sort_by_name();
        let ghost descs = self.0@;
        let ghost t0 = choose|t: Seq<CalSegDescriptor<C>>|
            #[trigger] stably_sorted_by_name(old(self).descriptors(), t) && descs == indexed_descriptors(t);
        proof {
            lemma_permutation_props(old(self)@, self@);
        }
        let ghost orig = segments@;
        let ghost entries = self@;
        let mut i: usize = 0;
        while i < self.0.len()
            invariant
                i <= self.0@.len() <= 0x7FFE,
                self@ == entries,
                self.0@ == descs,
                stably_sorted_by_name(old(self).descriptors(), t0),
                descs == indexed_descriptors(t0),
                orig == old(segments)@,
                entries == descriptor_entries(self.0@),
                entries.to_multiset() == old(self)@.to_multiset(),
                sorted_by(entries, |a: (Seq<char>, usize), b: (Seq<char>, usize)| entry_name_le(a, b)),
                forall|k: int| 0 <= k < entries.len() ==> is_identifier(#[trigger] entries[k].0),
                segment_names_unique(entries),
                forall|k: int, j: int|
                    0 <= k < i && 0 <= j < orig.len() ==> (#[trigger] entries[k]).0 != (
                    #[trigger] orig[j]).name@,
                segments@.map_values(|s: McCalibrationSegment| segment_view(s)) == orig.map_values(
                    |s: McCalibrationSegment| segment_view(s),
                ) + registry_segments(entries).take(i as int),
                segments@.len() == orig.len() + i,
                forall|j: int| 0 <= j < orig.len() ==> segments@[j] == orig[j],
                forall|j: int| orig.len() <= j < segments@.len() ==> segments@[j].name@ == entries[j - orig.len()].0,
                self.calsegs().len() == self@.len(),
                forall|k: int| 0 <= k < self.calsegs().len() ==> (#[trigger] self.calsegs()[k]).index() == k,
            decreases self.0@.len() - i,
        {
            let name = self.0[i].get_name();
            assert(is_identifier(entries[i as int].0));
            let id = McIdentifier::new(name);
            let (ext, addr) = get_calseg_ext_addr_base(i as u16);
            let size: u32 = #[verifier::truncate] (self.0[i].get_size() as u32);
            let ghost before = segments@;
            match segments.add_a2l_cal_seg(id, i as u16, ext, addr, size) {
                Err(e) => {
                    proof {
                        let j = choose|j: int| 0 <= j < before.len() && (#[trigger] before[j]).name@ == name@;
                        if j >= orig.len() {
                            let k = j - orig.len();
                            assert(entries[k].0 == entries[i as int].0);
                        }
                        assert(before[j] == orig[j]);
                        assert((entries[i as int]).0 == orig[j].name@);
                        assert(stably_sorted_by_name(old(self).descriptors(), t0));
                    }
                    return Err(e);
                },
                Ok(()) => {
                    proof {
                        assert forall|j: int| 0 <= j < orig.len() implies entries[i as int].0 != (#[trigger] orig[j]).name@ by {
                            assert(before[j] == orig[j]);
                        }
                        let ghost last = segments@[segments@.len() - 1];
                        assert(segments@ == before.push(last));
                        assert(segment_view(last) == registry_segments(entries)[i as int]);
                        let ghost f = |s: McCalibrationSegment| segment_view(s);
                        assert(segments@.map_values(f) =~= before.map_values(f).push(segment_view(last)));
                        assert(registry_segments(entries).take(i + 1) =~= registry_segments(entries).take(i as int).push(registry_segments(entries)[i as int]));
                        assert(segments@.map_values(|s: McCalibrationSegment| segment_view(s))
                            =~= orig.map_values(|s: McCalibrationSegment| segment_view(s)) + registry_segments(entries).take(i + 1));
                    }
                },
            }
            i += 1;
        }
        assert(registry_segments(entries).take(i as int) =~= registry_segments(entries));
        Ok(())
    }

    pub fn clear(&mut self)
        ensures
            final(self)@ == Seq::<(Seq<char>, usize)>::empty(),
    {
        self.0.clear();
        assert(self@ =~= Seq::<(Seq<char>, usize)>::empty());
    }

    /// Request all segments to keep their working page as default values
    pub fn set_freeze_request(&mut self)
        ensures
            final(self)@ == old(self)@,
            final(self).calsegs().len() == old(self).calsegs().len(),
            forall|i: int| 0 <= i < final(self).calsegs().len() ==> (#[trigger] final(self).calsegs()[i]).freeze_requested()
                && final(self).calsegs()[i].init_requested() == old(self).calsegs()[i].init_requested()
                && final(self).calsegs()[i].index() == old(self).calsegs()[i].index(),
            final(self).descriptors().len() == old(self).descriptors().len(),
            forall|i: int|
                0 <= i < old(self).descriptors().len() ==> #[trigger] final(self).descriptors()[i] == old(
                    self,
                ).descriptors()[i].with_calseg(old(self).descriptors()[i].calseg_view().with_freeze_request()),
    {
        let mut i: usize = 0;
        while i < self.0.len()
            invariant
                i <= self.0@.len(),
                self@ == old(self)@,
                self.0@.len() == old(self).0@.len(),
                forall|j: int| 0 <= j < i ==> (#[trigger] self.0@[j]).calseg_view().freeze_requested()
                    && self.0@[j].calseg_view().init_requested() == old(self).0@[j].calseg_view().init_requested()
                    && self.0@[j].calseg_view().index() == old(self).0@[j].calseg_view().index(),
                forall|j: int|
                    0 <= j < i ==> #[trigger] self.0@[j] == old(self).0@[j].with_calseg(
                        old(self).0@[j].calseg_view().with_freeze_request(),
                    ),
                forall|j: int| i <= j < self.0@.len() ==> #[trigger] self.0@[j] == old(self).0@[j],
            decreases self.0@.len() - i,
        {
            let ghost before = self.0@;
            let d = &mut self.0[i];
            d.set_freeze_request();
            proof {
                assert(self.0@ == before.update(i as int, self.0@[i as int]));
            }
            assert(descriptor_entries(self.0@) =~= old(self)@);
            i += 1;
        }
    }

    /// Request all segments to be set to their default values
    pub fn set_init_request(&mut self)
        ensures
            final(self)@ == old(self)@,
            final(self).calsegs().len() == old(self).calsegs().len(),
            forall|i: int| 0 <= i < final(self).calsegs().len() ==> (#[trigger] final(self).calsegs()[i]).init_requested()
                && final(self).calsegs()[i].freeze_requested() == old(self).calsegs()[i].freeze_requested()
                && final(self).calsegs()[i].index() == old(self).calsegs()[i].index(),
            final(self).descriptors().len() == old(self).descriptors().len(),
            forall|i: int|
                0 <= i < old(self).descriptors().len() ==> #[trigger] final(self).descriptors()[i] == old(
                    self,
                ).descriptors()[i].with_calseg(old(self).descriptors()[i].calseg_view().with_init_request()),
    {
        let mut i: usize = 0;
        while i < self.0.len()
            invariant
                i <= self.0@.len(),
                self@ == old(self)@,
                self.0@.len() == old(self).0@.len(),
                forall|j: int| 0 <= j < i ==> (#[trigger] self.0@[j]).calseg_view().init_requested()
                    && self.0@[j].calseg_view().freeze_requested() == old(self).0@[j].calseg_view().freeze_requested()
                    && self.0@[j].calseg_view().index() == old(self).0@[j].calseg_view().index(),
                forall|j: int|
                    0 <= j < i ==> #[trigger] self.0@[j] == old(self).0@[j].with_calseg(
                        old(self).0@[j].calseg_view().with_init_request(),
                    ),
                forall|j: int| i <= j < self.0@.len() ==> #[trigger] self.0@[j] == old(self).0@[j],
            decreases self.0@.len() - i,
        {
            let ghost before = self.0@;
            let d = &mut self.0[i];
            d.set_init_request();
            proof {
                assert(self.0@ == before.update(i as int, self.0@[i as int]));
            }
            assert(descriptor_entries(self.0@) =~= old(self)@);
            i += 1;
        }
    }

    /// Flush delayed modifications in all calibration segments
    pub fn flush(&self) {
        let mut i: usize = 0;
        while i < self.0.len()
            invariant
                i <= self.0@.len(),
            decreases self.0@.len() - i,
        {
            self.0[i].calseg.flush();
            i += 1;
        }
    }
}

impl<C: CalSegTrait> Default for CalSegList<C> {
    fn default() -> (l: CalSegList<C>)
        ensures
            l@ == Seq::<(Seq<char>, usize)>::empty(),
    {
        Self::new()
    }
}

} // verus!
