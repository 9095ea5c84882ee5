// Instances of measurement and calibration objects
//  McInstance, McInstanceList, McInstanceListIterator

use vstd::prelude::*;
use vstd::relations::sorted_by;

use crate::mc_address::{McAddrMode, McAddress, McAddressView};
use crate::mc_event::{is_first_with_id, McEvent};
use crate::mc_support::{McObjectType, McSupportData};
use crate::mc_text::McIdentifier;
use crate::mc_type::{is_basic_type, value_size, McDimType, McValueType};
use crate::registry::{Registry, RegistryError};
use crate::sorting::{lemma_stable_filter, sort_by_le};
use crate::strings::{
    dec, lemma_lex_ord_antisym, lemma_lex_ord_range, lemma_lex_le_total, lemma_lex_le_trans, lex_le, push_char,
    push_dec, push_str, str_compare, str_eq, str_to_string,
};

verus! {

//-------------------------------------------------------------------------------------------------
// Regular expressions on instance names

#[verifier::external_type_specification]
#[verifier::external_body]
pub struct ExRegex(regex::Regex);

/// Whether `regex::Regex::new` accepts a pattern
pub uninterp spec fn regex_compiles(pattern: Seq<char>) -> bool;

/// Whether the regular expression of a pattern matches somewhere in a text (`regex::Regex::is_match`)
pub uninterp spec fn regex_matches(pattern: Seq<char>, text: Seq<char>) -> bool;

/// A compiled regular expression together with its pattern
pub struct NamePattern {
    regex: regex::Regex,
    pattern: String,
}

impl NamePattern {
    pub closed spec fn pattern(&self) -> Seq<char> {
        self.pattern@
    }
}

/// `regex::Regex::new`: compiles a pattern, None when the pattern is no valid regular expression
#[verifier::external_body]
fn compile_pattern(pattern: &str) -> (r: Option<NamePattern>)
    ensures
        r is Some <==> regex_compiles(pattern@),
        r matches Some(p) ==> p.pattern() == pattern@,
{
    match regex::Regex::new(pattern) {
        Ok(regex) => Some(NamePattern { regex, pattern: pattern.to_string() }),
        Err(_) => None,
    }
}

/// `regex::Regex::is_match`: whether the pattern matches somewhere in the text
#[verifier::external_body]
fn pattern_is_match(p: &NamePattern, text: &str) -> (b: bool)
    ensures
        b == regex_matches(p.pattern(), text@),
{
    p.regex.is_match(text)
}

//-------------------------------------------------------------------------------------------------
// McInstance

/// Instance which may be a parameter, axis, or measurement value of complex type
#[derive(Debug, Clone, Copy)]
pub struct McInstance {
    pub name: McIdentifier,
    pub dim_type: McDimType,  // Type, metadata and matrix dimensions
    pub address: McAddress,  // Addressing information for the instance
}

/// Index of the event of an instance, when that event has one; 0 otherwise
pub open spec fn instance_event_index(i: McInstance, events: Seq<McEvent>) -> u16 {
    match i.address@.event_id {
        Some(id) => if exists|k: int| is_first_with_id(events, k, id) {
            let k = choose|k: int| is_first_with_id(events, k, id);
            events[k].index
        } else {
            0
        },
        None => 0,
    }
}

/// The name of an instance with the optional application name prefix
pub open spec fn prefixed_name(name: Seq<char>, prefix_names: bool, app_name: Seq<char>) -> Seq<
    char,
> {
    if prefix_names {
        app_name + seq!['.'] + name
    } else {
        name
    }
}

/// The unique name of an instance: prefixed, and postfixed by the event index when it is > 0
pub open spec fn instance_unique_name(
    i: McInstance,
    events: Seq<McEvent>,
    prefix_names: bool,
    app_name: Seq<char>,
) -> Seq<char> {
    let index = instance_event_index(i, events);
    if index > 0 {
        prefixed_name(i.name@ + seq!['_'] + dec(index as nat), prefix_names, app_name)
    } else {
        prefixed_name(i.name@, prefix_names, app_name)
    }
}

/// There is one first event with a given id
pub proof fn lemma_first_with_id_unique(s: Seq<McEvent>, i: int, j: int, id: u16)
    requires
        is_first_with_id(s, i, id),
        is_first_with_id(s, j, id),
    ensures
        i == j,
{
    if i < j {
        assert(s[i].id == id);
    } else if j < i {
        assert(s[j].id == id);
    }
}

impl McInstance {
    pub fn new(name: McIdentifier, dim_type: McDimType, address: McAddress) -> (i: McInstance)
        ensures
            i == (McInstance { name, dim_type, address }),
    {
        McInstance { name, dim_type, address }
    }

    pub fn get_dim_type(&self) -> (d: &McDimType)
        ensures
            *d == self.dim_type,
    {
        &self.dim_type
    }

    pub fn get_mc_support_data(&self) -> (m: &McSupportData)
        ensures
            *m == self.dim_type.mc_support_data,
    {
        &self.dim_type.mc_support_data
    }

    pub fn get_address(&self) -> (a: &McAddress)
        ensures
            *a == self.address,
    {
        &self.address
    }

    /// The instance name, which may not be unique
    pub fn get_name(&self) -> (s: &'static str)
        ensures
            s@ == self.name@,
    {
        self.name.as_str()
    }

    /// The instance name with the optional application name prefix
    pub fn get_prefixed_name(&self, registry: &Registry) -> (s: String)
        ensures
            s@ == prefixed_name(self.name@, registry.prefix_names, registry.app_name()),
    {
        let mut s = String::new();
        if registry.prefix_names {
            push_str(&mut s, registry.get_app_name());
            push_char(&mut s, '.');
        }
        push_str(&mut s, self.name.as_str());
        s
    }

    /// The index of the event of the instance, when the event has one > 0
    pub fn get_index(&self, registry: &Registry) -> (r: u16)
        ensures
            r == instance_event_index(*self, registry.event_list@),
    {
        if let Some(event_id) = self.address.get_event_id() {
            if let Some(event) = registry.event_list.find_event_id(event_id) {
                proof {
                    let k = choose|k: int|
                        is_first_with_id(registry.event_list@, k, event_id) && *event
                            == registry.event_list@[k];
                    let c = choose|k: int| is_first_with_id(registry.event_list@, k, event_id);
                    lemma_first_with_id_unique(registry.event_list@, k, c, event_id);
                }
                if event.index > 0 {
                    return event.index;
                }
            }
        }
        0
    }

    /// The unique instance name: with the optional application name prefix, and postfixed by
    /// the index of its event when that is > 0 (several instances of the same name)
    pub fn get_unique_name(&self, registry: &Registry) -> (s: String)
        ensures
            s@ == instance_unique_name(
                *self,
                registry.event_list@,
                registry.prefix_names,
                registry.app_name(),
            ),
    {
        let index = self.get_index(registry);
        let mut s = String::new();
        if registry.prefix_names {
            push_str(&mut s, registry.get_app_name());
            push_char(&mut s, '.');
        }
        push_str(&mut s, self.name.as_str());
        if index > 0 {
            push_char(&mut s, '_');
            push_dec(&mut s, index as u64);
        }
        s
    }

    /// Size in bytes of all values of the instance
    pub fn size(&self) -> (n: usize)
        requires
            is_basic_type(self.dim_type.value_type) || self.dim_type.value_type is Blob,
            value_size(self.dim_type.value_type) * self.dim_type.x_dim * self.dim_type.y_dim
                <= usize::MAX,
        ensures
            n == value_size(self.dim_type.value_type) * self.dim_type.x_dim * self.dim_type.y_dim,
    {
        self.dim_type.get_size()
    }

    /// Size in bytes of one value of the instance
    pub fn value_size(&self) -> (n: usize)
        requires
            is_basic_type(self.dim_type.value_type) || self.dim_type.value_type is Blob,
        ensures
            n == value_size(self.dim_type.value_type),
    {
        self.dim_type.value_type.get_size()
    }

    pub fn value_type(&self) -> (t: &McValueType)
        ensures
            *t == self.dim_type.value_type,
    {
        &self.dim_type.value_type
    }

    /// The typedef name, when the value type is a typedef
    pub fn get_typedef_name(&self) -> (r: Option<&'static str>)
        ensures
            match self.dim_type.value_type {
                McValueType::TypeDef(n) => r matches Some(s) && s@ == n@,
                _ => r is None,
            },
    {
        match self.dim_type.value_type {
            McValueType::TypeDef(typedef_name) => Some(typedef_name.as_str()),
            _ => None,
        }
    }

    pub fn object_type(&self) -> (t: McObjectType)
        ensures
            t == self.dim_type.mc_support_data.object_type,
    {
        self.dim_type.get_object_type()
    }

    pub fn is_calibration_object(&self) -> (b: bool)
        ensures
            b == (self.dim_type.mc_support_data.object_type != McObjectType::Measurement),
    {
        self.dim_type.is_calibration_object()
    }

    pub fn is_measurement_object(&self) -> (b: bool)
        ensures
            b == (self.dim_type.mc_support_data.object_type == McObjectType::Measurement),
    {
        self.dim_type.is_measurement_object()
    }

    pub fn is_axis(&self) -> (b: bool)
        ensures
            b == (self.dim_type.mc_support_data.object_type == McObjectType::Axis),
    {
        self.dim_type.is_axis()
    }

    pub fn is_characteristic(&self) -> (b: bool)
        ensures
            b == (self.dim_type.mc_support_data.object_type == McObjectType::Characteristic),
    {
        self.dim_type.is_characteristic()
    }

    pub fn x_dim(&self) -> (d: u16)
        ensures
            d == self.dim_type.x_dim,
    {
        self.dim_type.x_dim
    }

    pub fn y_dim(&self) -> (d: u16)
        ensures
            d == self.dim_type.y_dim,
    {
        self.dim_type.y_dim
    }

    pub fn unit(&self) -> (s: &'static str)
        ensures
            s@ == self.dim_type.mc_support_data.unit@,
    {
        self.dim_type.get_unit()
    }

    pub fn comment(&self) -> (s: &'static str)
        ensures
            s@ == self.dim_type.mc_support_data.comment@,
    {
        self.dim_type.get_comment()
    }

    pub fn x_axis_ref(&self) -> (r: Option<McIdentifier>)
        ensures
            r == self.dim_type.mc_support_data.x_axis_ref,
    {
        self.dim_type.get_x_axis_ref()
    }

    pub fn y_axis_ref(&self) -> (r: Option<McIdentifier>)
        ensures
            r == self.dim_type.mc_support_data.y_axis_ref,
    {
        self.dim_type.get_y_axis_ref()
    }

    pub fn x_axis_conv(&self) -> (r: Option<McIdentifier>)
        ensures
            r == self.dim_type.mc_support_data.x_axis_conv,
    {
        self.dim_type.get_x_axis_conv()
    }

    pub fn y_axis_conv(&self) -> (r: Option<McIdentifier>)
        ensures
            r == self.dim_type.mc_support_data.y_axis_conv,
    {
        self.dim_type.get_y_axis_conv()
    }

    pub fn event_id(&self) -> (e: Option<u16>)
        ensures
            e == self.address@.event_id,
    {
        self.address.get_event_id()
    }

    /// Offset relative to the segment or event, only segment and event relative instances have one
    pub fn addr_offset(&self) -> (o: i32)
        requires
            self.address@.addr_mode == McAddrMode::Cal || self.address@.addr_mode == McAddrMode::Dyn,
        ensures
            o == self.address@.addr_offset,
    {
        self.address.get_addr_offset()
    }

    pub fn calseg_name(&self) -> (n: Option<McIdentifier>)
        ensures
            match n {
                Some(x) => self.address@.calseg_name == Some(x@),
                None => self.address@.calseg_name is None,
            },
    {
        self.address.get_calseg_name()
    }
}

//-------------------------------------------------------------------------------------------------
// McInstanceList

/// List of instances
#[derive(Debug)]
pub struct McInstanceList(Vec<McInstance>);

impl View for McInstanceList {
    type V = Seq<McInstance>;

    closed spec fn view(&self) -> Seq<McInstance> {
        self.0@
    }
}

/// An instance with this name and address exists
pub open spec fn has_instance(s: Seq<McInstance>, name: Seq<char>, address: McAddressView) -> bool {
    exists|j: int| 0 <= j < s.len() && (#[trigger] s[j]).address@ == address && s[j].name@ == name
}

/// No two instances share name and address
pub open spec fn instances_unique(s: Seq<McInstance>) -> bool {
    forall|i: int, j: int|
        0 <= i < j < s.len() ==> !((#[trigger] s[i]).address@ == (#[trigger] s[j]).address@
            && s[i].name@ == s[j].name@)
}

/// The list after adding each new instance in turn, leaving out those whose name and address
/// are already there
pub open spec fn add_all(s: Seq<McInstance>, new: Seq<McInstance>) -> Seq<McInstance>
    decreases new.len(),
{
    if new.len() == 0 {
        s
    } else {
        let t = add_all(s, new.drop_last());
        if has_instance(t, new.last().name@, new.last().address@) {
            t
        } else {
            t.push(new.last())
        }
    }
}

/// Instances ordered by name
pub open spec fn instance_name_le(a: McInstance, b: McInstance) -> bool {
    lex_le(a.name@, b.name@)
}

/// The event id of an instance, 0xFFFF when there is none
pub open spec fn event_id_or_max(i: McInstance) -> u16 {
    match i.address@.event_id {
        Some(x) => x,
        None => 0xFFFF,
    }
}

/// Instances ordered by name, instances with the same name by event id
pub open spec fn instance_name_event_le(a: McInstance, b: McInstance) -> bool {
    if a.name@ == b.name@ {
        event_id_or_max(a) <= event_id_or_max(b)
    } else {
        lex_le(a.name@, b.name@)
    }
}

/// The selection criteria of a search: the event (any when None), the object type (any when
/// Unspecified) and whether the name matched
pub open spec fn instance_selected(
    i: McInstance,
    object_type: McObjectType,
    event_id: Option<u16>,
    name_matches: bool,
) -> bool {
    &&& (event_id is None || i.address@.event_id == event_id)
    &&& (object_type == McObjectType::Unspecified || i.dim_type.mc_support_data.object_type
        == object_type)
    &&& name_matches
}

/// Positions of the selected instances, in list order
pub open spec fn selected_positions(
    s: Seq<McInstance>,
    object_type: McObjectType,
    event_id: Option<u16>,
    matches: Seq<bool>,
) -> Seq<int>
    decreases s.len(),
{
    if s.len() == 0 {
        Seq::empty()
    } else {
        let rest = selected_positions(s.drop_last(), object_type, event_id, matches);
        if instance_selected(s.last(), object_type, event_id, matches[s.len() - 1]) {
            rest.push(s.len() - 1)
        } else {
            rest
        }
    }
}

/// The names of the instances whose names the pattern matches, among the selected ones
pub open spec fn matching_names(
    s: Seq<McInstance>,
    pattern: Seq<char>,
    object_type: McObjectType,
    event_id: Option<u16>,
) -> Seq<Seq<char>> {
    let m = Seq::new(s.len(), |k: int| regex_matches(pattern, s[k].name@));
    selected_positions(s, object_type, event_id, m).map_values(|k: int| s[k].name@)
}

impl Default for McInstanceList {
    fn default() -> (l: Self)
        ensures
            l@.len() == 0,
    {
        McInstanceList::new()
    }
}

/// The instances of a name, in list order
pub open spec fn instances_named(s: Seq<McInstance>, n: Seq<char>) -> Seq<McInstance> {
    s.filter(|y: McInstance| y.name@ == n)
}

/// The instances of a name and event (0xFFFF for none), in list order
pub open spec fn instances_named_at(s: Seq<McInstance>, n: Seq<char>, ev: u16) -> Seq<McInstance> {
    s.filter(|y: McInstance| y.name@ == n && event_id_or_max(y) == ev)
}

impl McInstanceList {
    pub fn new() -> (l: Self)
        ensures
            l@.len() == 0,
    {
        McInstanceList(Vec::with_capacity(100))
    }

    pub fn push(&mut self, object: McInstance)
        ensures
            final(self)@ == old(self)@.push(object),
    {
        self.0.push(object);
    }

    pub fn len(&self) -> (n: usize)
        ensures
            n == self@.len(),
    {
        self.0.len()
    }

    pub fn is_empty(&self) -> (b: bool)
        ensures
            b == (self@.len() == 0),
    {
        self.0.len() == 0
    }

    pub fn get(&self, i: usize) -> (r: &McInstance)
        requires
            i < self@.len(),
        ensures
            *r == self@[i as int],
    {
        &self.0[i]
    }

    /// Replace the instance at a position
    pub fn set(&mut self, i: usize, instance: McInstance)
        requires
            i < old(self)@.len(),
        ensures
            final(self)@ == old(self)@.update(i as int, instance),
    {
        self.0.set(i, instance);
    }

    /// Move all instances of other to the end of this list
    pub fn append(&mut self, other: &mut Self)
        ensures
            final(self)@ == old(self)@ + old(other)@,
            final(other)@.len() == 0,
    {
        self.0.append(&mut other.0);
    }

    /// Sort by name, instances with the same name keep their order
    pub fn sort_by_name(&mut self)
        ensures
            final(self)@.to_multiset() == old(self)@.to_multiset(),
            sorted_by(final(self)@, |a: McInstance, b: McInstance| instance_name_le(a, b)),
            forall|n: Seq<char>| #[trigger] instances_named(final(self)@, n) == instances_named(old(self)@, n),
    {
        let le = |a: &McInstance, b: &McInstance| -> (r: bool)
            ensures
                r == instance_name_le(*a, *b),
            { str_compare(a.name.as_str(), b.name.as_str()) <= 0 };
        let ghost rel = |a: McInstance, b: McInstance| instance_name_le(a, b);
        proof {
            assert forall|x: McInstance, y: McInstance, z: McInstance|
                #[trigger] rel(x, y) && #[trigger] rel(y, z) implies rel(x, z) by {
                lemma_lex_le_trans(x.name@, y.name@, z.name@);
            }
            assert forall|x: McInstance, y: McInstance| #[trigger] rel(x, y) || #[trigger] rel(
                y,
                x,
            ) by {
                lemma_lex_le_total(x.name@, y.name@);
            }
        }
        sort_by_le(&mut self.0, &le, Ghost(rel));
        proof {
            assert forall|n: Seq<char>| #[trigger] instances_named(self@, n) == instances_named(old(self)@, n) by {
                let pred = |y: McInstance| y.name@ == n;
                assert forall|a: McInstance, b: McInstance| #[trigger] pred(a) && #[trigger] pred(b) implies rel(a, b) && rel(b, a) by {
                    lemma_lex_ord_antisym(a.name@, b.name@);
                }
                assert forall|a: McInstance, b: McInstance| pred(a) && #[trigger] rel(a, b) && #[trigger] rel(b, a) implies pred(b) by {
                    lemma_lex_ord_antisym(a.name@, b.name@);
                }
                lemma_stable_filter(old(self)@, self@, rel, pred);
            }
        }
    }

    /// Sort by name, instances with the same name by event id (no event last)
    pub fn sort_by_name_and_event(&mut self)
        ensures
            final(self)@.to_multiset() == old(self)@.to_multiset(),
            sorted_by(final(self)@, |a: McInstance, b: McInstance| instance_name_event_le(a, b)),
            forall|n: Seq<char>, ev: u16| #[trigger] instances_named_at(final(self)@, n, ev) == instances_named_at(old(self)@, n, ev),
    {
        let le = |a: &McInstance, b: &McInstance| -> (r: bool)
            ensures
                r == instance_name_event_le(*a, *b),
            {
                let c = str_compare(a.name.as_str(), b.name.as_str());
                proof {
                    lemma_lex_ord_antisym(a.name@, b.name@);
                }
                if c == 0 {
                    a.address.get_event_id_unchecked() <= b.address.get_event_id_unchecked()
                } else {
                    c < 0
                }
            };
        let ghost rel = |a: McInstance, b: McInstance| instance_name_event_le(a, b);
        proof {
            assert forall|x: McInstance, y: McInstance, z: McInstance|
                #[trigger] rel(x, y) && #[trigger] rel(y, z) implies rel(x, z) by {
                lemma_lex_ord_antisym(x.name@, y.name@);
                lemma_lex_ord_antisym(y.name@, z.name@);
                lemma_lex_ord_antisym(x.name@, z.name@);
                lemma_lex_ord_antisym(x.name@, x.name@);
                lemma_lex_ord_antisym(y.name@, y.name@);
                assert(lex_le(x.name@, y.name@));
                assert(lex_le(y.name@, z.name@));
                lemma_lex_le_trans(x.name@, y.name@, z.name@);
                if x.name@ == z.name@ {
                    lemma_lex_ord_range(x.name@, y.name@);
                    assert(x.name@ == y.name@);
                }
            }
            assert forall|x: McInstance, y: McInstance| #[trigger] rel(x, y) || #[trigger] rel(
                y,
                x,
            ) by {
                lemma_lex_le_total(x.name@, y.name@);
            }
        }
        sort_by_le(&mut self.0, &le, Ghost(rel));
        proof {
            assert forall|n: Seq<char>, ev: u16| #[trigger] instances_named_at(self@, n, ev) == instances_named_at(old(self)@, n, ev) by {
                let pred = |y: McInstance| y.name@ == n && event_id_or_max(y) == ev;
                assert forall|a: McInstance, b: McInstance| #[trigger] pred(a) && #[trigger] pred(b) implies rel(a, b) && rel(b, a) by {
                    lemma_lex_ord_antisym(a.name@, b.name@);
                }
                assert forall|a: McInstance, b: McInstance| pred(a) && #[trigger] rel(a, b) && #[trigger] rel(b, a) implies pred(b) by {
                    lemma_lex_ord_antisym(a.name@, b.name@);
                }
                lemma_stable_filter(old(self)@, self@, rel, pred);
            }
        }
    }

    /// Whether an instance with this name and address exists
    pub fn contains(&self, name: &str, address: &McAddress) -> (b: bool)
        ensures
            b == has_instance(self@, name@, address@),
    {
        let mut i: usize = 0;
        while i < self.0.len()
            invariant
                i <= self@.len(),
                forall|j: int|
                    0 <= j < i ==> !((#[trigger] self@[j]).address@ == address@ && self@[j].name@
                        == name@),
            decreases self@.len() - i,
        {
            let x = &self.0[i];
            if x.address.same_as(address) && str_eq(x.name.as_str(), name) {
                return true;
            }
            i += 1;
        }
        false
    }

    /// Add a measurement and calibration object instance
    /// Err(Duplicate) if an instance with the same name and address exists
    /// (names need not be unique when the events differ)
    pub fn add_instance(&mut self, name: McIdentifier, dim_type: McDimType, address: McAddress) -> (r:
        Result<(), RegistryError>)
        requires
            dim_type.mc_support_data.object_type != McObjectType::Unspecified,
        ensures
            r is Ok <==> !has_instance(old(self)@, name@, address@),
            r is Ok ==> final(self)@ == old(self)@.push(McInstance { name, dim_type, address }),
            r matches Err(e) ==> final(self)@ == old(self)@ && (e matches RegistryError::Duplicate(
                s,
            ) && s@ == name@),
            instances_unique(old(self)@) ==> instances_unique(final(self)@),
    {
        if self.contains(name.as_str(), &address) {
            return Err(RegistryError::Duplicate(str_to_string(name.as_str())));
        }
        self.push(McInstance::new(name, dim_type, address));
        Ok(())
    }

    /// Add instances in turn, leaving out those whose name and address are already there
    pub fn add_instances(&mut self, new: &[McInstance])
        ensures
            final(self)@ == add_all(old(self)@, new@),
    {
        let mut i: usize = 0;
        while i < new.len()
            invariant
                i <= new@.len(),
                self@ == add_all(old(self)@, new@.take(i as int)),
            decreases new@.len() - i,
        {
            let x = new[i];
            proof {
                assert(new@.take(i + 1).drop_last() =~= new@.take(i as int));
                assert(new@.take(i + 1).last() == x);
            }
            if !self.contains(x.name.as_str(), &x.address) {
                self.push(x);
            }
            i += 1;
        }
        assert(new@.take(new@.len() as int) =~= new@);
    }

    /// Positions of the instances selected by event (any when None), object type (any when
    /// Unspecified) and the match of their names, given for each instance
    pub fn select_positions(
        &self,
        name_matches: &[bool],
        object_type: McObjectType,
        event_id: Option<u16>,
    ) -> (r: Vec<usize>)
        requires
            name_matches@.len() == self@.len(),
        ensures
            r@.map_values(|k: usize| k as int) == selected_positions(
                self@,
                object_type,
                event_id,
                name_matches@,
            ),
    {
        let mut r: Vec<usize> = Vec::new();
        let mut i: usize = 0;
        while i < self.0.len()
            invariant
                i <= self@.len(),
                name_matches@.len() == self@.len(),
                r@.map_values(|k: usize| k as int) == selected_positions(
                    self@.take(i as int),
                    object_type,
                    event_id,
                    name_matches@,
                ),
            decreases self@.len() - i,
        {
            let x = &self.0[i];
            let event_ok = match event_id {
                None => true,
                Some(e) => x.address.get_event_id() == Some(e),
            };
            let type_ok = object_type == McObjectType::Unspecified
                || x.dim_type.mc_support_data.object_type == object_type;
            let ghost before = r@;
            proof {
                assert(self@.take(i + 1).drop_last() =~= self@.take(i as int));
                assert(self@.take(i + 1).last() == self@[i as int]);
            }
            if event_ok && type_ok && name_matches[i] {
                r.push(i);
                assert(r@.map_values(|k: usize| k as int) =~= before.map_values(
                    |k: usize| k as int,
                ).push(i as int));
            }
            i += 1;
        }
        assert(self@.take(self@.len() as int) =~= self@);
        r
    }

    /// Whether the pattern matches each instance name
    fn names_matching(&self, pattern: &NamePattern) -> (r: Vec<bool>)
        ensures
            r@ == Seq::new(self@.len(), |k: int| regex_matches(pattern.pattern(), self@[k].name@)),
    {
        let mut r: Vec<bool> = Vec::new();
        let mut i: usize = 0;
        while i < self.0.len()
            invariant
                i <= self@.len(),
                r@ == Seq::new(i as nat, |k: int| regex_matches(pattern.pattern(), self@[k].name@)),
            decreases self@.len() - i,
        {
            let b = pattern_is_match(pattern, self.0[i].name.as_str());
            r.push(b);
            i += 1;
            assert(r@ =~= Seq::new(
                i as nat,
                |k: int| regex_matches(pattern.pattern(), self@[k].name@),
            ));
        }
        r
    }

    /// Find the first instance whose name the regular expression matches, optionally of an object
    /// type (Unspecified for any) or an event (None for any)
    /// None when the pattern is no valid regular expression
    pub fn find_instance(&self, regex: &str, object_type: McObjectType, event_id: Option<u16>) -> (r:
        Option<&McInstance>)
        ensures
            !regex_compiles(regex@) ==> r is None,
            regex_compiles(regex@) ==> ({
                let m = Seq::new(self@.len(), |k: int| regex_matches(regex@, self@[k].name@));
                let p = selected_positions(self@, object_type, event_id, m);
                if p.len() > 0 {
                    r == Some(&self@[p[0]])
                } else {
                    r is None
                }
            }),
    {
        match compile_pattern(regex) {
            None => None,
            Some(pattern) => {
                let matches = self.names_matching(&pattern);
                let positions = self.select_positions(matches.as_slice(), object_type, event_id);
                if positions.len() > 0 {
                    proof {
                        lemma_selected_positions_in_range(
                            self@,
                            object_type,
                            event_id,
                            matches@,
                        );
                        assert(positions@.map_values(|k: usize| k as int)[0] == positions@[0]
                            as int);
                    }
                    Some(&self.0[positions[0]])
                } else {
                    None
                }
            },
        }
    }

    /// The names of all instances whose names the regular expression matches, optionally of an
    /// object type (Unspecified for any) or an event (None for any)
    /// Empty when the pattern is no valid regular expression
    pub fn find_instances(&self, regex: &str, object_type: McObjectType, event_id: Option<u16>) -> (r:
        Vec<String>)
        ensures
            !regex_compiles(regex@) ==> r@.len() == 0,
            regex_compiles(regex@) ==> r@.len() == matching_names(
                self@,
                regex@,
                object_type,
                event_id,
            ).len() && forall|j: int|
                0 <= j < r@.len() ==> #[trigger] r@[j]@ == matching_names(
                    self@,
                    regex@,
                    object_type,
                    event_id,
                )[j],
    {
        match compile_pattern(regex) {
            None => Vec::new(),
            Some(pattern) => {
                let matches = self.names_matching(&pattern);
                let positions = self.select_positions(matches.as_slice(), object_type, event_id);
                let ghost p = selected_positions(self@, object_type, event_id, matches@);
                proof {
                    lemma_selected_positions_in_range(self@, object_type, event_id, matches@);
                    assert(matches@ =~= Seq::new(
                        self@.len(),
                        |k: int| regex_matches(regex@, self@[k].name@),
                    ));
                }
                let mut names: Vec<String> = Vec::new();
                let mut k: usize = 0;
                while k < positions.len()
                    invariant
                        k <= positions@.len(),
                        positions@.map_values(|x: usize| x as int) == p,
                        forall|j: int| 0 <= j < p.len() ==> 0 <= #[trigger] p[j] < self@.len(),
                        names@.len() == k,
                        forall|j: int| 0 <= j < k ==> #[trigger] names@[j]@ == self@[p[j]].name@,
                    decreases positions@.len() - k,
                {
                    assert(p[k as int] == positions@[k as int] as int);
                    let s = str_to_string(self.0[positions[k]].name.as_str());
                    names.push(s);
                    k += 1;
                }
                names
            },
        }
    }

    /// The instance at a position, to modify
    pub fn get_mut(&mut self, i: usize) -> (r: &mut McInstance)
        requires
            i < old(self)@.len(),
        ensures
            *r == old(self)@[i as int],
            final(self)@ == old(self)@.update(i as int, *final(r)),
    {
        &mut self.0[i]
    }
}

/// Every selected position is a position of the list, in increasing order
pub proof fn lemma_selected_positions_in_range(
    s: Seq<McInstance>,
    object_type: McObjectType,
    event_id: Option<u16>,
    matches: Seq<bool>,
)
    ensures
        forall|j: int|
            0 <= j < selected_positions(s, object_type, event_id, matches).len() ==> 0
                <= #[trigger] selected_positions(s, object_type, event_id, matches)[j] < s.len(),
    decreases s.len(),
{
    if s.len() > 0 {
        lemma_selected_positions_in_range(s.drop_last(), object_type, event_id, matches);
        let rest = selected_positions(s.drop_last(), object_type, event_id, matches);
        let all = selected_positions(s, object_type, event_id, matches);
        assert forall|j: int| 0 <= j < all.len() implies 0 <= #[trigger] all[j] < s.len() by {
            if j < rest.len() {
                assert(all[j] == rest[j]);
                assert(0 <= rest[j] < s.drop_last().len());
            }
        }
    }
}

//-------------------------------------------------------------------------------------------------
// McInstanceListIterator

/// Iterator for McInstanceList
pub struct McInstanceListIterator<'a> {
    index: usize,
    list: &'a McInstanceList,
}

impl<'a> McInstanceListIterator<'a> {
    pub fn new(list: &'a McInstanceList) -> (it: McInstanceListIterator<'a>)
        ensures
            it.position() == 0,
            it.list() == list,
    {
        McInstanceListIterator { index: 0, list }
    }

    pub closed spec fn position(&self) -> int {
        self.index as int
    }

    pub closed spec fn list(&self) -> &'a McInstanceList {
        self.list
    }

    /// The next instance of the list, None at the end
    pub fn next(&mut self) -> (r: Option<&'a McInstance>)
        ensures
            final(self).list() == old(self).list(),
            old(self).position() < old(self).list()@.len() ==> r == Some(
                &old(self).list()@[old(self).position()],
            ) && final(self).position() == old(self).position() + 1,
            old(self).position() >= old(self).list()@.len() ==> r is None && final(self).position()
                == old(self).position(),
    {
        let index = self.index;
        if index < self.list.0.len() {
            self.index += 1;
            Some(&self.list.0[index])
        } else {
            None
        }
    }
}

} // verus!
