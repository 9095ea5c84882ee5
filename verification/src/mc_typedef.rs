// Type definitions of the registry, and the flattening of typedef instances into instances of
// their leaf fields
//  McTypeDef, McTypeDefField, McTypeDefList, McTypeDefFieldList

use vstd::prelude::*;

use crate::mc_address::{McAddrMode, McAddress, McAddressView, wrap_u32};
use crate::mc_instance::{McInstance, McInstanceList, has_instance};
use crate::mc_support::{McObjectType, McSupportData};
use crate::mc_text::{
    McIdentifier, is_identifier, lemma_identifier_of_identity,
};
use crate::mc_type::{McDimType, McValueType};
use crate::registry::RegistryError;
use crate::sorting::{lemma_stable_filter, sort_by_le};
use crate::strings::{
    lemma_lex_le_total, lemma_lex_le_trans, lemma_lex_ord_antisym, lex_le, push_char, push_str, str_compare, str_eq,
    str_to_string,
};

verus! {

//-------------------------------------------------------------------------------------------------
// McTypeDefField

/// A field of a type definition
#[derive(Debug, Clone, Copy)]
pub struct McTypeDefField {
    pub name: McIdentifier,
    pub dim_type: McDimType,  // Type name and matrix dimensions, recursion here if McValueType::TypeDef
    pub mc_support_data: McSupportData,  // Metadata for the field
    pub offset: u16,  // Offset of the field in the struct ABI
}

/// The name of the typedef a field is an instance of
pub open spec fn field_typedef_name(f: McTypeDefField) -> Option<Seq<char>> {
    match f.dim_type.value_type {
        McValueType::TypeDef(n) => Some(n@),
        _ => None,
    }
}

impl McTypeDefField {
    pub fn new(field_name: McIdentifier, dim_type: McDimType, mc_support_data: McSupportData, offset: u16) -> (f:
        McTypeDefField)
        ensures
            f == (McTypeDefField { name: field_name, dim_type, mc_support_data, offset }),
    {
        McTypeDefField { name: field_name, dim_type, mc_support_data, offset }
    }

    pub fn get_name(&self) -> (s: &'static str)
        ensures
            s@ == self.name@,
    {
        self.name.as_str()
    }

    /// The typedef name, if the value type is a typedef
    pub fn get_typedef_name(&self) -> (r: Option<&'static str>)
        ensures
            match r {
                Some(s) => field_typedef_name(*self) == Some(s@),
                None => field_typedef_name(*self) is None,
            },
    {
        match self.dim_type.value_type {
            McValueType::TypeDef(typedef_name) => Some(typedef_name.as_str()),
            _ => None,
        }
    }

    /// Offset of the field in the struct ABI
    pub fn get_offset(&self) -> (o: u16)
        ensures
            o == self.offset,
    {
        self.offset
    }

    pub fn get_dim_type(&self) -> (d: &McDimType)
        ensures
            *d == self.dim_type,
    {
        &self.dim_type
    }

    pub fn get_mc_support_data(&self) -> (m: &McSupportData)
        ensures
            *m == self.mc_support_data,
    {
        &self.mc_support_data
    }
}

//----------------------------------------------------------------------------------------------
// McTypeDefFieldList

/// The fields of a type definition, in order
#[derive(Debug)]
pub struct McTypeDefFieldList(Vec<McTypeDefField>);

impl View for McTypeDefFieldList {
    type V = Seq<McTypeDefField>;

    closed spec fn view(&self) -> Seq<McTypeDefField> {
        self.0@
    }
}

/// Position of the first field named n, or -1
pub open spec fn field_pos(s: Seq<McTypeDefField>, n: Seq<char>) -> int
    decreases s.len(),
{
    if s.len() == 0 {
        -1
    } else if s[0].name@ == n {
        0
    } else {
        let r = field_pos(s.drop_first(), n);
        if r < 0 {
            -1
        } else {
            r + 1
        }
    }
}

/// The position of a field name holds that name, and no earlier position does
pub proof fn lemma_field_pos(s: Seq<McTypeDefField>, n: Seq<char>)
    ensures
        -1 <= field_pos(s, n) < s.len(),
        field_pos(s, n) >= 0 ==> s[field_pos(s, n)].name@ == n,
        forall|j: int|
            0 <= j < s.len() && (field_pos(s, n) < 0 || j < field_pos(s, n)) ==> s[j].name@ != n,
    decreases s.len(),
{
    if s.len() > 0 && s[0].name@ != n {
        lemma_field_pos(s.drop_first(), n);
        assert forall|j: int|
            0 <= j < s.len() && (field_pos(s, n) < 0 || j < field_pos(s, n)) implies s[j].name@
            != n by {
            if j > 0 {
                assert(s[j] == s.drop_first()[j - 1]);
            }
        }
    }
}

impl McTypeDefFieldList {
    pub fn new() -> (l: Self)
        ensures
            l@ == Seq::<McTypeDefField>::empty(),
    {
        McTypeDefFieldList(Vec::with_capacity(8))
    }

    pub fn len(&self) -> (n: usize)
        ensures
            n == self@.len(),
    {
        self.0.len()
    }

    pub fn is_empty(&self) -> (b: bool)
        ensures
            b == (self@.len() == 0),
    {
        self.0.len() == 0
    }

    pub fn push(&mut self, object: McTypeDefField)
        ensures
            final(self)@ == old(self)@.push(object),
    {
        self.0.push(object);
    }

    pub fn get(&self, i: usize) -> (f: &McTypeDefField)
        requires
            i < self@.len(),
        ensures
            *f == self@[i as int],
    {
        &self.0[i]
    }

    /// Replace field i
    pub fn set(&mut self, i: usize, f: McTypeDefField)
        requires
            i < old(self)@.len(),
        ensures
            final(self)@ == old(self)@.update(i as int, f),
    {
        self.0.set(i, f);
    }

    /// The first field with the given name
    pub fn find_typedef_field(&self, name: &str) -> (r: Option<&McTypeDefField>)
        ensures
            match r {
                Some(f) => field_pos(self@, name@) >= 0 && *f == self@[field_pos(self@, name@)],
                None => field_pos(self@, name@) == -1,
            },
    {
        proof {
            lemma_field_pos(self@, name@);
        }
        let mut i: usize = 0;
        while i < self.0.len()
            invariant
                i <= self@.len(),
                -1 <= field_pos(self@, name@) < self@.len(),
                field_pos(self@, name@) >= 0 ==> self@[field_pos(self@, name@)].name@ == name@,
                forall|j: int|
                    0 <= j < self@.len() && (field_pos(self@, name@) < 0 || j < field_pos(
                        self@,
                        name@,
                    )) ==> self@[j].name@ != name@,
                forall|j: int| 0 <= j < i ==> (#[trigger] self@[j]).name@ != name@,
            decreases self@.len() - i,
        {
            if str_eq(self.0[i].name.as_str(), name) {
                return Some(&self.0[i]);
            }
            i += 1;
        }
        None
    }
}

//-------------------------------------------------------------------------------------------------
// McTypeDef

/// Type definition for McValueType::TypeDef
#[derive(Debug)]
pub struct McTypeDef {
    pub name: McIdentifier,
    pub fields: McTypeDefFieldList,  // Fields of the struct
    pub size: usize,  // Size of the struct in bytes
}

impl McTypeDef {
    pub fn new(typedef_name: McIdentifier, size: usize) -> (t: McTypeDef)
        ensures
            t.name == typedef_name,
            t.fields@ == Seq::<McTypeDefField>::empty(),
            t.size == size,
    {
        McTypeDef { name: typedef_name, fields: McTypeDefFieldList::new(), size }
    }

    pub fn get_name(&self) -> (s: &'static str)
        ensures
            s@ == self.name@,
    {
        self.name.as_str()
    }

    /// The first field with the given name
    pub fn find_field(&self, name: &str) -> (r: Option<&McTypeDefField>)
        ensures
            match r {
                Some(f) => field_pos(self.fields@, name@) >= 0 && *f == self.fields@[field_pos(
                    self.fields@,
                    name@,
                )],
                None => field_pos(self.fields@, name@) == -1,
            },
    {
        self.fields.find_typedef_field(name)
    }

    /// Add a field
    /// Err(Duplicate) if a field with that name exists
    pub fn add_field(
        &mut self,
        name: McIdentifier,
        dim_type: McDimType,
        mc_support_data: McSupportData,
        offset: u16,
    ) -> (r: Result<(), RegistryError>)
        ensures
            final(self).name == old(self).name,
            final(self).size == old(self).size,
            r is Ok <==> field_pos(old(self).fields@, name@) == -1,
            r is Ok ==> final(self).fields@ == old(self).fields@.push(
                McTypeDefField { name, dim_type, mc_support_data, offset },
            ),
            r matches Err(e) ==> *final(self) == *old(self) && (e matches RegistryError::Duplicate(
                s,
            ) && s@ == name@),
    {
        if self.find_field(name.as_str()).is_some() {
            return Err(RegistryError::Duplicate(str_to_string(name.as_str())));
        }
        self.fields.push(McTypeDefField::new(name, dim_type, mc_support_data, offset));
        Ok(())
    }
}

/// A field that is an instance of typedef n becomes a leaf: value type vt, dimensions x and y,
/// metadata m; other fields stay
pub open spec fn leaf_updated(
    f: McTypeDefField,
    n: Seq<char>,
    vt: McValueType,
    x: u16,
    y: u16,
    m: McSupportData,
) -> McTypeDefField {
    if field_typedef_name(f) == Some(n) {
        McTypeDefField { dim_type: McDimType { value_type: vt, x_dim: x, y_dim: y, ..f.dim_type }, mc_support_data: m, ..f }
    } else {
        f
    }
}

impl McTypeDef {
    /// Turn each field that is an instance of typedef n into a leaf
    pub fn update_leaf_fields(&mut self, n: &str, vt: McValueType, x: u16, y: u16, m: McSupportData)
        ensures
            final(self).name == old(self).name,
            final(self).size == old(self).size,
            final(self).fields@ == old(self).fields@.map_values(
                |f: McTypeDefField| leaf_updated(f, n@, vt, x, y, m),
            ),
    {
        let ghost orig = self.fields@;
        let len = self.fields.len();
        let mut k: usize = 0;
        while k < len
            invariant
                k <= len,
                len == orig.len(),
                self.fields@.len() == len,
                self.name == old(self).name,
                self.size == old(self).size,
                orig == old(self).fields@,
                forall|j: int| 0 <= j < k ==> #[trigger] self.fields@[j] == leaf_updated(orig[j], n@, vt, x, y, m),
                forall|j: int| k <= j < len ==> #[trigger] self.fields@[j] == orig[j],
            decreases len - k,
        {
            let f = *self.fields.get(k);
            match f.dim_type.value_type {
                McValueType::TypeDef(tn) => {
                    if str_eq(tn.as_str(), n) {
                        let d = McDimType { value_type: vt, x_dim: x, y_dim: y, ..f.dim_type };
                        self.fields.set(k, McTypeDefField { dim_type: d, mc_support_data: m, ..f });
                    }
                },
                _ => {},
            }
            k += 1;
        }
        assert(self.fields@ =~= orig.map_values(|f: McTypeDefField| leaf_updated(f, n@, vt, x, y, m)));
    }
}

//----------------------------------------------------------------------------------------------
// McTypeDefList

/// The type definitions of the registry
#[derive(Debug)]
pub struct McTypeDefList(Vec<McTypeDef>);

impl View for McTypeDefList {
    type V = Seq<McTypeDef>;

    closed spec fn view(&self) -> Seq<McTypeDef> {
        self.0@
    }
}

/// Position of the last typedef named n, or -1
pub open spec fn typedef_pos(s: Seq<McTypeDef>, n: Seq<char>) -> int
    decreases s.len(),
{
    if s.len() == 0 {
        -1
    } else if s.last().name@ == n {
        s.len() - 1
    } else {
        typedef_pos(s.drop_last(), n)
    }
}

/// The last position of a typedef name holds that name, and no later position does
pub proof fn lemma_typedef_pos(s: Seq<McTypeDef>, n: Seq<char>)
    ensures
        -1 <= typedef_pos(s, n) < s.len(),
        typedef_pos(s, n) >= 0 ==> s[typedef_pos(s, n)].name@ == n,
        forall|j: int| typedef_pos(s, n) < j < s.len() ==> s[j].name@ != n,
    decreases s.len(),
{
    if s.len() > 0 && s.last().name@ != n {
        lemma_typedef_pos(s.drop_last(), n);
        assert forall|j: int| typedef_pos(s, n) < j < s.len() implies s[j].name@ != n by {
            if j < s.len() - 1 {
                assert(s[j] == s.drop_last()[j]);
            }
        }
    }
}

/// Typedefs ordered by name
pub open spec fn typedef_name_le(a: McTypeDef, b: McTypeDef) -> bool {
    lex_le(a.name@, b.name@)
}

/// The typedefs of a name, in list order
pub open spec fn typedefs_named(s: Seq<McTypeDef>, n: Seq<char>) -> Seq<McTypeDef> {
    s.filter(|y: McTypeDef| y.name@ == n)
}

impl McTypeDefList {
    pub fn new() -> (l: Self)
        ensures
            l@ == Seq::<McTypeDef>::empty(),
    {
        McTypeDefList(Vec::with_capacity(16))
    }

    pub fn len(&self) -> (n: usize)
        ensures
            n == self@.len(),
    {
        self.0.len()
    }

    pub fn get(&self, index: usize) -> (r: Option<&McTypeDef>)
        ensures
            index < self@.len() ==> r == Some(&self@[index as int]),
            index >= self@.len() ==> r is None,
    {
        if index < self.0.len() {
            Some(&self.0[index])
        } else {
            None
        }
    }

    pub fn get_mut(&mut self, index: usize) -> (r: &mut McTypeDef)
        requires
            index < old(self)@.len(),
        ensures
            *r == old(self)@[index as int],
            final(self)@ == old(self)@.update(index as int, *final(r)),
    {
        &mut self.0[index]
    }

    /// Turn each field of each typedef that is an instance of typedef n into a leaf
    pub fn update_leaf_fields(&mut self, n: &str, vt: McValueType, x: u16, y: u16, m: McSupportData)
        ensures
            final(self)@.len() == old(self)@.len(),
            forall|j: int|
                0 <= j < old(self)@.len() ==> (#[trigger] final(self)@[j]).name == old(self)@[j].name
                    && final(self)@[j].size == old(self)@[j].size && final(self)@[j].fields@
                    == old(self)@[j].fields@.map_values(|f: McTypeDefField| leaf_updated(f, n@, vt, x, y, m)),
    {
        let len = self.0.len();
        let mut i: usize = 0;
        while i < len
            invariant
                i <= len,
                len == old(self)@.len(),
                self@.len() == len,
                forall|j: int|
                    0 <= j < i ==> (#[trigger] self@[j]).name == old(self)@[j].name && self@[j].size
                        == old(self)@[j].size && self@[j].fields@ == old(self)@[j].fields@.map_values(
                        |f: McTypeDefField| leaf_updated(f, n@, vt, x, y, m),
                    ),
                forall|j: int| i <= j < len ==> #[trigger] self@[j] == old(self)@[j],
            decreases len - i,
        {
            self.get_mut(i).update_leaf_fields(n, vt, x, y, m);
            i += 1;
        }
    }

    pub fn is_empty(&self) -> (b: bool)
        ensures
            b == (self@.len() == 0),
    {
        self.0.len() == 0
    }

    pub fn push(&mut self, object: McTypeDef)
        ensures
            final(self)@ == old(self)@.push(object),
    {
        self.0.push(object);
    }

    pub fn clear(&mut self)
        ensures
            final(self)@ == Seq::<McTypeDef>::empty(),
    {
        self.0.clear();
    }

    /// Position of the first typedef with the given name
    pub fn find_typedef_index(&self, name: &str) -> (r: Option<usize>)
        ensures
            match r {
                Some(i) => i < self@.len() && self@[i as int].name@ == name@ && forall|j: int|
                    0 <= j < i ==> (#[trigger] self@[j]).name@ != name@,
                None => forall|j: int| 0 <= j < self@.len() ==> (#[trigger] self@[j]).name@ != name@,
            },
    {
        let mut i: usize = 0;
        while i < self.0.len()
            invariant
                i <= self@.len(),
                forall|j: int| 0 <= j < i ==> (#[trigger] self@[j]).name@ != name@,
            decreases self@.len() - i,
        {
            if str_eq(self.0[i].name.as_str(), name) {
                return Some(i);
            }
            i += 1;
        }
        None
    }

    /// Position of the last typedef with the given name
    pub fn find_typedef_last_index(&self, name: &str) -> (r: Option<usize>)
        ensures
            match r {
                Some(i) => i == typedef_pos(self@, name@) && i < self@.len(),
                None => typedef_pos(self@, name@) == -1,
            },
    {
        let mut i = self.0.len();
        assert(self@.take(i as int) =~= self@);
        while i > 0
            invariant
                i <= self@.len(),
                typedef_pos(self@, name@) == typedef_pos(self@.take(i as int), name@),
            decreases i,
        {
            if str_eq(self.0[i - 1].name.as_str(), name) {
                assert(self@.take(i as int).last() == self@[i - 1]);
                return Some(i - 1);
            }
            assert(self@.take(i as int).drop_last() =~= self@.take(i - 1));
            i -= 1;
        }
        None
    }

    /// The first typedef with the given name
    pub fn find_typedef(&self, name: &str) -> (r: Option<&McTypeDef>)
        ensures
            match r {
                Some(t) => exists|i: int|
                    0 <= i < self@.len() && *t == self@[i] && self@[i].name@ == name@ && forall|
                        j: int,
                    |
                        0 <= j < i ==> (#[trigger] self@[j]).name@ != name@,
                None => forall|j: int| 0 <= j < self@.len() ==> (#[trigger] self@[j]).name@ != name@,
            },
    {
        match self.find_typedef_index(name) {
            Some(i) => Some(&self.0[i]),
            None => None,
        }
    }

    /// The first typedef with the given name, for modification
    pub fn find_typedef_mut(&mut self, name: &str) -> (r: Option<&mut McTypeDef>)
        ensures
            match r {
                Some(t) => exists|i: int|
                    0 <= i < old(self)@.len() && *t == old(self)@[i] && old(self)@[i].name@ == name@
                        && (forall|j: int|
                        0 <= j < i ==> (#[trigger] old(self)@[j]).name@ != name@) && final(self)@
                        == old(self)@.update(i, *final(t)),
                None => final(self)@ == old(self)@ && forall|j: int|
                    0 <= j < old(self)@.len() ==> (#[trigger] old(self)@[j]).name@ != name@,
            },
    {
        match self.find_typedef_index(name) {
            Some(i) => Some(&mut self.0[i]),
            None => None,
        }
    }

    /// Sort by name, typedefs with the same name keep their order
    pub fn sort_by_name(&mut self)
        ensures
            final(self)@.to_multiset() == old(self)@.to_multiset(),
            vstd::relations::sorted_by(final(self)@, |a: McTypeDef, b: McTypeDef| typedef_name_le(a, b)),
            forall|n: Seq<char>| #[trigger] typedefs_named(final(self)@, n) == typedefs_named(old(self)@, n),
    {
        let le = |a: &McTypeDef, b: &McTypeDef| -> (r: bool)
            ensures
                r == typedef_name_le(*a, *b),
            { str_compare(a.name.as_str(), b.name.as_str()) <= 0 };
        let ghost rel = |a: McTypeDef, b: McTypeDef| typedef_name_le(a, b);
        proof {
            assert forall|x: McTypeDef, y: McTypeDef, z: McTypeDef|
                #[trigger] rel(x, y) && #[trigger] rel(y, z) implies rel(x, z) by {
                lemma_lex_le_trans(x.name@, y.name@, z.name@);
            }
            assert forall|x: McTypeDef, y: McTypeDef| #[trigger] rel(x, y) || #[trigger] rel(y, x) by {
                lemma_lex_le_total(x.name@, y.name@);
            }
        }
        sort_by_le(&mut self.0, &le, Ghost(rel));
        proof {
            assert forall|n: Seq<char>| #[trigger] typedefs_named(self@, n) == typedefs_named(old(self)@, n) by {
                let pred = |y: McTypeDef| y.name@ == n;
                assert forall|a: McTypeDef, b: McTypeDef| #[trigger] pred(a) && #[trigger] pred(b) implies rel(a, b) && rel(b, a) by {
                    lemma_lex_ord_antisym(a.name@, b.name@);
                }
                assert forall|a: McTypeDef, b: McTypeDef| pred(a) && #[trigger] rel(a, b) && #[trigger] rel(b, a) implies pred(b) by {
                    lemma_lex_ord_antisym(a.name@, b.name@);
                }
                lemma_stable_filter(old(self)@, self@, rel, pred);
            }
        }
    }
}

//-------------------------------------------------------------------------------------------------
// Flattening

/// What an instance is, as far as flattening is concerned: name, type and address
pub type InstanceView = (Seq<char>, McDimType, McAddressView);

pub open spec fn instance_view(i: McInstance) -> InstanceView {
    (i.name@, i.dim_type, i.address@)
}

pub open spec fn instance_views(s: Seq<McInstance>) -> Seq<InstanceView> {
    s.map_values(|i: McInstance| instance_view(i))
}

/// Some instance has this name and address
pub open spec fn has_view(s: Seq<InstanceView>, name: Seq<char>, address: McAddressView) -> bool {
    exists|j: int| 0 <= j < s.len() && (#[trigger] s[j]).0 == name && s[j].2 == address
}

/// The list after adding each new instance in turn, leaving out those whose name and address
/// are already there
pub open spec fn add_all_views(s: Seq<InstanceView>, new: Seq<InstanceView>) -> Seq<InstanceView>
    decreases new.len(),
{
    if new.len() == 0 {
        s
    } else {
        let t = add_all_views(s, new.drop_last());
        if has_view(t, new.last().0, new.last().2) {
            t
        } else {
            t.push(new.last())
        }
    }
}

/// Adding a concatenation adds one part after the other
pub proof fn lemma_add_all_views_concat(s: Seq<InstanceView>, a: Seq<InstanceView>, b: Seq<InstanceView>)
    ensures
        add_all_views(s, a + b) == add_all_views(add_all_views(s, a), b),
    decreases b.len(),
{
    if b.len() == 0 {
        assert(a + b =~= a);
    } else {
        assert((a + b).drop_last() =~= a + b.drop_last());
        assert((a + b).last() == b.last());
        lemma_add_all_views_concat(s, a, b.drop_last());
    }
}

/// An address moved by an offset: A2L addresses move their address (wrapping in 32 bits), the
/// others their offset
pub open spec fn offset_address(a: McAddressView, off: int) -> McAddressView {
    if a.addr_mode == McAddrMode::A2l || a.addr_mode == McAddrMode::A2lEvent {
        McAddressView { a2l_addr: wrap_u32(a.a2l_addr + off), ..a }
    } else {
        McAddressView { addr_offset: (a.addr_offset + off) as i32, ..a }
    }
}

/// The leaf instances of the first k fields of typedef t, for an instance named `name` at
/// address `root`, with the typedef at offset `off`
/// Leaf names are the field names, prefixed by the names of the enclosing fields and instance
/// with '.'
pub open spec fn fields_leaves(
    tds: Seq<McTypeDef>,
    rank: Seq<nat>,
    t: int,
    k: int,
    name: Seq<char>,
    root: McAddressView,
    off: int,
) -> Seq<InstanceView>
    decreases (if 0 <= t < rank.len() {
        rank[t]
    } else {
        0
    }), k,
{
    if !(0 <= t < tds.len() && rank.len() == tds.len() && 0 < k <= tds[t].fields@.len()) {
        Seq::empty()
    } else {
        let f = tds[t].fields@[k - 1];
        let prev = fields_leaves(tds, rank, t, k - 1, name, root, off);
        let m = name + seq!['.'] + f.name@;
        match f.dim_type.value_type {
            McValueType::TypeDef(n) => {
                let j = typedef_pos(tds, n@);
                if 0 <= j < tds.len() && rank[j] < rank[t] {
                    prev + fields_leaves(tds, rank, j, tds[j].fields@.len() as int, m, root, off + f.offset)
                } else {
                    prev
                }
            },
            _ => prev.push((m, f.dim_type, offset_address(root, off + f.offset))),
        }
    }
}

/// Every typedef field resolves to a typedef of lower rank, leaf instances are specified,
/// offsets stay in i32 and the leaf addresses can be moved
pub open spec fn fields_fit(
    tds: Seq<McTypeDef>,
    rank: Seq<nat>,
    t: int,
    k: int,
    root: McAddressView,
    off: int,
) -> bool
    decreases (if 0 <= t < rank.len() {
        rank[t]
    } else {
        0
    }), k,
{
    if !(0 <= t < tds.len() && rank.len() == tds.len() && 0 < k <= tds[t].fields@.len()) {
        true
    } else {
        let f = tds[t].fields@[k - 1];
        &&& fields_fit(tds, rank, t, k - 1, root, off)
        &&& off + f.offset <= i32::MAX
        &&& match f.dim_type.value_type {
            McValueType::TypeDef(n) => {
                let j = typedef_pos(tds, n@);
                &&& 0 <= j < tds.len()
                &&& rank[j] < rank[t]
                &&& fields_fit(tds, rank, j, tds[j].fields@.len() as int, root, off + f.offset)
            },
            _ => {
                &&& f.dim_type.mc_support_data.object_type != McObjectType::Unspecified
                &&& root.addr_mode != McAddrMode::Undef
                &&& (root.addr_mode == McAddrMode::Cal || root.addr_mode == McAddrMode::Dyn
                    || root.addr_mode == McAddrMode::Abs) ==> i32::MIN <= root.addr_offset + off
                    + f.offset <= i32::MAX
            },
        }
    }
}

/// The instances that replace one instance: the leaves of its typedef, none where its typedef
/// is missing, itself where it is no typedef instance
pub open spec fn instance_leaves(tds: Seq<McTypeDef>, rank: Seq<nat>, i: McInstance) -> Seq<InstanceView> {
    match i.dim_type.value_type {
        McValueType::TypeDef(n) => {
            let t = typedef_pos(tds, n@);
            if t >= 0 {
                fields_leaves(tds, rank, t, tds[t].fields@.len() as int, i.name@, i.address@, 0)
            } else {
                Seq::empty()
            }
        },
        _ => seq![instance_view(i)],
    }
}

/// The replacement instances of the first n instances, in order
pub open spec fn instances_leaves(tds: Seq<McTypeDef>, rank: Seq<nat>, s: Seq<McInstance>) -> Seq<InstanceView>
    decreases s.len(),
{
    if s.len() == 0 {
        Seq::empty()
    } else {
        instances_leaves(tds, rank, s.drop_last()) + instance_leaves(tds, rank, s.last())
    }
}

/// An instance can be flattened: a typedef instance is no array, and its leaves fit; another
/// instance has an object type
pub open spec fn instance_flattens(tds: Seq<McTypeDef>, rank: Seq<nat>, i: McInstance) -> bool {
    match i.dim_type.value_type {
        McValueType::TypeDef(n) => {
            let t = typedef_pos(tds, n@);
            &&& i.dim_type.x_dim <= 1
            &&& t >= 0 ==> fields_fit(tds, rank, t, tds[t].fields@.len() as int, i.address@, 0)
        },
        _ => i.dim_type.mc_support_data.object_type != McObjectType::Unspecified,
    }
}

/// Every instance of a list can be flattened
pub open spec fn instances_flatten(tds: Seq<McTypeDef>, rank: Seq<nat>, s: Seq<McInstance>) -> bool {
    &&& rank.len() == tds.len()
    &&& forall|i: int| 0 <= i < s.len() ==> instance_flattens(tds, rank, #[trigger] s[i])
}

/// Adding an instance to a list, as the view sees it
proof fn lemma_has_instance_view(s: Seq<McInstance>, name: Seq<char>, address: McAddressView)
    ensures
        has_instance(s, name, address) == has_view(instance_views(s), name, address),
{
    if has_instance(s, name, address) {
        let j = choose|j: int| 0 <= j < s.len() && (#[trigger] s[j]).address@ == address && s[j].name@ == name;
        assert(instance_views(s)[j].0 == name && instance_views(s)[j].2 == address);
    }
    if has_view(instance_views(s), name, address) {
        let j = choose|j: int|
            0 <= j < instance_views(s).len() && (#[trigger] instance_views(s)[j]).0 == name
                && instance_views(s)[j].2 == address;
        assert(s[j].address@ == address && s[j].name@ == name);
    }
}

/// Add an instance unless one of the same name and address exists
fn add_leaf(list: &mut McInstanceList, name: McIdentifier, dim_type: McDimType, address: McAddress)
    requires
        dim_type.mc_support_data.object_type != McObjectType::Unspecified,
    ensures
        instance_views(final(list)@) == add_all_views(
            instance_views(old(list)@),
            seq![(name@, dim_type, address@)],
        ),
{
    let ghost v = (name@, dim_type, address@);
    let ghost before = instance_views(list@);
    proof {
        lemma_has_instance_view(list@, name@, address@);
        assert(seq![v].drop_last() =~= Seq::<InstanceView>::empty());
        assert(seq![v].last() == v);
        assert(add_all_views(before, Seq::<InstanceView>::empty()) == before);
        assert(add_all_views(before, seq![v]) == if has_view(before, v.0, v.2) {
            before
        } else {
            before.push(v)
        });
    }
    let r = list.add_instance(name, dim_type, address);
    proof {
        if r is Ok {
            assert(instance_views(list@) =~= before.push(v));
        } else {
            assert(instance_views(list@) =~= before);
        }
    }
}

/// "name.field"
fn mangle(name: &str, field: &str) -> (r: String)
    ensures
        r@ == name@ + seq!['.'] + field@,
{
    let mut s = str_to_string(name);
    push_char(&mut s, '.');
    push_str(&mut s, field);
    s
}

/// Adds the leaf instances of typedef t, for an instance named `name` at address `root`, with
/// the typedef at offset `off`
fn collect_flattened_instances(
    tds: &McTypeDefList,
    new_instances: &mut McInstanceList,
    name: &str,
    root: &McAddress,
    off: i32,
    t: usize,
    Ghost(rank): Ghost<Seq<nat>>,
)
    requires
        rank.len() == tds@.len(),
        is_identifier(name@),
        t < tds@.len(),
        0 <= off,
        fields_fit(tds@, rank, t as int, tds@[t as int].fields@.len() as int, root@, off as int),
    ensures
        instance_views(final(new_instances)@) == add_all_views(
            instance_views(old(new_instances)@),
            fields_leaves(tds@, rank, t as int, tds@[t as int].fields@.len() as int, name@, root@, off as int),
        ),
    decreases rank[t as int],
{
    let td = tds.get(t).unwrap();
    let n = td.fields.len();
    let mut k: usize = 0;
    assert(add_all_views(instance_views(old(new_instances)@), Seq::empty()) == instance_views(
        old(new_instances)@,
    ));
    while k < n
        invariant
            rank.len() == tds@.len(),
            is_identifier(name@),
            t < tds@.len(),
            0 <= off,
            *td == tds@[t as int],
            n == td.fields@.len(),
            k <= n,
            fields_fit(tds@, rank, t as int, n as int, root@, off as int),
            instance_views(new_instances@) == add_all_views(
                instance_views(old(new_instances)@),
                fields_leaves(tds@, rank, t as int, k as int, name@, root@, off as int),
            ),
        decreases n - k,
    {
        proof {
            lemma_fields_fit_prefix(tds@, rank, t as int, n as int, k + 1, root@, off as int);
        }
        let f = td.fields.get(k);
        let ghost prev = fields_leaves(tds@, rank, t as int, k as int, name@, root@, off as int);
        f.name.is_valid();
        let m = mangle(name, f.name.as_str());
        let sub_off: i32 = off + f.offset as i32;
        match f.dim_type.value_type {
            McValueType::TypeDef(tn) => {
                match tds.find_typedef_last_index(tn.as_str()) {
                    Some(j) => {
                        proof {
                            assert(tds@[t as int].fields@[k as int].dim_type.value_type is TypeDef);
                            lemma_identifier_concat(name@, tds@[t as int].fields@[k as int].name@);
                        }
                        collect_flattened_instances(tds, new_instances, m.as_str(), root, sub_off, j, Ghost(rank));
                        proof {
                            lemma_add_all_views_concat(
                                instance_views(old(new_instances)@),
                                prev,
                                fields_leaves(tds@, rank, j as int, tds@[j as int].fields@.len() as int, m@, root@, sub_off as int),
                            );
                        }
                    },
                    None => {
                        assert(false);
                    },
                }
            },
            _ => {
                let mut address = *root;
                address.add_addr_offset(sub_off);
                proof {
                    lemma_identifier_concat(name@, tds@[t as int].fields@[k as int].name@);
                    lemma_identifier_of_identity(m@);
                }
                let id = McIdentifier::from_string(m);
                add_leaf(new_instances, id, f.dim_type, address);
                proof {
                    lemma_add_all_views_concat(
                        instance_views(old(new_instances)@),
                        prev,
                        seq![(id@, f.dim_type, address@)],
                    );
                    assert(prev.push((id@, f.dim_type, address@)) =~= prev + seq![(id@, f.dim_type, address@)]);
                }
            },
        }
        k += 1;
    }
}

/// "name.field" is an identifier, where name and field are
proof fn lemma_identifier_concat(a: Seq<char>, b: Seq<char>)
    requires
        is_identifier(a),
        is_identifier(b),
    ensures
        is_identifier(a + seq!['.'] + b),
{
    let m = a + seq!['.'] + b;
    assert forall|i: int| 0 <= i < m.len() implies crate::mc_text::is_ident_char(#[trigger] m[i]) by {
        if i < a.len() {
            assert(m[i] == a[i]);
        } else if i == a.len() {
            assert(m[i] == '.');
        } else {
            assert(m[i] == b[i - a.len() - 1]);
        }
    }
}

/// What fits for all fields fits for a prefix of them
proof fn lemma_fields_fit_prefix(
    tds: Seq<McTypeDef>,
    rank: Seq<nat>,
    t: int,
    n: int,
    k: int,
    root: McAddressView,
    off: int,
)
    requires
        fields_fit(tds, rank, t, n, root, off),
        0 <= t < tds.len(),
        rank.len() == tds.len(),
        n <= tds[t].fields@.len(),
        0 <= k <= n,
    ensures
        fields_fit(tds, rank, t, k, root, off),
    decreases n - k,
{
    if k < n {
        lemma_fields_fit_prefix(tds, rank, t, n - 1, k, root, off);
    }
}

/// No two instances share name and address
pub open spec fn views_unique(s: Seq<InstanceView>) -> bool {
    forall|i: int, j: int|
        0 <= i < j < s.len() ==> !((#[trigger] s[i]).0 == (#[trigger] s[j]).0 && s[i].2 == s[j].2)
}

/// No instance is an instance of a typedef
pub open spec fn no_typedef_views(s: Seq<InstanceView>) -> bool {
    forall|i: int| 0 <= i < s.len() ==> !((#[trigger] s[i]).1.value_type is TypeDef)
}

/// Adding instances, leaving out those whose name and address are there, keeps names and
/// addresses unique
pub proof fn lemma_add_all_views_unique(s: Seq<InstanceView>, new: Seq<InstanceView>)
    requires
        views_unique(s),
    ensures
        views_unique(add_all_views(s, new)),
    decreases new.len(),
{
    if new.len() > 0 {
        lemma_add_all_views_unique(s, new.drop_last());
        let t = add_all_views(s, new.drop_last());
        let x = new.last();
        if !has_view(t, x.0, x.2) {
            let u = t.push(x);
            assert forall|i: int, j: int| 0 <= i < j < u.len() implies !((#[trigger] u[i]).0 == (
            #[trigger] u[j]).0 && u[i].2 == u[j].2) by {
                if j == t.len() {
                    assert(u[i] == t[i]);
                    if u[i].0 == x.0 && u[i].2 == x.2 {
                        assert(has_view(t, x.0, x.2));
                    }
                } else {
                    assert(u[i] == t[i] && u[j] == t[j]);
                }
            }
        }
    }
}

/// Adding instances that are no typedef instances to a list without typedef instances
pub proof fn lemma_add_all_views_no_typedef(s: Seq<InstanceView>, new: Seq<InstanceView>)
    requires
        no_typedef_views(s),
        no_typedef_views(new),
    ensures
        no_typedef_views(add_all_views(s, new)),
    decreases new.len(),
{
    if new.len() > 0 {
        assert(no_typedef_views(new.drop_last()));
        lemma_add_all_views_no_typedef(s, new.drop_last());
        let t = add_all_views(s, new.drop_last());
        assert(!(new.last().1.value_type is TypeDef));
        if !has_view(t, new.last().0, new.last().2) {
            assert forall|i: int| 0 <= i < t.push(new.last()).len() implies !((#[trigger] t.push(
                new.last(),
            )[i]).1.value_type is TypeDef) by {
                if i < t.len() {
                    assert(t.push(new.last())[i] == t[i]);
                }
            }
        }
    }
}

/// Leaves are no typedef instances
pub proof fn lemma_fields_leaves_no_typedef(
    tds: Seq<McTypeDef>,
    rank: Seq<nat>,
    t: int,
    k: int,
    name: Seq<char>,
    root: McAddressView,
    off: int,
)
    ensures
        no_typedef_views(fields_leaves(tds, rank, t, k, name, root, off)),
    decreases (if 0 <= t < rank.len() {
        rank[t]
    } else {
        0
    }), k,
{
    if 0 <= t < tds.len() && rank.len() == tds.len() && 0 < k <= tds[t].fields@.len() {
        let f = tds[t].fields@[k - 1];
        let prev = fields_leaves(tds, rank, t, k - 1, name, root, off);
        lemma_fields_leaves_no_typedef(tds, rank, t, k - 1, name, root, off);
        let m = name + seq!['.'] + f.name@;
        match f.dim_type.value_type {
            McValueType::TypeDef(n) => {
                let j = typedef_pos(tds, n@);
                if 0 <= j < tds.len() && rank[j] < rank[t] {
                    let sub = fields_leaves(tds, rank, j, tds[j].fields@.len() as int, m, root, off + f.offset);
                    lemma_fields_leaves_no_typedef(tds, rank, j, tds[j].fields@.len() as int, m, root, off + f.offset);
                    assert forall|i: int| 0 <= i < (prev + sub).len() implies !((#[trigger] (prev
                        + sub)[i]).1.value_type is TypeDef) by {
                        if i < prev.len() {
                            assert((prev + sub)[i] == prev[i]);
                        } else {
                            assert((prev + sub)[i] == sub[i - prev.len()]);
                        }
                    }
                }
            },
            _ => {
                let x = (m, f.dim_type, offset_address(root, off + f.offset));
                assert forall|i: int| 0 <= i < prev.push(x).len() implies !((#[trigger] prev.push(
                    x,
                )[i]).1.value_type is TypeDef) by {
                    if i < prev.len() {
                        assert(prev.push(x)[i] == prev[i]);
                    }
                }
            },
        }
    }
}

/// The replacement instances are no typedef instances
pub proof fn lemma_instances_leaves_no_typedef(tds: Seq<McTypeDef>, rank: Seq<nat>, s: Seq<McInstance>)
    ensures
        no_typedef_views(instances_leaves(tds, rank, s)),
    decreases s.len(),
{
    if s.len() > 0 {
        lemma_instances_leaves_no_typedef(tds, rank, s.drop_last());
        let a = instances_leaves(tds, rank, s.drop_last());
        let b = instance_leaves(tds, rank, s.last());
        match s.last().dim_type.value_type {
            McValueType::TypeDef(n) => {
                let t = typedef_pos(tds, n@);
                if t >= 0 {
                    lemma_fields_leaves_no_typedef(tds, rank, t, tds[t].fields@.len() as int, s.last().name@, s.last().address@, 0);
                }
            },
            _ => {},
        }
        assert forall|i: int| 0 <= i < (a + b).len() implies !((#[trigger] (a + b)[i]).1.value_type is TypeDef) by {
            if i < a.len() {
                assert((a + b)[i] == a[i]);
            } else {
                assert((a + b)[i] == b[i - a.len()]);
            }
        }
    }
}

/// Replace the instances of typedefs by instances of their leaf fields, with mangled names
/// "instance.field.subfield", leaving out leaves whose name and address are already there;
/// instances of a missing typedef are dropped
pub fn flatten_instances(tds: &McTypeDefList, instances: &McInstanceList, Ghost(rank): Ghost<Seq<nat>>) -> (r:
    McInstanceList)
    requires
        instances_flatten(tds@, rank, instances@),
    ensures
        instance_views(r@) == add_all_views(Seq::empty(), instances_leaves(tds@, rank, instances@)),
        views_unique(instance_views(r@)),
        no_typedef_views(instance_views(r@)),
{
    let mut flat = McInstanceList::new();
    let n = instances.len();
    let mut i: usize = 0;
    assert(instance_views(flat@) =~= Seq::<InstanceView>::empty());
    while i < n
        invariant
            n == instances@.len(),
            i <= n,
            instances_flatten(tds@, rank, instances@),
            instance_views(flat@) == add_all_views(
                Seq::empty(),
                instances_leaves(tds@, rank, instances@.take(i as int)),
            ),
        decreases n - i,
    {
        let inst = instances.get(i);
        let ghost prev = instances_leaves(tds@, rank, instances@.take(i as int));
        proof {
            assert(instances@.take(i + 1).drop_last() =~= instances@.take(i as int));
            assert(instances@.take(i + 1).last() == instances@[i as int]);
            lemma_add_all_views_concat(Seq::empty(), prev, instance_leaves(tds@, rank, *inst));
            assert(instance_flattens(tds@, rank, instances@[i as int]));
        }
        inst.name.is_valid();
        match inst.dim_type.value_type {
            McValueType::TypeDef(tn) => {
                match tds.find_typedef_last_index(tn.as_str()) {
                    Some(t) => {
                        collect_flattened_instances(
                            tds,
                            &mut flat,
                            inst.name.as_str(),
                            &inst.address,
                            0,
                            t,
                            Ghost(rank),
                        );
                    },
                    None => {
                        assert(prev + Seq::<InstanceView>::empty() =~= prev);
                    },
                }
            },
            _ => {
                add_leaf(&mut flat, inst.name, inst.dim_type, inst.address);
            },
        }
        i += 1;
    }
    assert(instances@.take(n as int) =~= instances@);
    proof {
        lemma_add_all_views_unique(Seq::empty(), instances_leaves(tds@, rank, instances@));
        lemma_instances_leaves_no_typedef(tds@, rank, instances@);
        lemma_add_all_views_no_typedef(Seq::empty(), instances_leaves(tds@, rank, instances@));
    }
    flat
}

//-------------------------------------------------------------------------------------------------
// Checking that a registry can be flattened

/// Some rank of the typedefs lets every instance be flattened
pub open spec fn can_flatten(tds: Seq<McTypeDef>, insts: Seq<McInstance>) -> bool {
    exists|rank: Seq<nat>| instances_flatten(tds, rank, insts)
}

pub open spec fn rank_of(ranks: Seq<u64>) -> Seq<nat> {
    ranks.map_values(|x: u64| x as nat)
}

/// Position of the first typedef named n, or -1
pub open spec fn first_typedef_pos(s: Seq<McTypeDef>, n: Seq<char>) -> int {
    if exists|i: int| is_first_typedef(s, i, n) {
        choose|i: int| is_first_typedef(s, i, n)
    } else {
        -1
    }
}

/// Typedef i is the first named n
pub open spec fn is_first_typedef(s: Seq<McTypeDef>, i: int, n: Seq<char>) -> bool {
    &&& 0 <= i < s.len()
    &&& s[i].name@ == n
    &&& forall|j: int| 0 <= j < i ==> (#[trigger] s[j]).name@ != n
}

/// The first typedef of a name is at the first position of that name
pub proof fn lemma_first_typedef_pos(s: Seq<McTypeDef>, i: int, n: Seq<char>)
    requires
        is_first_typedef(s, i, n),
    ensures
        first_typedef_pos(s, n) == i,
{
    let c = choose|c: int| is_first_typedef(s, c, n);
    if c < i {
        assert(s[c].name@ != n);
    } else if i < c {
        assert(s[i].name@ != n);
    }
}

/// Position of the typedef a field of type name n refers to: the first of that name where
/// `first` is set, else the last; -1 where there is none
pub open spec fn ref_pos(tds: Seq<McTypeDef>, n: Seq<char>, first: bool) -> int {
    if first {
        first_typedef_pos(tds, n)
    } else {
        typedef_pos(tds, n)
    }
}

/// Each typedef that a typedef field refers to, where there is one, has a lower rank than the
/// typedef of the field: the typedefs form no cycle
pub open spec fn ranked_by(tds: Seq<McTypeDef>, rank: Seq<nat>, first: bool) -> bool {
    &&& rank.len() == tds.len()
    &&& forall|t: int, k: int|
        0 <= t < tds.len() && 0 <= k < tds[t].fields@.len() ==> match (#[trigger] tds[t].fields@[k]).dim_type.value_type {
            McValueType::TypeDef(n) => {
                let j = ref_pos(tds, n@, first);
                j >= 0 ==> rank[j] < rank[t]
            },
            _ => true,
        }
}

/// Each typedef of the set is ranked above the typedefs its fields refer to, which are in the
/// set too
pub open spec fn closed_ranked(tds: Seq<McTypeDef>, rank: Seq<nat>, first: bool, good: Set<int>) -> bool {
    &&& rank.len() == tds.len()
    &&& forall|t: int, k: int|
        good.contains(t) && 0 <= t < tds.len() && 0 <= k < tds[t].fields@.len() ==> match (#[trigger] tds[t].fields@[k]).dim_type.value_type {
            McValueType::TypeDef(n) => {
                let j = ref_pos(tds, n@, first);
                j >= 0 ==> good.contains(j) && rank[j] < rank[t]
            },
            _ => true,
        }
}

/// Each typedef of the set is ranked above the typedefs its fields refer to
pub open spec fn ranks_respected(tds: Seq<McTypeDef>, rank: Seq<nat>, first: bool, good: Set<int>) -> bool {
    forall|t: int, k: int|
        good.contains(t) && 0 <= t < tds.len() && 0 <= k < tds[t].fields@.len() ==> match (#[trigger] tds[t].fields@[k]).dim_type.value_type {
            McValueType::TypeDef(n) => {
                let j = ref_pos(tds, n@, first);
                j >= 0 ==> rank[j] < rank[t]
            },
            _ => true,
        }
}

/// The typedef that field f refers to, if any, is ranked, and below `above`
spec fn ref_ranked_below(tds: Seq<McTypeDef>, ranks: Seq<u64>, done: Seq<bool>, first: bool, f: McTypeDefField, above: int) -> bool {
    match f.dim_type.value_type {
        McValueType::TypeDef(n) => {
            let j = ref_pos(tds, n@, first);
            j >= 0 ==> done[j] && ranks[j] < above
        },
        _ => true,
    }
}

/// The typedefs already ranked refer only to typedefs already ranked, and of lower rank
spec fn ranked_so_far(tds: Seq<McTypeDef>, ranks: Seq<u64>, done: Seq<bool>, first: bool) -> bool {
    forall|t: int, k: int|
        0 <= t < tds.len() && done[t] && 0 <= k < tds[t].fields@.len() ==> ref_ranked_below(
            tds,
            ranks,
            done,
            first,
            #[trigger] tds[t].fields@[k],
            ranks[t] as int,
        )
}

/// A referred typedef is a position of the list, or -1
pub proof fn lemma_ref_pos_bound(tds: Seq<McTypeDef>, n: Seq<char>, first: bool)
    ensures
        -1 <= ref_pos(tds, n, first) < tds.len(),
{
    lemma_typedef_pos(tds, n);
}

/// Number of set flags
spec fn count_true(s: Seq<bool>) -> nat
    decreases s.len(),
{
    if s.len() == 0 {
        0
    } else {
        count_true(s.drop_last()) + if s.last() {
            1nat
        } else {
            0nat
        }
    }
}

proof fn lemma_count_true_bound(s: Seq<bool>)
    ensures
        count_true(s) <= s.len(),
        count_true(s) == s.len() ==> forall|i: int| 0 <= i < s.len() ==> s[i],
        (forall|i: int| 0 <= i < s.len() ==> s[i]) ==> count_true(s) == s.len(),
    decreases s.len(),
{
    if s.len() > 0 {
        lemma_count_true_bound(s.drop_last());
        if forall|i: int| 0 <= i < s.len() ==> s[i] {
            assert forall|i: int| 0 <= i < s.len() - 1 implies s.drop_last()[i] by {
                assert(s[i]);
            }
            assert(s.last());
        }
        if count_true(s) == s.len() {
            assert forall|i: int| 0 <= i < s.len() implies s[i] by {
                if i < s.len() - 1 {
                    assert(s.drop_last()[i] == s[i]);
                }
            }
        }
    }
}

proof fn lemma_count_true_none(s: Seq<bool>)
    requires
        forall|i: int| 0 <= i < s.len() ==> !s[i],
    ensures
        count_true(s) == 0,
    decreases s.len(),
{
    if s.len() > 0 {
        lemma_count_true_none(s.drop_last());
    }
}

proof fn lemma_count_true_set(s: Seq<bool>, i: int)
    requires
        0 <= i < s.len(),
        !s[i],
    ensures
        count_true(s.update(i, true)) == count_true(s) + 1,
    decreases s.len(),
{
    let u = s.update(i, true);
    if i == s.len() - 1 {
        assert(u.drop_last() =~= s.drop_last());
    } else {
        assert(u.drop_last() =~= s.drop_last().update(i, true));
        lemma_count_true_set(s.drop_last(), i);
    }
}

/// An unset flag of the set, of least rank among the unset flags of the set below k
proof fn lemma_min_unset(done: Seq<bool>, rank: Seq<nat>, good: Set<int>, k: int) -> (t: int)
    requires
        done.len() == rank.len(),
        0 <= k <= done.len(),
        exists|i: int| 0 <= i < k && good.contains(i) && !done[i],
    ensures
        0 <= t < k,
        good.contains(t),
        !done[t],
        forall|j: int| 0 <= j < k && good.contains(j) && !done[j] ==> rank[t] <= rank[j],
    decreases k,
{
    if exists|i: int| 0 <= i < k - 1 && good.contains(i) && !done[i] {
        let t0 = lemma_min_unset(done, rank, good, k - 1);
        if good.contains(k - 1) && !done[k - 1] && rank[k - 1] < rank[t0] {
            k - 1
        } else {
            t0
        }
    } else {
        k - 1
    }
}

/// Where the field typedef search finds a typedef, and where not
fn find_ref(tds: &McTypeDefList, name: &str, first: bool) -> (r: Option<usize>)
    ensures
        match r {
            Some(j) => j < tds@.len() && j == ref_pos(tds@, name@, first),
            None => ref_pos(tds@, name@, first) == -1,
        },
{
    if first {
        let r = tds.find_typedef_index(name);
        proof {
            match r {
                Some(j) => {
                    lemma_first_typedef_pos(tds@, j as int, name@);
                },
                None => {
                    assert(!exists|i: int| is_first_typedef(tds@, i, name@));
                },
            }
        }
        r
    } else {
        tds.find_typedef_last_index(name)
    }
}

/// A rank for each typedef, found in rounds: a typedef is ranked once all typedefs its fields
/// refer to are ranked, one above the highest of them; typedefs on a cycle keep 0
/// A field refers to the first typedef of its name where `first` is set, else to the last
/// Where some rank orders a set of typedefs closed under field references, the rank found
/// orders them too
pub(crate) fn typedef_ranks(
    tds: &McTypeDefList,
    first: bool,
    Ghost(wit): Ghost<Seq<nat>>,
    Ghost(good): Ghost<Set<int>>,
) -> (r: Vec<u64>)
    ensures
        r@.len() == tds@.len(),
        closed_ranked(tds@, wit, first, good) ==> ranks_respected(tds@, rank_of(r@), first, good),
{
    let n = tds.len();
    let ghost has_rank = closed_ranked(tds@, wit, first, good);
    let mut ranks: Vec<u64> = vec![0u64; n];
    let mut done: Vec<bool> = vec![false; n];
    proof {
        lemma_count_true_none(done@);
    }
    let mut round: usize = 0;
    while round < n
        invariant
            n == tds@.len(),
            ranks@.len() == n,
            done@.len() == n,
            round <= n,
            has_rank == closed_ranked(tds@, wit, first, good),
            forall|t: int| 0 <= t < n && #[trigger] done@[t] ==> ranks@[t] < count_true(done@),
            ranked_so_far(tds@, ranks@, done@, first),
            has_rank ==> count_true(done@) >= round || forall|t: int|
                0 <= t < n && #[trigger] good.contains(t) ==> done@[t],
        decreases n - round,
    {
        let ghost done0 = done@;
        let ghost count0 = count_true(done@);
        proof {
            lemma_count_true_bound(done@);
        }
        let ghost key = has_rank && exists|i: int| 0 <= i < n && good.contains(i) && !done0[i];
        let ghost tstar: int = if key {
            lemma_min_unset(done0, wit, good, n as int)
        } else {
            0
        };
        let ghost mut added = false;
        let mut i: usize = 0;
        while i < n
            invariant
                n == tds@.len(),
                ranks@.len() == n,
                done@.len() == n,
                done0.len() == n,
                i <= n,
                has_rank == closed_ranked(tds@, wit, first, good),
                forall|t: int| 0 <= t < n && #[trigger] done@[t] ==> ranks@[t] < count_true(done@),
                ranked_so_far(tds@, ranks@, done@, first),
                forall|t: int| 0 <= t < n && #[trigger] done0[t] ==> done@[t],
                forall|t: int| 0 <= t < n && #[trigger] done@[t] && !done0[t] ==> added,
                count_true(done@) >= count0,
                added ==> count_true(done@) >= count0 + 1,
                key ==> has_rank && 0 <= tstar < n && good.contains(tstar) && !done0[tstar],
                key ==> forall|j: int| 0 <= j < n && good.contains(j) && !done0[j] ==> wit[tstar] <= wit[j],
                key && i > tstar ==> added,
            decreases n - i,
        {
            if !done[i] {
                let fields = &tds.get(i).unwrap().fields;
                let ghost fs = tds@[i as int].fields@;
                let mut ok = true;
                let mut m: u64 = 0;
                let mut k: usize = 0;
                proof {
                    lemma_count_true_bound(done@);
                }
                while k < fields.len()
                    invariant
                        n == tds@.len(),
                        i < n,
                        ranks@.len() == n,
                        done@.len() == n,
                        done0.len() == n,
                        !done@[i as int],
                        fields@ == fs,
                        fs == tds@[i as int].fields@,
                        k <= fs.len(),
                        count_true(done@) <= n,
                        forall|t: int| 0 <= t < n && #[trigger] done@[t] ==> ranks@[t] < count_true(done@),
                        m <= count_true(done@),
                        ok ==> forall|k2: int| 0 <= k2 < k ==> ref_ranked_below(tds@, ranks@, done@, first, #[trigger] fs[k2], m as int),
                        key && i == tstar ==> ok,
                        has_rank == closed_ranked(tds@, wit, first, good),
                        forall|t: int| 0 <= t < n && #[trigger] done0[t] ==> done@[t],
                        key ==> forall|j: int| 0 <= j < n && good.contains(j) && !done0[j] ==> wit[tstar] <= wit[j],
                        key ==> has_rank && 0 <= tstar < n && good.contains(tstar),
                    decreases fs.len() - k,
                {
                    let f = fields.get(k);
                    assert(*f == tds@[i as int].fields@[k as int]);
                    match f.dim_type.value_type {
                        McValueType::TypeDef(tn) => {
                            match find_ref(tds, tn.as_str(), first) {
                                Some(j) => {
                                    if done[j] {
                                        let above = ranks[j] + 1;
                                        if above > m {
                                            m = above;
                                        }
                                    } else {
                                        proof {
                                            if key && i == tstar {
                                                assert(good.contains(j as int) && wit[j as int] < wit[tstar]);
                                                assert(!done0[j as int]);
                                            }
                                        }
                                        ok = false;
                                    }
                                },
                                None => {},
                            }
                        },
                        _ => {},
                    }
                    k += 1;
                }
                if ok {
                    let ghost db = done@;
                    let ghost rb = ranks@;
                    proof {
                        lemma_count_true_set(db, i as int);
                    }
                    ranks.set(i, m);
                    done.set(i, true);
                    proof {
                        added = true;
                        assert(done@ == db.update(i as int, true));
                        assert(ranks@ == rb.update(i as int, m));
                        assert forall|t: int, k2: int|
                            0 <= t < tds@.len() && done@[t] && 0 <= k2 < tds@[t].fields@.len() implies ref_ranked_below(
                                tds@,
                                ranks@,
                                done@,
                                first,
                                #[trigger] tds@[t].fields@[k2],
                                ranks@[t] as int,
                            ) by {
                            let f = tds@[t].fields@[k2];
                            if t == i {
                                assert(fs[k2] == f);
                                assert(ref_ranked_below(tds@, rb, db, first, f, m as int));
                            } else {
                                assert(db[t]);
                                assert(ref_ranked_below(tds@, rb, db, first, f, rb[t] as int));
                            }
                            match f.dim_type.value_type {
                                McValueType::TypeDef(nm) => {
                                    lemma_ref_pos_bound(tds@, nm@, first);
                                },
                                _ => {},
                            }
                        }
                    }
                }
            }
            i += 1;
        }
        round += 1;
    }
    proof {
        lemma_count_true_bound(done@);
        if has_rank {
            assert forall|t: int, k: int|
                good.contains(t) && 0 <= t < tds@.len() && 0 <= k < tds@[t].fields@.len() implies match (#[trigger] tds@[t].fields@[k]).dim_type.value_type {
                    McValueType::TypeDef(nm) => {
                        let j = ref_pos(tds@, nm@, first);
                        j >= 0 ==> rank_of(ranks@)[j] < rank_of(ranks@)[t]
                    },
                    _ => true,
                } by {
                assert(done@[t]);
                assert(ref_ranked_below(tds@, ranks@, done@, first, tds@[t].fields@[k], ranks@[t] as int));
                match tds@[t].fields@[k].dim_type.value_type {
                    McValueType::TypeDef(nm) => {
                        lemma_ref_pos_bound(tds@, nm@, first);
                    },
                    _ => {},
                }
            }
        }
    }
    ranks
}

/// Whether the first fields of typedef t fit, as `fields_fit` says, for all of them
fn check_fields_fit(tds: &McTypeDefList, ranks: &Vec<u64>, t: usize, root: &McAddress, off: i64) -> (r: bool)
    requires
        ranks@.len() == tds@.len(),
        t < tds@.len(),
        0 <= off <= i32::MAX,
    ensures
        r == fields_fit(
            tds@,
            rank_of(ranks@),
            t as int,
            tds@[t as int].fields@.len() as int,
            root@,
            off as int,
        ),
    decreases ranks@[t as int],
{
    let ghost rank = rank_of(ranks@);
    let td = tds.get(t).unwrap();
    let n = td.fields.len();
    let mut k: usize = 0;
    while k < n
        invariant
            ranks@.len() == tds@.len(),
            rank == rank_of(ranks@),
            t < tds@.len(),
            0 <= off <= i32::MAX,
            *td == tds@[t as int],
            n == td.fields@.len(),
            k <= n,
            fields_fit(tds@, rank, t as int, k as int, root@, off as int),
        decreases n - k,
    {
        let f = td.fields.get(k);
        let sub_off: i64 = off + f.offset as i64;
        let ghost cond = fields_fit(tds@, rank, t as int, (k + 1) as int, root@, off as int);
        proof {
            assert(rank[t as int] == ranks@[t as int] as nat);
        }
        let ok = if sub_off > i32::MAX as i64 {
            false
        } else {
            match f.dim_type.value_type {
                McValueType::TypeDef(tn) => {
                    match tds.find_typedef_last_index(tn.as_str()) {
                        Some(j) => {
                            if ranks[j] < ranks[t] {
                                proof {
                                    assert(rank[j as int] == ranks@[j as int] as nat);
                                }
                                check_fields_fit(tds, ranks, j, root, sub_off)
                            } else {
                                proof {
                                    assert(rank[j as int] == ranks@[j as int] as nat);
                                }
                                false
                            }
                        },
                        None => false,
                    }
                },
                _ => {
                    let mode = root.get_addr_mode();
                    if f.dim_type.mc_support_data.object_type == McObjectType::Unspecified {
                        false
                    } else if mode == McAddrMode::Undef {
                        false
                    } else if mode == McAddrMode::Cal || mode == McAddrMode::Dyn || mode
                        == McAddrMode::Abs {
                        let a: i64 = root.offset_field() as i64 + sub_off;
                        i32::MIN as i64 <= a && a <= i32::MAX as i64
                    } else {
                        true
                    }
                },
            }
        };
        if !ok {
            proof {
                assert(!cond);
                if fields_fit(tds@, rank, t as int, n as int, root@, off as int) {
                    lemma_fields_fit_prefix(tds@, rank, t as int, n as int, (k + 1) as int, root@, off as int);
                }
            }
            return false;
        }
        k += 1;
    }
    true
}

/// Whether an instance can be flattened, as `instance_flattens` says
fn check_instance(tds: &McTypeDefList, ranks: &Vec<u64>, inst: &McInstance) -> (r: bool)
    requires
        ranks@.len() == tds@.len(),
    ensures
        r == instance_flattens(tds@, rank_of(ranks@), *inst),
{
    match inst.dim_type.value_type {
        McValueType::TypeDef(tn) => {
            if inst.dim_type.x_dim > 1 {
                return false;
            }
            match tds.find_typedef_last_index(tn.as_str()) {
                Some(t) => check_fields_fit(tds, ranks, t, &inst.address, 0),
                None => true,
            }
        },
        _ => inst.dim_type.mc_support_data.object_type != McObjectType::Unspecified,
    }
}

/// The typedefs whose fields fit, as `fields_fit` says, at some address and offset
pub open spec fn fitting_typedefs(tds: Seq<McTypeDef>, rank: Seq<nat>) -> Set<int> {
    Set::new(
        |t: int|
            0 <= t < tds.len() && exists|root: McAddressView, off: int|
                fields_fit(tds, rank, t, tds[t].fields@.len() as int, root, off),
    )
}

/// The fitting typedefs refer only to fitting typedefs, of lower rank
proof fn lemma_fitting_closed(tds: Seq<McTypeDef>, rank: Seq<nat>)
    requires
        rank.len() == tds.len(),
    ensures
        closed_ranked(tds, rank, false, fitting_typedefs(tds, rank)),
{
    let good = fitting_typedefs(tds, rank);
    assert forall|t: int, k: int|
        good.contains(t) && 0 <= t < tds.len() && 0 <= k < tds[t].fields@.len() implies match (#[trigger] tds[t].fields@[k]).dim_type.value_type {
            McValueType::TypeDef(n) => {
                let j = ref_pos(tds, n@, false);
                j >= 0 ==> good.contains(j) && rank[j] < rank[t]
            },
            _ => true,
        } by {
        let (root, off) = choose|root: McAddressView, off: int|
            fields_fit(tds, rank, t, tds[t].fields@.len() as int, root, off);
        lemma_fields_fit_prefix(tds, rank, t, tds[t].fields@.len() as int, k + 1, root, off);
        let f = tds[t].fields@[k];
        match f.dim_type.value_type {
            McValueType::TypeDef(n) => {
                let j = typedef_pos(tds, n@);
                assert(fields_fit(tds, rank, j, tds[j].fields@.len() as int, root, off + f.offset));
                assert(good.contains(j));
            },
            _ => {},
        }
    }
}

/// Fields that fit under one rank fit under any rank that orders the fitting typedefs
proof fn lemma_fields_fit_rerank(
    tds: Seq<McTypeDef>,
    rank: Seq<nat>,
    other: Seq<nat>,
    t: int,
    k: int,
    root: McAddressView,
    off: int,
)
    requires
        rank.len() == tds.len(),
        other.len() == tds.len(),
        closed_ranked(tds, rank, false, fitting_typedefs(tds, rank)),
        ranks_respected(tds, other, false, fitting_typedefs(tds, rank)),
        fitting_typedefs(tds, rank).contains(t),
        fields_fit(tds, rank, t, k, root, off),
    ensures
        fields_fit(tds, other, t, k, root, off),
    decreases (if 0 <= t < rank.len() {
        rank[t]
    } else {
        0
    }), k,
{
    let good = fitting_typedefs(tds, rank);
    if 0 <= t < tds.len() && 0 < k <= tds[t].fields@.len() {
        let f = tds[t].fields@[k - 1];
        lemma_fields_fit_rerank(tds, rank, other, t, k - 1, root, off);
        match f.dim_type.value_type {
            McValueType::TypeDef(n) => {
                let j = typedef_pos(tds, n@);
                assert(good.contains(j) && rank[j] < rank[t]);
                assert(other[j] < other[t]);
                lemma_fields_fit_rerank(
                    tds,
                    rank,
                    other,
                    j,
                    tds[j].fields@.len() as int,
                    root,
                    off + f.offset,
                );
            },
            _ => {},
        }
    }
}

/// Whether the instances of a registry can be flattened with its typedefs: the typedef
/// references they reach resolve and form no cycle, typedef instances are no arrays, leaves
/// have an object type, and offsets stay in range
pub fn check_flatten(tds: &McTypeDefList, insts: &McInstanceList) -> (r: bool)
    ensures
        r == can_flatten(tds@, insts@),
{
    let ghost wit = choose|rank: Seq<nat>| instances_flatten(tds@, rank, insts@);
    let ghost good = fitting_typedefs(tds@, wit);
    proof {
        if can_flatten(tds@, insts@) {
            lemma_fitting_closed(tds@, wit);
        }
    }
    let ranks = typedef_ranks(tds, false, Ghost(wit), Ghost(good));
    let ghost rank = rank_of(ranks@);
    let n = insts.len();
    let mut i: usize = 0;
    while i < n
        invariant
            n == insts@.len(),
            i <= n,
            ranks@.len() == tds@.len(),
            rank == rank_of(ranks@),
            can_flatten(tds@, insts@) ==> closed_ranked(tds@, wit, false, good) && ranks_respected(
                tds@,
                rank,
                false,
                good,
            ) && instances_flatten(tds@, wit, insts@),
            good == fitting_typedefs(tds@, wit),
            forall|k: int| 0 <= k < i ==> instance_flattens(tds@, rank, #[trigger] insts@[k]),
        decreases n - i,
    {
        let inst = insts.get(i);
        if !check_instance(tds, &ranks, inst) {
            proof {
                if can_flatten(tds@, insts@) {
                    assert(instance_flattens(tds@, wit, insts@[i as int]));
                    match inst.dim_type.value_type {
                        McValueType::TypeDef(nm) => {
                            let t = typedef_pos(tds@, nm@);
                            if t >= 0 {
                                lemma_typedef_pos(tds@, nm@);
                                let len = tds@[t].fields@.len() as int;
                                assert(fields_fit(tds@, wit, t, len, inst.address@, 0));
                                assert(good.contains(t));
                                lemma_fields_fit_rerank(tds@, wit, rank, t, len, inst.address@, 0);
                            }
                        },
                        _ => {},
                    }
                }
            }
            return false;
        }
        i += 1;
    }
    assert(instances_flatten(tds@, rank, insts@));
    true
}

} // verus!
