// Registration of a structure type described field by field: its fields as instances, or the
// structure as a typedef (with the typedefs of its nested structures) and an instance of it
//  FieldModel, StructModel, register_struct

use vstd::prelude::*;

use crate::mc_address::{McAddrMode, McAddress, McAddressView, XCP_ADDR_EXT_SEG, event_dyn_view};
use crate::mc_instance::McInstance;
use crate::mc_support::{McObjectQualifier, McObjectType, McSupportData, support_new};
use crate::mc_text::{McIdentifier, McText, is_identifier};
use crate::mc_type::{McDimType, McValueType};
use crate::mc_typedef::{
    InstanceView, McTypeDef, McTypeDefField, add_all_views, field_pos, first_typedef_pos,
    has_view, instance_view, instance_views, is_first_typedef, lemma_first_typedef_pos,
};
use crate::registry::{Registry, same_except_typedefs, typedef_field_added};
use crate::strings::{leak_string, push_char, push_str, str_to_string};

verus! {

//-------------------------------------------------------------------------------------------------
// Model of a type description

/// A field of a structure type, as its type description gives it; its floating point limits,
/// step and conversion are held apart from it
#[derive(Clone, Copy)]
pub struct FieldModel {
    pub name: McIdentifier,
    pub comment: McText,
    pub unit: McText,
    /// The value type; a typedef reference for a field of structure type
    pub value_type: McValueType,
    pub x_dim: u16,
    pub y_dim: u16,
    /// Offset of the field in the structure
    pub addr_offset: u16,
    pub is_axis: bool,
    pub is_characteristic: bool,
    pub is_measurement: bool,
    pub is_volatile: bool,
    pub x_axis_ref: Option<McIdentifier>,
    pub y_axis_ref: Option<McIdentifier>,
    /// For a field of structure type: the position of that structure in the model list
    pub nested: Option<usize>,
}

/// A structure type: name, size in bytes and fields
pub struct StructModel {
    pub name: McIdentifier,
    pub size: usize,
    pub fields: Vec<FieldModel>,
}

/// Each nested structure stands before the structure of its field in the model list
pub open spec fn models_ordered(ss: Seq<StructModel>) -> bool {
    forall|t: int, k: int|
        0 <= t < ss.len() && 0 <= k < ss[t].fields@.len() ==> match (#[trigger] ss[t].fields@[k]).nested {
            Some(j) => j < t,
            None => true,
        }
}

/// The object type of a field: axis, characteristic or measurement where the field says so,
/// else the default
pub open spec fn field_object_type(f: FieldModel, default: McObjectType) -> McObjectType {
    if f.is_axis {
        McObjectType::Axis
    } else if f.is_characteristic {
        McObjectType::Characteristic
    } else if f.is_measurement {
        McObjectType::Measurement
    } else {
        default
    }
}

/// The metadata of a field with an object type
pub open spec fn field_support(f: FieldModel, object_type: McObjectType) -> McSupportData {
    McSupportData {
        object_type,
        qualifier: if f.is_volatile {
            McObjectQualifier::Volatile
        } else {
            McObjectQualifier::Unspecified
        },
        unit: f.unit,
        comment: f.comment,
        x_axis_ref: f.x_axis_ref,
        y_axis_ref: f.y_axis_ref,
        x_axis_conv: None,
        y_axis_conv: None,
    }
}

fn field_object_type_of(f: &FieldModel, default: McObjectType) -> (t: McObjectType)
    ensures
        t == field_object_type(*f, default),
{
    if f.is_axis {
        McObjectType::Axis
    } else if f.is_characteristic {
        McObjectType::Characteristic
    } else if f.is_measurement {
        McObjectType::Measurement
    } else {
        default
    }
}

fn field_support_data(f: &FieldModel, object_type: McObjectType) -> (m: McSupportData)
    ensures
        m == field_support(*f, object_type),
{
    let m = McSupportData::new(object_type).set_comment(f.comment).set_unit(f.unit).set_x_axis_ref(
        f.x_axis_ref,
    ).set_y_axis_ref(f.y_axis_ref);
    if f.is_volatile {
        m.set_qualifier(McObjectQualifier::Volatile)
    } else {
        m
    }
}

//-------------------------------------------------------------------------------------------------
// Fields as instances

/// The name of the instance of a field: "instance.field", or the field name without instance
pub open spec fn field_instance_name(instance_name: Option<Seq<char>>, f: FieldModel) -> Seq<char> {
    match instance_name {
        Some(n) => n + seq!['.'] + f.name@,
        None => f.name@,
    }
}

/// The address of a segment relative object
pub open spec fn calseg_rel_view(calseg_name: Seq<char>, offset: int) -> McAddressView {
    McAddressView {
        calseg_name: Some(calseg_name),
        event_id: None,
        addr_offset: offset as i32,
        addr_mode: McAddrMode::Cal,
        a2l_addr: 0,
        a2l_addr_ext: XCP_ADDR_EXT_SEG,
    }
}

/// The instance of a field: a measurement relative to the event where there is one, else an
/// axis (without y dimension) or a characteristic in the calibration segment
pub open spec fn field_instance_view(
    f: FieldModel,
    instance_name: Option<Seq<char>>,
    calseg_name: Option<Seq<char>>,
    event_id: Option<u16>,
) -> InstanceView {
    let name = field_instance_name(instance_name, f);
    match event_id {
        Some(e) => (
            name,
            McDimType {
                value_type: f.value_type,
                x_dim: f.x_dim,
                y_dim: f.y_dim,
                mc_support_data: field_support(f, McObjectType::Measurement),
            },
            event_dyn_view(0, e, f.addr_offset as i16),
        ),
        None => if f.is_axis {
            (
                name,
                McDimType {
                    value_type: f.value_type,
                    x_dim: f.x_dim,
                    y_dim: 0,
                    mc_support_data: field_support(f, McObjectType::Axis),
                },
                calseg_rel_view(calseg_name.unwrap(), f.addr_offset as int),
            )
        } else {
            (
                name,
                McDimType {
                    value_type: f.value_type,
                    x_dim: f.x_dim,
                    y_dim: f.y_dim,
                    mc_support_data: field_support(f, McObjectType::Characteristic),
                },
                calseg_rel_view(calseg_name.unwrap(), f.addr_offset as int),
            )
        },
    }
}

/// The instances of the fields, in field order
pub open spec fn field_instance_views(
    fields: Seq<FieldModel>,
    instance_name: Option<Seq<char>>,
    calseg_name: Option<Seq<char>>,
    event_id: Option<u16>,
) -> Seq<InstanceView> {
    fields.map_values(|f: FieldModel| field_instance_view(f, instance_name, calseg_name, event_id))
}

/// The view of an optional identifier
pub open spec fn opt_view(n: Option<McIdentifier>) -> Option<Seq<char>> {
    match n {
        Some(i) => Some(i@),
        None => None,
    }
}

/// Two registries are the same but for their instances
pub open spec fn same_except_instances(a: Registry, b: Registry) -> bool {
    &&& a.app_name == b.app_name
    &&& a.app_description == b.app_description
    &&& a.app_version == b.app_version
    &&& a.epk == b.epk
    &&& a.epk_addr == b.epk_addr
    &&& a.prefix_names == b.prefix_names
    &&& a.flatten_typedefs == b.flatten_typedefs
    &&& a.xcp_tl_params == b.xcp_tl_params
    &&& a.cal_seg_list == b.cal_seg_list
    &&& a.event_list == b.event_list
    &&& a.typedef_list == b.typedef_list
}

/// The identifier "instance.field", or the field name without instance
fn field_instance_ident(instance_name: Option<McIdentifier>, f: &FieldModel) -> (n: McIdentifier)
    ensures
        n@ == field_instance_name(opt_view(instance_name), *f),
{
    match instance_name {
        Some(i) => {
            let _ = i.is_valid();
            let _ = f.name.is_valid();
            let mut s = str_to_string(i.as_str());
            push_char(&mut s, '.');
            push_str(&mut s, f.name.as_str());
            let l = leak_string(s);
            assert(l@ =~= i@ + seq!['.'] + f.name@);
            McIdentifier::new(l)
        },
        None => f.name,
    }
}

/// Add an instance, as `add_all_views` adds one, to the view of the list
pub(crate) proof fn lemma_add_one_view(s: Seq<McInstance>, t: Seq<McInstance>, i: McInstance, added: bool)
    requires
        added <==> !exists|j: int| 0 <= j < s.len() && (#[trigger] s[j]).address@ == i.address@ && s[j].name@ == i.name@,
        added ==> t == s.push(i),
        !added ==> t == s,
    ensures
        instance_views(t) == add_all_views(instance_views(s), seq![instance_view(i)]),
{
    let v = instance_views(s);
    assert(seq![instance_view(i)].drop_last() =~= Seq::<InstanceView>::empty());
    assert(add_all_views(v, Seq::<InstanceView>::empty()) == v);
    if has_view(v, i.name@, i.address@) {
        let j = choose|j: int| 0 <= j < v.len() && (#[trigger] v[j]).0 == i.name@ && v[j].2 == i.address@;
        assert(s[j].address@ == i.address@ && s[j].name@ == i.name@);
    }
    if !added {
        let j = choose|j: int| 0 <= j < s.len() && (#[trigger] s[j]).address@ == i.address@ && s[j].name@ == i.name@;
        assert(v[j].0 == i.name@ && v[j].2 == i.address@);
    } else {
        assert(instance_views(t) =~= v.push(instance_view(i)));
    }
}

/// Adding views one after another
pub(crate) proof fn lemma_add_all_views_push(s: Seq<InstanceView>, a: Seq<InstanceView>, x: InstanceView)
    ensures
        add_all_views(s, a.push(x)) == add_all_views(add_all_views(s, a), seq![x]),
{
    assert(a.push(x).drop_last() =~= a);
    assert(seq![x].drop_last() =~= Seq::<InstanceView>::empty());
    let u = add_all_views(s, a);
    assert(add_all_views(u, Seq::<InstanceView>::empty()) == u);
    assert(a.push(x).last() == x);
    assert(seq![x].last() == x);
}

/// Register each field as an instance
fn register_fields(
    reg: &mut Registry,
    s: &StructModel,
    instance_name: Option<McIdentifier>,
    calseg_name: Option<McIdentifier>,
    event_id: Option<u16>,
)
    requires
        calseg_name is Some || event_id is Some,
        forall|k: int|
            0 <= k < s.fields@.len() ==> !((#[trigger] s.fields@[k]).value_type is Unknown),
        event_id is Some ==> forall|k: int|
            0 <= k < s.fields@.len() ==> (#[trigger] s.fields@[k]).addr_offset <= 0x7FFF,
    ensures
        same_except_instances(*final(reg), *old(reg)),
        instance_views(final(reg).instance_list@) == add_all_views(
            instance_views(old(reg).instance_list@),
            field_instance_views(s.fields@, opt_view(instance_name), opt_view(calseg_name), event_id),
        ),
{
    let ghost expected = field_instance_views(
        s.fields@,
        opt_view(instance_name),
        opt_view(calseg_name),
        event_id,
    );
    let n = s.fields.len();
    let mut k: usize = 0;
    while k < n
        invariant
            n == s.fields@.len(),
            k <= n,
            calseg_name is Some || event_id is Some,
            forall|k2: int|
                0 <= k2 < s.fields@.len() ==> !((#[trigger] s.fields@[k2]).value_type is Unknown),
            event_id is Some ==> forall|k2: int|
                0 <= k2 < s.fields@.len() ==> (#[trigger] s.fields@[k2]).addr_offset <= 0x7FFF,
            expected == field_instance_views(
                s.fields@,
                opt_view(instance_name),
                opt_view(calseg_name),
                event_id,
            ),
            same_except_instances(*reg, *old(reg)),
            instance_views(reg.instance_list@) == add_all_views(
                instance_views(old(reg).instance_list@),
                expected.take(k as int),
            ),
        decreases n - k,
    {
        let f = &s.fields[k];
        let name = field_instance_ident(instance_name, f);
        let inst = match event_id {
            Some(e) => {
                let m = field_support_data(f, McObjectType::Measurement);
                McInstance::new(
                    name,
                    McDimType::new(f.value_type, f.x_dim, f.y_dim, m),
                    McAddress::new_event_dyn(0, e, f.addr_offset as i16),
                )
            },
            None => {
                let c = calseg_name.unwrap();
                if f.is_axis {
                    let m = field_support_data(f, McObjectType::Axis);
                    McInstance::new(
                        name,
                        McDimType::new(f.value_type, f.x_dim, 0, m),
                        McAddress::new_calseg_rel(c, f.addr_offset as i32),
                    )
                } else {
                    let m = field_support_data(f, McObjectType::Characteristic);
                    McInstance::new(
                        name,
                        McDimType::new(f.value_type, f.x_dim, f.y_dim, m),
                        McAddress::new_calseg_rel(c, f.addr_offset as i32),
                    )
                }
            },
        };
        let ghost before = reg.instance_list@;
        let r = reg.instance_list.add_instance(inst.name, inst.dim_type, inst.address);
        proof {
            assert(instance_view(inst) == expected[k as int]);
            lemma_add_one_view(before, reg.instance_list@, inst, r is Ok);
            assert(expected.take(k + 1) =~= expected.take(k as int).push(expected[k as int]));
            lemma_add_all_views_push(
                instance_views(old(reg).instance_list@),
                expected.take(k as int),
                expected[k as int],
            );
        }
        k += 1;
    }
    assert(expected.take(n as int) =~= expected);
}


//-------------------------------------------------------------------------------------------------
// Structures as typedefs

/// A typedef as the registry holds it: name, size and fields
pub open spec fn typedef_views(s: Seq<McTypeDef>) -> Seq<(Seq<char>, usize, Seq<McTypeDefField>)> {
    s.map_values(|t: McTypeDef| (t.name@, t.size, t.fields@))
}

/// Typedef i is the first named n
pub open spec fn is_first_view(v: Seq<(Seq<char>, usize, Seq<McTypeDefField>)>, i: int, n: Seq<char>) -> bool {
    &&& 0 <= i < v.len()
    &&& v[i].0 == n
    &&& forall|j: int| 0 <= j < i ==> (#[trigger] v[j]).0 != n
}

/// Position of the first typedef named n, or -1
pub open spec fn first_view_pos(v: Seq<(Seq<char>, usize, Seq<McTypeDefField>)>, n: Seq<char>) -> int {
    if exists|i: int| is_first_view(v, i, n) {
        choose|i: int| is_first_view(v, i, n)
    } else {
        -1
    }
}

/// A step of registering typedefs: (name, size, None) adds an empty typedef unless one of that
/// name exists; (name, _, Some(field)) adds the field to the first typedef of that name unless
/// there is none or it has a field of that name
pub open spec fn apply_step(
    v: Seq<(Seq<char>, usize, Seq<McTypeDefField>)>,
    st: (Seq<char>, usize, Option<McTypeDefField>),
) -> Seq<(Seq<char>, usize, Seq<McTypeDefField>)> {
    match st.2 {
        None => if forall|j: int| 0 <= j < v.len() ==> (#[trigger] v[j]).0 != st.0 {
            v.push((st.0, st.1, Seq::empty()))
        } else {
            v
        },
        Some(f) => {
            let p = first_view_pos(v, st.0);
            if p >= 0 && field_pos(v[p].2, f.name@) == -1 {
                v.update(p, (v[p].0, v[p].1, v[p].2.push(f)))
            } else {
                v
            }
        },
    }
}

/// The typedefs after the steps, one after another
pub open spec fn apply_steps(
    v: Seq<(Seq<char>, usize, Seq<McTypeDefField>)>,
    steps: Seq<(Seq<char>, usize, Option<McTypeDefField>)>,
) -> Seq<(Seq<char>, usize, Seq<McTypeDefField>)>
    decreases steps.len(),
{
    if steps.len() == 0 {
        v
    } else {
        apply_step(apply_steps(v, steps.drop_last()), steps.last())
    }
}

/// The typedef field of a field: its metadata with its object type, the default where the
/// field names none
pub open spec fn typedef_component(f: FieldModel, default: McObjectType) -> McTypeDefField {
    let m = field_support(f, field_object_type(f, default));
    McTypeDefField {
        name: f.name,
        dim_type: McDimType { value_type: f.value_type, x_dim: f.x_dim, y_dim: f.y_dim, mc_support_data: m },
        mc_support_data: m,
        offset: f.addr_offset,
    }
}

/// The steps that register structure t as a typedef: the typedef, then for each field the
/// typedef of its nested structure, if any, and the field
pub open spec fn struct_steps(ss: Seq<StructModel>, t: int, default: McObjectType) -> Seq<(Seq<char>, usize, Option<McTypeDefField>)>
    decreases t, (if 0 <= t < ss.len() {
        ss[t].fields@.len() + 1
    } else {
        0
    }),
{
    if 0 <= t < ss.len() {
        seq![(ss[t].name@, ss[t].size, None)] + fields_steps(ss, t, ss[t].fields@.len() as int, default)
    } else {
        Seq::empty()
    }
}

/// The steps of the first k fields of structure t
pub open spec fn fields_steps(ss: Seq<StructModel>, t: int, k: int, default: McObjectType) -> Seq<(Seq<char>, usize, Option<McTypeDefField>)>
    decreases t, (if k > 0 {
        k
    } else {
        0
    }),
{
    if 0 <= t < ss.len() && 0 < k <= ss[t].fields@.len() {
        let f = ss[t].fields@[k - 1];
        let nested = match f.nested {
            Some(j) => if (j as int) < t {
                struct_steps(ss, j as int, default)
            } else {
                Seq::empty()
            },
            None => Seq::empty(),
        };
        fields_steps(ss, t, k - 1, default) + nested + seq![(ss[t].name@, 0usize, Some(typedef_component(f, default)))]
    } else {
        Seq::empty()
    }
}

pub(crate) proof fn lemma_apply_steps_concat(
    v: Seq<(Seq<char>, usize, Seq<McTypeDefField>)>,
    a: Seq<(Seq<char>, usize, Option<McTypeDefField>)>,
    b: Seq<(Seq<char>, usize, Option<McTypeDefField>)>,
)
    ensures
        apply_steps(v, a + b) == apply_steps(apply_steps(v, a), b),
    decreases b.len(),
{
    if b.len() == 0 {
        assert(a + b =~= a);
    } else {
        lemma_apply_steps_concat(v, a, b.drop_last());
        assert((a + b).drop_last() =~= a + b.drop_last());
        assert((a + b).last() == b.last());
    }
}

pub(crate) proof fn lemma_apply_one_step(
    v: Seq<(Seq<char>, usize, Seq<McTypeDefField>)>,
    st: (Seq<char>, usize, Option<McTypeDefField>),
)
    ensures
        apply_steps(v, seq![st]) == apply_step(v, st),
{
    let e = Seq::<(Seq<char>, usize, Option<McTypeDefField>)>::empty();
    assert(seq![st].drop_last() =~= e);
    assert(apply_steps(v, e) == v);
    assert(seq![st].last() == st);
}

/// The first typedef of a name is at the same position in the views
pub(crate) proof fn lemma_first_pos_views(s: Seq<McTypeDef>, n: Seq<char>)
    ensures
        first_typedef_pos(s, n) == first_view_pos(typedef_views(s), n),
{
    let v = typedef_views(s);
    if exists|i: int| is_first_typedef(s, i, n) {
        let i = choose|i: int| is_first_typedef(s, i, n);
        lemma_first_typedef_pos(s, i, n);
        assert(is_first_view(v, i, n));
        let c = choose|c: int| is_first_view(v, c, n);
        if c < i {
            assert(s[c].name@ == n);
        } else if i < c {
            assert(v[i].0 == n);
        }
    } else {
        if exists|i: int| is_first_view(v, i, n) {
            let i = choose|i: int| is_first_view(v, i, n);
            assert forall|j: int| 0 <= j < i implies (#[trigger] s[j]).name@ != n by {
                assert(v[j].0 == s[j].name@);
            }
            assert(is_first_typedef(s, i, n));
        }
    }
}

/// Register structure t as a typedef, after the typedefs of its nested structures
fn register_typedef(reg: &mut Registry, ss: &Vec<StructModel>, t: usize, default: McObjectType)
    requires
        t < ss@.len(),
        models_ordered(ss@),
    ensures
        same_except_typedefs(*final(reg), *old(reg)),
        typedef_views(final(reg).typedef_list@) == apply_steps(
            typedef_views(old(reg).typedef_list@),
            struct_steps(ss@, t as int, default),
        ),
    decreases t,
{
    let s = &ss[t];
    let ghost v0 = typedef_views(reg.typedef_list@);
    let ghost tds0 = reg.typedef_list@;
    let ghost first = (s.name@, s.size, None::<McTypeDefField>);
    let _ = reg.add_typedef(s.name, s.size);
    proof {
        let tds = reg.typedef_list@;
        assert((forall|j: int| 0 <= j < tds0.len() ==> (#[trigger] tds0[j]).name@ != s.name@) <==> (
        forall|j: int| 0 <= j < v0.len() ==> (#[trigger] v0[j]).0 != s.name@)) by {
            if forall|j: int| 0 <= j < v0.len() ==> (#[trigger] v0[j]).0 != s.name@ {
                assert forall|j: int| 0 <= j < tds0.len() implies (#[trigger] tds0[j]).name@ != s.name@ by {
                    assert(v0[j].0 == tds0[j].name@);
                }
            }
        }
        if tds.len() == tds0.len() + 1 {
            assert forall|j: int| 0 <= j < tds0.len() implies tds[j] == tds0[j] by {
                assert(tds.drop_last()[j] == tds[j]);
            }
            assert(tds.last().fields@ =~= Seq::<McTypeDefField>::empty());
            assert(typedef_views(tds) =~= v0.push((s.name@, s.size, Seq::empty())));
        }
        lemma_apply_one_step(v0, first);
        assert(typedef_views(reg.typedef_list@) == apply_steps(v0, seq![first]));
        assert(seq![first] + fields_steps(ss@, t as int, 0, default) =~= seq![first]);
    }
    let n = s.fields.len();
    let mut k: usize = 0;
    while k < n
        invariant
            t < ss@.len(),
            models_ordered(ss@),
            *s == ss@[t as int],
            n == s.fields@.len(),
            k <= n,
            same_except_typedefs(*reg, *old(reg)),
            v0 == typedef_views(old(reg).typedef_list@),
            first == (s.name@, s.size, None::<McTypeDefField>),
            typedef_views(reg.typedef_list@) == apply_steps(
                v0,
                seq![first] + fields_steps(ss@, t as int, k as int, default),
            ),
        decreases n - k,
    {
        let f = &s.fields[k];
        let ghost before = seq![first] + fields_steps(ss@, t as int, k as int, default);
        let ghost nested_steps: Seq<(Seq<char>, usize, Option<McTypeDefField>)> = match f.nested {
            Some(j) => struct_steps(ss@, j as int, default),
            None => Seq::empty(),
        };
        assert(f.nested matches Some(j) ==> j < t) by {
            assert(ss@[t as int].fields@[k as int] == *f);
        }
        match f.nested {
            Some(j) => {
                let ghost w = typedef_views(reg.typedef_list@);
                register_typedef(reg, ss, j, default);
                proof {
                    lemma_apply_steps_concat(v0, before, nested_steps);
                }
            },
            None => {
                assert(before + nested_steps =~= before);
            },
        }
        let ghost mid = typedef_views(reg.typedef_list@);
        let ghost tds1 = reg.typedef_list@;
        let ot = field_object_type_of(f, default);
        let m = field_support_data(f, ot);
        let r = reg.add_typedef_component(
            s.name.as_str(),
            f.name,
            McDimType::new(f.value_type, f.x_dim, f.y_dim, m),
            f.addr_offset,
        );
        proof {
            let comp = typedef_component(*f, default);
            let st = (s.name@, 0usize, Some(comp));
            lemma_first_pos_views(tds1, s.name@);
            let p = first_typedef_pos(tds1, s.name@);
            if p >= 0 {
                assert(mid[p].2 == tds1[p].fields@);
                if r is Ok {
                    assert(typedef_views(reg.typedef_list@) =~= mid.update(p, (mid[p].0, mid[p].1, mid[p].2.push(comp))));
                }
            }
            assert(typedef_views(reg.typedef_list@) == apply_step(mid, st));
            lemma_apply_one_step(mid, st);
            lemma_apply_steps_concat(v0, before + nested_steps, seq![st]);
            assert(seq![first] + fields_steps(ss@, t as int, k + 1, default) =~= before + nested_steps + seq![st]);
        }
        k += 1;
    }
}


//-------------------------------------------------------------------------------------------------
// Registration

/// The object type of fields that name none: measurement with an event, else characteristic
pub open spec fn default_object_type(event_id: Option<u16>) -> McObjectType {
    if event_id is Some {
        McObjectType::Measurement
    } else {
        McObjectType::Characteristic
    }
}

/// The instance of a structure registered as a typedef, where it has an instance name: relative
/// to the event where there is one, else at the start of the calibration segment
pub open spec fn typedef_instance_views(
    s: StructModel,
    instance_name: Option<Seq<char>>,
    calseg_name: Option<Seq<char>>,
    event_id: Option<u16>,
) -> Seq<InstanceView> {
    match instance_name {
        None => Seq::empty(),
        Some(n) => seq![
            (
                n,
                McDimType {
                    value_type: McValueType::TypeDef(s.name),
                    x_dim: 1,
                    y_dim: 1,
                    mc_support_data: support_new(default_object_type(event_id)),
                },
                match event_id {
                    Some(e) => event_dyn_view(0, e, 0),
                    None => calseg_rel_view(calseg_name.unwrap(), 0),
                },
            ),
        ],
    }
}

/// Two registries are the same but for their typedefs and instances
pub open spec fn same_except_types_and_instances(a: Registry, b: Registry) -> bool {
    &&& a.app_name == b.app_name
    &&& a.app_description == b.app_description
    &&& a.app_version == b.app_version
    &&& a.epk == b.epk
    &&& a.epk_addr == b.epk_addr
    &&& a.prefix_names == b.prefix_names
    &&& a.flatten_typedefs == b.flatten_typedefs
    &&& a.xcp_tl_params == b.xcp_tl_params
    &&& a.cal_seg_list == b.cal_seg_list
    &&& a.event_list == b.event_list
}

/// Register structure t of the model list, relative to an event (measurements) or to a
/// calibration segment (characteristics and axes)
/// As typedef: the typedefs of the structure and its nested structures, and an instance of
/// the structure where an instance name is given
/// Else: each field as an instance named "instance.field" (the field name without instance
/// name), a measurement with an event, else an axis (without y dimension) or a characteristic
/// Typedefs, fields and instances that clash with ones already there are left out
pub fn register_struct(
    reg: &mut Registry,
    ss: &Vec<StructModel>,
    t: usize,
    instance_name: Option<McIdentifier>,
    calseg_name: Option<McIdentifier>,
    event_id: Option<u16>,
    as_typedef: bool,
)
    requires
        calseg_name is Some || event_id is Some,
        t < ss@.len(),
        models_ordered(ss@),
        !as_typedef ==> forall|k: int|
            0 <= k < ss@[t as int].fields@.len() ==> (#[trigger] ss@[t as int].fields@[k]).nested is None
                && !(ss@[t as int].fields@[k].value_type is Unknown),
        !as_typedef && event_id is Some ==> forall|k: int|
            0 <= k < ss@[t as int].fields@.len() ==> (#[trigger] ss@[t as int].fields@[k]).addr_offset
                <= 0x7FFF,
    ensures
        same_except_types_and_instances(*final(reg), *old(reg)),
        as_typedef ==> typedef_views(final(reg).typedef_list@) == apply_steps(
            typedef_views(old(reg).typedef_list@),
            struct_steps(ss@, t as int, default_object_type(event_id)),
        ),
        as_typedef ==> instance_views(final(reg).instance_list@) == add_all_views(
            instance_views(old(reg).instance_list@),
            typedef_instance_views(ss@[t as int], opt_view(instance_name), opt_view(calseg_name), event_id),
        ),
        !as_typedef ==> final(reg).typedef_list == old(reg).typedef_list,
        !as_typedef ==> instance_views(final(reg).instance_list@) == add_all_views(
            instance_views(old(reg).instance_list@),
            field_instance_views(
                ss@[t as int].fields@,
                opt_view(instance_name),
                opt_view(calseg_name),
                event_id,
            ),
        ),
{
    let default = if event_id.is_some() {
        McObjectType::Measurement
    } else {
        McObjectType::Characteristic
    };
    if as_typedef {
        register_typedef(reg, ss, t, default);
        let ghost before = reg.instance_list@;
        let s = &ss[t];
        match instance_name {
            Some(n) => {
                let address = match event_id {
                    Some(e) => McAddress::new_event_dyn(0, e, 0),
                    None => McAddress::new_calseg_rel(calseg_name.unwrap(), 0),
                };
                let inst = McInstance::new(
                    n,
                    McDimType::new(McValueType::new_typedef(s.name), 1, 1, McSupportData::new(default)),
                    address,
                );
                let r = reg.instance_list.add_instance(inst.name, inst.dim_type, inst.address);
                proof {
                    lemma_add_one_view(before, reg.instance_list@, inst, r is Ok);
                    assert(seq![instance_view(inst)] =~= typedef_instance_views(
                        ss@[t as int],
                        opt_view(instance_name),
                        opt_view(calseg_name),
                        event_id,
                    ));
                }
            },
            None => {
                proof {
                    assert(add_all_views(instance_views(before), Seq::<InstanceView>::empty()) == instance_views(before));
                }
            },
        }
    } else {
        register_fields(reg, &ss[t], instance_name, calseg_name, event_id);
    }
}
} // verus!
