// Loading the content of a parsed A2L module into the registry: application, EPK, memory
// segments, characteristics, measurements, typedefs and instances
// The A2L file is read and parsed outside the library, which hands over the module as the
// model below; floating point limits and conversions are held apart from it
//  A2lModule, registry_load_a2lfile, Registry::load_a2lfile

use vstd::prelude::*;

use crate::mc_address::{
    McAddrMode, McAddress, McAddressView, XCP_ADDR_EXT_DYN, XCP_ADDR_EXT_SEG, XCP_ADDR_OFFSET_UNDEF,
    event_dyn_view,
};
use crate::mc_calseg::{McCalibrationSegment, McCalibrationSegmentList, segment_holds};
use crate::mc_instance::{McInstance, McInstanceList};
use crate::mc_support::{McObjectType, McSupportData, support_new};
use crate::mc_text::{McIdentifier, McText};
use crate::mc_type::{McDimType, McValueType, get_value_type_from_record_layout, value_type_of_record_layout};
use crate::mc_typedef::{
    InstanceView, McTypeDefField, McTypeDefList, add_all_views, first_typedef_pos, instance_view, instance_views,
    leaf_updated,
};
use crate::register::{
    apply_step, apply_steps, calseg_rel_view, lemma_add_all_views_push, lemma_add_one_view, lemma_apply_one_step,
    lemma_apply_steps_concat, lemma_first_pos_views, typedef_views,
};
use crate::registry::{Registry, same_except_typedefs};
use crate::strings::{push_str, str_eq, str_to_string};

verus! {

//-------------------------------------------------------------------------------------------------
// Model of a parsed A2L module

/// A memory segment: name, address and size
#[derive(Clone, Copy)]
pub struct A2lSegment {
    pub name: McIdentifier,
    pub addr: u32,
    pub size: u32,
}

/// A CHARACTERISTIC
pub struct A2lCharacteristic {
    pub name: McIdentifier,
    pub comment: McText,
    pub unit: Option<McText>,
    /// The record layout (deposit) name
    pub record_layout: String,
    pub matrix_dim: Vec<u16>,
    /// The axis point references of the axis descriptions, in order
    pub axis_refs: Vec<Option<McIdentifier>>,
    pub addr: u32,
    pub addr_ext: u8,
    /// The event of the XCP IF_DATA, if any
    pub event_id: Option<u16>,
}

/// A MEASUREMENT
pub struct A2lMeasurement {
    pub name: McIdentifier,
    pub comment: McText,
    pub unit: Option<McText>,
    pub value_type: McValueType,
    pub matrix_dim: Vec<u16>,
    pub addr: u32,
    pub addr_ext: u8,
    pub event_id: Option<u16>,
}

/// An INSTANCE of a typedef
pub struct A2lInstance {
    pub name: McIdentifier,
    pub comment: McText,
    pub type_ref: McIdentifier,
    pub matrix_dim: Vec<u16>,
    pub addr: u32,
    pub addr_ext: u8,
    pub event_id: Option<u16>,
}

/// A STRUCTURE_COMPONENT of a TYPEDEF_STRUCTURE
pub struct A2lComponent {
    pub name: McIdentifier,
    pub component_type: McIdentifier,
    pub matrix_dim: Vec<u16>,
    pub offset: u32,
}

/// A TYPEDEF_STRUCTURE
pub struct A2lStructure {
    pub name: McIdentifier,
    pub size: usize,
    pub components: Vec<A2lComponent>,
}

/// A TYPEDEF_MEASUREMENT (object type Measurement, value type given), TYPEDEF_CHARACTERISTIC
/// or TYPEDEF_AXIS (value type of the record layout)
pub struct A2lTypedefLeaf {
    pub name: McIdentifier,
    pub object_type: McObjectType,
    pub value_type: McValueType,
    pub record_layout: String,
    pub matrix_dim: Vec<u16>,
    pub comment: McText,
    pub unit: Option<McText>,
}

/// The first module of an A2L file
pub struct A2lModule {
    /// The file has an ASAP2_VERSION
    pub has_version: bool,
    pub project_name: String,
    /// The project number of the header, if any
    pub project_number: Option<String>,
    /// The EPK identifier of MOD_PAR, if any, and the ADDR_EPK addresses
    pub epk: Option<String>,
    pub epk_addrs: Vec<u32>,
    pub segments: Vec<A2lSegment>,
    pub characteristics: Vec<A2lCharacteristic>,
    pub measurements: Vec<A2lMeasurement>,
    pub structures: Vec<A2lStructure>,
    /// Typedef measurements, then typedef characteristics, then typedef axes
    pub leaves: Vec<A2lTypedefLeaf>,
    pub instances: Vec<A2lInstance>,
}

//-------------------------------------------------------------------------------------------------
// Dimensions, metadata and addresses

/// The dimensions of a MATRIX_DIM: more than two are not supported and give 1 x 1
pub open spec fn matrix_dim(d: Seq<u16>) -> (u16, u16) {
    if d.len() >= 3 {
        (1, 1)
    } else if d.len() == 2 {
        (d[0], d[1])
    } else if d.len() == 1 {
        (d[0], 1)
    } else {
        (1, 1)
    }
}

/// Get matrix dimension as tuple
pub fn get_matrix_dim(d: &Vec<u16>) -> (r: (u16, u16))
    ensures
        r == matrix_dim(d@),
{
    if d.len() >= 3 {
        (1, 1)
    } else if d.len() >= 2 {
        (d[0], d[1])
    } else if d.len() == 1 {
        (d[0], 1)
    } else {
        (1, 1)
    }
}

/// Metadata with an object type, comment and, where given, unit
pub open spec fn loaded_support(object_type: McObjectType, comment: McText, unit: Option<McText>) -> McSupportData {
    let m = McSupportData { comment, ..support_new(object_type) };
    match unit {
        Some(u) => McSupportData { unit: u, ..m },
        None => m,
    }
}

fn support_of(object_type: McObjectType, comment: McText, unit: Option<McText>) -> (m: McSupportData)
    ensures
        m == loaded_support(object_type, comment, unit),
{
    let m = McSupportData::new(object_type).set_comment(comment);
    match unit {
        Some(u) => m.set_unit(u),
        None => m,
    }
}

/// The axis references of a characteristic: x from the first axis description, y from the
/// second where the first has one
pub open spec fn characteristic_support(c: A2lCharacteristic) -> McSupportData {
    let m = loaded_support(McObjectType::Characteristic, c.comment, c.unit);
    let r = c.axis_refs@;
    if r.len() > 0 && r[0] is Some {
        let mx = McSupportData { x_axis_ref: r[0], ..m };
        if r.len() > 1 && r[1] is Some {
            McSupportData { y_axis_ref: r[1], ..mx }
        } else {
            mx
        }
    } else {
        m
    }
}

/// The axis points of a loaded characteristic: the x axis refers to the axis points of its first
/// axis description and the y axis to those of its second, where the first has axis points;
/// without axis points in the first description it has no axis references
pub proof fn lemma_characteristic_axis_refs(segs: Seq<McCalibrationSegment>, c: A2lCharacteristic, vector: bool)
    ensures
        ({
            let m = characteristic_view(segs, c, vector).1.mc_support_data;
            let r = c.axis_refs@;
            &&& r.len() >= 2 && r[0] is Some && r[1] is Some ==> m.x_axis_ref == r[0] && m.y_axis_ref == r[1]
            &&& r.len() >= 1 && r[0] is Some && (r.len() == 1 || r[1] is None) ==> m.x_axis_ref == r[0]
                && m.y_axis_ref is None
            &&& (r.len() == 0 || r[0] is None) ==> m.x_axis_ref is None && m.y_axis_ref is None
            &&& m.object_type == McObjectType::Characteristic
            &&& m.comment == c.comment
            &&& c.unit matches Some(u) ==> m.unit == u
        }),
{
}

fn characteristic_support_of(c: &A2lCharacteristic) -> (m: McSupportData)
    ensures
        m == characteristic_support(*c),
{
    let m = support_of(McObjectType::Characteristic, c.comment, c.unit);
    if c.axis_refs.len() > 0 && c.axis_refs[0].is_some() {
        let mx = m.set_x_axis_ref(c.axis_refs[0]);
        if c.axis_refs.len() > 1 && c.axis_refs[1].is_some() {
            mx.set_y_axis_ref(c.axis_refs[1])
        } else {
            mx
        }
    } else {
        m
    }
}

/// The first segment whose address range holds addr
pub open spec fn first_holding(segs: Seq<McCalibrationSegment>, addr: u32, i: int) -> bool {
    &&& 0 <= i < segs.len()
    &&& segment_holds(segs[i], addr)
    &&& forall|j: int| 0 <= j < i ==> !segment_holds(#[trigger] segs[j], addr)
}

/// A generic A2L address
pub open spec fn a2l_view(addr: u32, ext: u8) -> McAddressView {
    McAddressView {
        calseg_name: None,
        event_id: None,
        addr_offset: XCP_ADDR_OFFSET_UNDEF,
        addr_mode: McAddrMode::A2l,
        a2l_addr: addr,
        a2l_addr_ext: ext,
    }
}

/// The address of an object: in a Vector A2L, segment relative in the segment that holds it
/// (low word as offset), or event relative (low word as offset); else, and where no segment
/// holds it, the A2L address, with the event where there is one outside a Vector A2L
pub open spec fn loaded_address(
    segs: Seq<McCalibrationSegment>,
    addr: u32,
    ext: u8,
    event_id: Option<u16>,
    vector: bool,
) -> McAddressView {
    if !vector {
        match event_id {
            Some(e) => McAddressView {
                calseg_name: None,
                event_id: Some(e),
                addr_offset: 0,
                addr_mode: McAddrMode::A2lEvent,
                a2l_addr: addr,
                a2l_addr_ext: ext,
            },
            None => a2l_view(addr, ext),
        }
    } else if ext == XCP_ADDR_EXT_SEG {
        if exists|i: int| first_holding(segs, addr, i) {
            let i = choose|i: int| first_holding(segs, addr, i);
            calseg_rel_view(segs[i].name@, (addr & 0xFFFF) as int)
        } else {
            a2l_view(addr, ext)
        }
    } else if ext == XCP_ADDR_EXT_DYN {
        event_dyn_view(0, event_id.unwrap(), (addr & 0xFFFF) as u16 as i16)
    } else {
        a2l_view(addr, ext)
    }
}

/// What an object needs for its address: in a Vector A2L an event relative object names its
/// event, which is the high word of its address
pub open spec fn address_ok(addr: u32, ext: u8, event_id: Option<u16>, vector: bool) -> bool {
    vector && ext == XCP_ADDR_EXT_DYN ==> (event_id matches Some(e) && e == addr >> 16)
}

/// Always read to A2L address representation
fn get_mc_address(reg: &Registry, addr: u32, addr_ext: u8, event_id: Option<u16>, vector: bool) -> (a: McAddress)
    requires
        address_ok(addr, addr_ext, event_id, vector),
    ensures
        a@ == loaded_address(reg.cal_seg_list@, addr, addr_ext, event_id, vector),
{
    if !vector {
        match event_id {
            Some(e) => McAddress::new_a2l_with_event(e, addr, addr_ext),
            None => McAddress::new_a2l(addr, addr_ext),
        }
    } else if addr_ext == XCP_ADDR_EXT_SEG {
        match reg.cal_seg_list.find_cal_seg_by_address(addr) {
            Some(name) => {
                let offset: u16 = (addr & 0xFFFF) as u16;
                assert((addr & 0xFFFF) <= 0xFFFF) by (bit_vector);
                proof {
                    let segs = reg.cal_seg_list@;
                    let i = choose|i: int|
                        0 <= i < segs.len() && segment_holds(#[trigger] segs[i], addr) && segs[i].name
                            == name && forall|j: int| 0 <= j < i ==> !segment_holds(#[trigger] segs[j], addr);
                    assert(first_holding(segs, addr, i));
                    let c = choose|c: int| first_holding(segs, addr, c);
                    if c < i {
                        assert(!segment_holds(segs[c], addr));
                    } else if i < c {
                        assert(!segment_holds(segs[i], addr));
                    }
                }
                McAddress::new_calseg_rel(name, offset as i32)
            },
            None => McAddress::new_a2l(addr, addr_ext),
        }
    } else if addr_ext == XCP_ADDR_EXT_DYN {
        let e = event_id.unwrap();
        let offset: i16 = (addr & 0xFFFF) as u16 as i16;
        McAddress::new_event_dyn(0, e, offset)
    } else {
        McAddress::new_a2l(addr, addr_ext)
    }
}


//-------------------------------------------------------------------------------------------------
// Memory segments

/// The predefined EPK segment of a Vector A2L, which is left out
pub open spec fn is_epk_segment(s: A2lSegment, vector: bool) -> bool {
    vector && s.name@ == "epk"@
}

/// The index of segment k: in a Vector A2L from bits 16..30 of its address (the EPK segment
/// being virtual, counted from 0); else its position counted from 1, 0 being the EPK segment
pub open spec fn segment_index(s: A2lSegment, k: int, vector: bool) -> u16 {
    if vector {
        ((((s.addr >> 16) & 0x7FFF) as int) - 1) as u16
    } else {
        (k + 1) as u16
    }
}

/// The segment list after adding c, unless a segment of that name is there
pub open spec fn add_segment(segs: Seq<McCalibrationSegment>, c: McCalibrationSegment) -> Seq<McCalibrationSegment> {
    if forall|j: int| 0 <= j < segs.len() ==> (#[trigger] segs[j]).name@ != c.name@ {
        segs.push(c)
    } else {
        segs
    }
}

/// The segment list after loading the memory segments, one after another
pub open spec fn loaded_segments(segs: Seq<McCalibrationSegment>, ms: Seq<A2lSegment>, vector: bool) -> Seq<McCalibrationSegment>
    decreases ms.len(),
{
    if ms.len() == 0 {
        segs
    } else {
        let prev = loaded_segments(segs, ms.drop_last(), vector);
        let s = ms.last();
        if is_epk_segment(s, vector) {
            prev
        } else {
            add_segment(
                prev,
                McCalibrationSegment {
                    name: s.name,
                    index: segment_index(s, ms.len() - 1, vector),
                    addr_ext: 0,
                    addr: s.addr,
                    size: s.size,
                },
            )
        }
    }
}

/// The indices can be computed: in a Vector A2L every segment but the EPK segment has a
/// nonzero index field; else there are no more segments than indices
pub open spec fn segments_loadable(ms: Seq<A2lSegment>, vector: bool) -> bool {
    if vector {
        forall|k: int| 0 <= k < ms.len() && !is_epk_segment(#[trigger] ms[k], vector) ==> (ms[k].addr >> 16) & 0x7FFF >= 1
    } else {
        ms.len() <= 0xFFFF
    }
}

/// Add the memory segments; those whose name is taken are left out
fn load_segments(list: &mut McCalibrationSegmentList, ms: &Vec<A2lSegment>, vector: bool)
    requires
        segments_loadable(ms@, vector),
    ensures
        final(list)@ == loaded_segments(old(list)@, ms@, vector),
{
    let mut i: usize = 0;
    while i < ms.len()
        invariant
            i <= ms@.len(),
            segments_loadable(ms@, vector),
            list@ == loaded_segments(old(list)@, ms@.take(i as int), vector),
        decreases ms@.len() - i,
    {
        let s = ms[i];
        proof {
            assert(ms@.take(i + 1).drop_last() =~= ms@.take(i as int));
            assert(ms@.take(i + 1).last() == s);
        }
        let skip = vector && str_eq(s.name.as_str(), "epk");
        if !skip {
            let index: u16 = if vector {
                let a: u32 = s.addr;
                let hi: u32 = (a >> 16) & 0x7FFF;
                assert(hi <= 0x7FFF) by (bit_vector)
                    requires hi == (a >> 16) & 0x7FFF;
                (hi - 1) as u16
            } else {
                (i + 1) as u16
            };
            let _ = list.add_a2l_cal_seg(s.name, index, 0, s.addr, s.size);
        }
        i += 1;
    }
    assert(ms@.take(ms@.len() as int) =~= ms@);
}

//-------------------------------------------------------------------------------------------------
// Characteristics, measurements and typedef instances

/// A characteristic as registry instance: value type of its record layout, its dimensions,
/// metadata and address
pub open spec fn characteristic_view(segs: Seq<McCalibrationSegment>, c: A2lCharacteristic, vector: bool) -> InstanceView {
    (
        c.name@,
        McDimType {
            value_type: value_type_of_record_layout(c.record_layout@),
            x_dim: matrix_dim(c.matrix_dim@).0,
            y_dim: matrix_dim(c.matrix_dim@).1,
            mc_support_data: characteristic_support(c),
        },
        loaded_address(segs, c.addr, c.addr_ext, c.event_id, vector),
    )
}

pub open spec fn characteristic_views(segs: Seq<McCalibrationSegment>, cs: Seq<A2lCharacteristic>, vector: bool) -> Seq<InstanceView> {
    cs.map_values(|c: A2lCharacteristic| characteristic_view(segs, c, vector))
}

/// A measurement as registry instance
pub open spec fn measurement_view(segs: Seq<McCalibrationSegment>, m: A2lMeasurement, vector: bool) -> InstanceView {
    (
        m.name@,
        McDimType {
            value_type: m.value_type,
            x_dim: matrix_dim(m.matrix_dim@).0,
            y_dim: matrix_dim(m.matrix_dim@).1,
            mc_support_data: loaded_support(McObjectType::Measurement, m.comment, m.unit),
        },
        loaded_address(segs, m.addr, m.addr_ext, m.event_id, vector),
    )
}

pub open spec fn measurement_views(segs: Seq<McCalibrationSegment>, ms: Seq<A2lMeasurement>, vector: bool) -> Seq<InstanceView> {
    ms.map_values(|m: A2lMeasurement| measurement_view(segs, m, vector))
}

/// The object type of a typedef instance: measurement with an event, else characteristic
pub open spec fn instance_object_type(event_id: Option<u16>) -> McObjectType {
    if event_id is None {
        McObjectType::Characteristic
    } else {
        McObjectType::Measurement
    }
}

/// A typedef instance as registry instance
pub open spec fn a2l_instance_view(segs: Seq<McCalibrationSegment>, i: A2lInstance, vector: bool) -> InstanceView {
    (
        i.name@,
        McDimType {
            value_type: McValueType::TypeDef(i.type_ref),
            x_dim: matrix_dim(i.matrix_dim@).0,
            y_dim: matrix_dim(i.matrix_dim@).1,
            mc_support_data: McSupportData { comment: i.comment, ..support_new(instance_object_type(i.event_id)) },
        },
        loaded_address(segs, i.addr, i.addr_ext, i.event_id, vector),
    )
}

pub open spec fn a2l_instance_views(segs: Seq<McCalibrationSegment>, is: Seq<A2lInstance>, vector: bool) -> Seq<InstanceView> {
    is.map_values(|i: A2lInstance| a2l_instance_view(segs, i, vector))
}

/// Every instance has an object type
pub open spec fn all_typed(items: Seq<McInstance>) -> bool {
    forall|k: int| 0 <= k < items.len() ==> (#[trigger] items[k]).dim_type.mc_support_data.object_type != McObjectType::Unspecified
}

/// The instances of the characteristics
fn characteristic_instances(reg: &Registry, cs: &Vec<A2lCharacteristic>, vector: bool) -> (v: Vec<McInstance>)
    requires
        forall|k: int| 0 <= k < cs@.len() ==> address_ok(#[trigger] cs@[k].addr, cs@[k].addr_ext, cs@[k].event_id, vector),
    ensures
        instance_views(v@) == characteristic_views(reg.cal_seg_list@, cs@, vector),
        all_typed(v@),
{
    let mut v: Vec<McInstance> = Vec::new();
    let mut i: usize = 0;
    while i < cs.len()
        invariant
            i <= cs@.len(),
            v@.len() == i,
            forall|k: int| 0 <= k < cs@.len() ==> address_ok(#[trigger] cs@[k].addr, cs@[k].addr_ext, cs@[k].event_id, vector),
            forall|k: int| 0 <= k < i ==> #[trigger] instance_view(v@[k]) == characteristic_view(reg.cal_seg_list@, cs@[k], vector),
            all_typed(v@),
        decreases cs@.len() - i,
    {
        let c = &cs[i];
        let (x, y) = get_matrix_dim(&c.matrix_dim);
        let vt = get_value_type_from_record_layout(c.record_layout.as_str());
        let m = characteristic_support_of(c);
        let a = get_mc_address(reg, c.addr, c.addr_ext, c.event_id, vector);
        v.push(McInstance::new(c.name, McDimType::new(vt, x, y, m), a));
        i += 1;
    }
    assert(instance_views(v@) =~= characteristic_views(reg.cal_seg_list@, cs@, vector));
    v
}

/// The instances of the measurements
fn measurement_instances(reg: &Registry, ms: &Vec<A2lMeasurement>, vector: bool) -> (v: Vec<McInstance>)
    requires
        forall|k: int| 0 <= k < ms@.len() ==> address_ok(#[trigger] ms@[k].addr, ms@[k].addr_ext, ms@[k].event_id, vector),
    ensures
        instance_views(v@) == measurement_views(reg.cal_seg_list@, ms@, vector),
        all_typed(v@),
{
    let mut v: Vec<McInstance> = Vec::new();
    let mut i: usize = 0;
    while i < ms.len()
        invariant
            i <= ms@.len(),
            v@.len() == i,
            forall|k: int| 0 <= k < ms@.len() ==> address_ok(#[trigger] ms@[k].addr, ms@[k].addr_ext, ms@[k].event_id, vector),
            forall|k: int| 0 <= k < i ==> #[trigger] instance_view(v@[k]) == measurement_view(reg.cal_seg_list@, ms@[k], vector),
            all_typed(v@),
        decreases ms@.len() - i,
    {
        let me = &ms[i];
        let (x, y) = get_matrix_dim(&me.matrix_dim);
        let m = support_of(McObjectType::Measurement, me.comment, me.unit);
        let a = get_mc_address(reg, me.addr, me.addr_ext, me.event_id, vector);
        v.push(McInstance::new(me.name, McDimType::new(me.value_type, x, y, m), a));
        i += 1;
    }
    assert(instance_views(v@) =~= measurement_views(reg.cal_seg_list@, ms@, vector));
    v
}

/// The instances of the typedef instances
fn typedef_instances(reg: &Registry, is: &Vec<A2lInstance>, vector: bool) -> (v: Vec<McInstance>)
    requires
        forall|k: int| 0 <= k < is@.len() ==> address_ok(#[trigger] is@[k].addr, is@[k].addr_ext, is@[k].event_id, vector),
    ensures
        instance_views(v@) == a2l_instance_views(reg.cal_seg_list@, is@, vector),
        all_typed(v@),
{
    let mut v: Vec<McInstance> = Vec::new();
    let mut i: usize = 0;
    while i < is.len()
        invariant
            i <= is@.len(),
            v@.len() == i,
            forall|k: int| 0 <= k < is@.len() ==> address_ok(#[trigger] is@[k].addr, is@[k].addr_ext, is@[k].event_id, vector),
            forall|k: int| 0 <= k < i ==> #[trigger] instance_view(v@[k]) == a2l_instance_view(reg.cal_seg_list@, is@[k], vector),
            all_typed(v@),
        decreases is@.len() - i,
    {
        let inst = &is[i];
        let (x, y) = get_matrix_dim(&inst.matrix_dim);
        let ot = if inst.event_id.is_none() {
            McObjectType::Characteristic
        } else {
            McObjectType::Measurement
        };
        let m = McSupportData::new(ot).set_comment(inst.comment);
        let a = get_mc_address(reg, inst.addr, inst.addr_ext, inst.event_id, vector);
        v.push(McInstance::new(inst.name, McDimType::new(McValueType::TypeDef(inst.type_ref), x, y, m), a));
        i += 1;
    }
    assert(instance_views(v@) =~= a2l_instance_views(reg.cal_seg_list@, is@, vector));
    v
}

/// Add instances one after another; those whose name and address are taken are left out
fn add_loaded(list: &mut McInstanceList, items: &Vec<McInstance>)
    requires
        all_typed(items@),
    ensures
        instance_views(final(list)@) == add_all_views(instance_views(old(list)@), instance_views(items@)),
{
    let mut i: usize = 0;
    while i < items.len()
        invariant
            i <= items@.len(),
            all_typed(items@),
            instance_views(list@) == add_all_views(instance_views(old(list)@), instance_views(items@.take(i as int))),
        decreases items@.len() - i,
    {
        let x = items[i];
        let ghost before = list@;
        let r = list.add_instance(x.name, x.dim_type, x.address);
        proof {
            lemma_add_one_view(before, list@, x, r is Ok);
            lemma_add_all_views_push(instance_views(old(list)@), instance_views(items@.take(i as int)), instance_view(x));
            assert(instance_views(items@.take(i + 1)) =~= instance_views(items@.take(i as int)).push(instance_view(x)));
        }
        i += 1;
    }
    assert(items@.take(items@.len() as int) =~= items@);
}

//-------------------------------------------------------------------------------------------------
// Typedef structures and their leaves

/// A structure component as typedef field: an instance of its component type, metadata
/// without object type, the offset taken as u16
pub open spec fn component_field(c: A2lComponent) -> McTypeDefField {
    let m = support_new(McObjectType::Unspecified);
    McTypeDefField {
        name: c.name,
        dim_type: McDimType {
            value_type: McValueType::TypeDef(c.component_type),
            x_dim: matrix_dim(c.matrix_dim@).0,
            y_dim: matrix_dim(c.matrix_dim@).1,
            mc_support_data: m,
        },
        mc_support_data: m,
        offset: c.offset as u16,
    }
}

/// The steps that register a structure: the typedef, then each component
pub open spec fn structure_steps(s: A2lStructure) -> Seq<(Seq<char>, usize, Option<McTypeDefField>)> {
    seq![(s.name@, s.size, None)] + s.components@.map_values(
        |c: A2lComponent| (s.name@, 0usize, Some(component_field(c))),
    )
}

/// The steps of all structures, one after another
pub open spec fn structures_steps(ss: Seq<A2lStructure>) -> Seq<(Seq<char>, usize, Option<McTypeDefField>)>
    decreases ss.len(),
{
    if ss.len() == 0 {
        Seq::empty()
    } else {
        structures_steps(ss.drop_last()) + structure_steps(ss.last())
    }
}

/// Register the structures as typedefs with their components; a typedef whose name is taken,
/// and a component whose name is taken in its typedef, are left out
fn load_structures(reg: &mut Registry, ss: &Vec<A2lStructure>)
    ensures
        same_except_typedefs(*final(reg), *old(reg)),
        typedef_views(final(reg).typedef_list@) == apply_steps(typedef_views(old(reg).typedef_list@), structures_steps(ss@)),
{
    let ghost v0 = typedef_views(reg.typedef_list@);
    let mut i: usize = 0;
    while i < ss.len()
        invariant
            i <= ss@.len(),
            v0 == typedef_views(old(reg).typedef_list@),
            same_except_typedefs(*reg, *old(reg)),
            typedef_views(reg.typedef_list@) == apply_steps(v0, structures_steps(ss@.take(i as int))),
        decreases ss@.len() - i,
    {
        let s = &ss[i];
        let ghost done = structures_steps(ss@.take(i as int));
        let ghost w0 = typedef_views(reg.typedef_list@);
        let ghost tds0 = reg.typedef_list@;
        let ghost first = (s.name@, s.size, None::<McTypeDefField>);
        let ghost comps = s.components@.map_values(|c: A2lComponent| (s.name@, 0usize, Some(component_field(c))));
        let _ = reg.add_typedef(s.name, s.size);
        proof {
            let tds = reg.typedef_list@;
            assert((forall|j: int| 0 <= j < tds0.len() ==> (#[trigger] tds0[j]).name@ != s.name@) <==> (
            forall|j: int| 0 <= j < w0.len() ==> (#[trigger] w0[j]).0 != s.name@)) by {
                if forall|j: int| 0 <= j < w0.len() ==> (#[trigger] w0[j]).0 != s.name@ {
                    assert forall|j: int| 0 <= j < tds0.len() implies (#[trigger] tds0[j]).name@ != s.name@ by {
                        assert(w0[j].0 == tds0[j].name@);
                    }
                }
            }
            if tds.len() == tds0.len() + 1 {
                assert forall|j: int| 0 <= j < tds0.len() implies tds[j] == tds0[j] by {
                    assert(tds.drop_last()[j] == tds[j]);
                }
                assert(tds.last().fields@ =~= Seq::<McTypeDefField>::empty());
                assert(typedef_views(tds) =~= w0.push((s.name@, s.size, Seq::empty())));
            }
            lemma_apply_one_step(w0, first);
            lemma_apply_steps_concat(v0, done, seq![first]);
            assert(comps.take(0) =~= Seq::<(Seq<char>, usize, Option<McTypeDefField>)>::empty());
            assert(seq![first] + comps.take(0) =~= seq![first]);
        }
        let n = s.components.len();
        let mut k: usize = 0;
        while k < n
            invariant
                i < ss@.len(),
                *s == ss@[i as int],
                n == s.components@.len(),
                k <= n,
                same_except_typedefs(*reg, *old(reg)),
                v0 == typedef_views(old(reg).typedef_list@),
                done == structures_steps(ss@.take(i as int)),
                first == (s.name@, s.size, None::<McTypeDefField>),
                comps == s.components@.map_values(|c: A2lComponent| (s.name@, 0usize, Some(component_field(c)))),
                typedef_views(reg.typedef_list@) == apply_steps(v0, done + (seq![first] + comps.take(k as int))),
            decreases n - k,
        {
            let c = &s.components[k];
            let ghost before = done + (seq![first] + comps.take(k as int));
            let ghost mid = typedef_views(reg.typedef_list@);
            let ghost tds1 = reg.typedef_list@;
            let (x, y) = get_matrix_dim(&c.matrix_dim);
            let offset: u16 = #[verifier::truncate] (c.offset as u16);
            let dt = McDimType::new(McValueType::TypeDef(c.component_type), x, y, McSupportData::new(McObjectType::Unspecified));
            let r = reg.add_typedef_component(s.name.as_str(), c.name, dt, offset);
            proof {
                let comp = component_field(*c);
                let st = (s.name@, 0usize, Some(comp));
                assert(comps[k as int] == st);
                lemma_first_pos_views(tds1, s.name@);
                let p = first_typedef_pos(tds1, s.name@);
                if p >= 0 {
                    assert(mid[p].2 == tds1[p].fields@);
                    if r is Ok {
                        assert(typedef_views(reg.typedef_list@) =~= mid.update(p, (mid[p].0, mid[p].1, mid[p].2.push(comp))));
                    }
                }
                assert(typedef_views(reg.typedef_list@) == apply_step(mid, st));
                lemma_apply_one_step(mid, st);
                lemma_apply_steps_concat(v0, before, seq![st]);
                assert(done + (seq![first] + comps.take(k + 1)) =~= before + seq![st]);
            }
            k += 1;
        }
        proof {
            assert(comps.take(n as int) =~= comps);
            assert(ss@.take(i + 1).drop_last() =~= ss@.take(i as int));
            assert(ss@.take(i + 1).last() == *s);
            assert(structures_steps(ss@.take(i + 1)) == done + structure_steps(*s));
        }
        i += 1;
    }
    assert(ss@.take(ss@.len() as int) =~= ss@);
}

/// The value type of a leaf: given for a typedef measurement, else that of its record layout
pub open spec fn leaf_value_type(l: A2lTypedefLeaf) -> McValueType {
    if l.object_type == McObjectType::Measurement {
        l.value_type
    } else {
        value_type_of_record_layout(l.record_layout@)
    }
}

/// The dimensions of a leaf: a typedef axis has none
pub open spec fn leaf_dim(l: A2lTypedefLeaf) -> (u16, u16) {
    if l.object_type == McObjectType::Axis {
        (1, 1)
    } else {
        matrix_dim(l.matrix_dim@)
    }
}

/// The typedefs after turning the components that are instances of leaf l into leaves
pub open spec fn leaf_views(
    v: Seq<(Seq<char>, usize, Seq<McTypeDefField>)>,
    l: A2lTypedefLeaf,
) -> Seq<(Seq<char>, usize, Seq<McTypeDefField>)> {
    v.map_values(
        |t: (Seq<char>, usize, Seq<McTypeDefField>)|
            (
                t.0,
                t.1,
                t.2.map_values(
                    |f: McTypeDefField|
                        leaf_updated(
                            f,
                            l.name@,
                            leaf_value_type(l),
                            leaf_dim(l).0,
                            leaf_dim(l).1,
                            loaded_support(l.object_type, l.comment, l.unit),
                        ),
                ),
            ),
    )
}

/// The typedefs after all leaves, one after another
pub open spec fn leaves_views(
    v: Seq<(Seq<char>, usize, Seq<McTypeDefField>)>,
    ls: Seq<A2lTypedefLeaf>,
) -> Seq<(Seq<char>, usize, Seq<McTypeDefField>)>
    decreases ls.len(),
{
    if ls.len() == 0 {
        v
    } else {
        leaf_views(leaves_views(v, ls.drop_last()), ls.last())
    }
}

/// Update any typedef component that is an instance of the leaf to the leaf's value type,
/// dimensions and metadata
fn update_typedef_component(list: &mut McTypeDefList, l: &A2lTypedefLeaf)
    ensures
        typedef_views(final(list)@) == leaf_views(typedef_views(old(list)@), *l),
{
    let vt = if l.object_type == McObjectType::Measurement {
        l.value_type
    } else {
        get_value_type_from_record_layout(l.record_layout.as_str())
    };
    let (x, y) = if l.object_type == McObjectType::Axis {
        (1u16, 1u16)
    } else {
        get_matrix_dim(&l.matrix_dim)
    };
    let m = support_of(l.object_type, l.comment, l.unit);
    list.update_leaf_fields(l.name.as_str(), vt, x, y, m);
    assert(typedef_views(list@) =~= leaf_views(typedef_views(old(list)@), *l));
}

/// Turn the typedef components into leaves, leaf after leaf
fn load_leaves(list: &mut McTypeDefList, ls: &Vec<A2lTypedefLeaf>)
    ensures
        typedef_views(final(list)@) == leaves_views(typedef_views(old(list)@), ls@),
{
    let mut i: usize = 0;
    while i < ls.len()
        invariant
            i <= ls@.len(),
            typedef_views(list@) == leaves_views(typedef_views(old(list)@), ls@.take(i as int)),
        decreases ls@.len() - i,
    {
        update_typedef_component(list, &ls[i]);
        proof {
            assert(ls@.take(i + 1).drop_last() =~= ls@.take(i as int));
            assert(ls@.take(i + 1).last() == ls@[i as int]);
        }
        i += 1;
    }
    assert(ls@.take(ls@.len() as int) =~= ls@);
}

//-------------------------------------------------------------------------------------------------
// Loading

/// A Vector A2L has the project number "VECTOR" in its header
pub open spec fn vector_mode(m: A2lModule) -> bool {
    m.project_number matches Some(p) && p@ == "VECTOR"@
}

/// The EPK address: the first ADDR_EPK, else 0
pub open spec fn epk_address(m: A2lModule) -> u32 {
    if m.epk_addrs@.len() > 0 {
        m.epk_addrs@[0]
    } else {
        0
    }
}

/// What loading needs of a module: segment indices that can be computed, and objects relative to
/// an event in a Vector A2L that name their event as the high word of their address
pub open spec fn module_loadable(m: A2lModule) -> bool {
    let vector = vector_mode(m);
    &&& segments_loadable(m.segments@, vector)
    &&& forall|k: int|
        0 <= k < m.characteristics@.len() ==> address_ok(
            #[trigger] m.characteristics@[k].addr,
            m.characteristics@[k].addr_ext,
            m.characteristics@[k].event_id,
            vector,
        )
    &&& forall|k: int|
        0 <= k < m.measurements@.len() ==> address_ok(
            #[trigger] m.measurements@[k].addr,
            m.measurements@[k].addr_ext,
            m.measurements@[k].event_id,
            vector,
        )
    &&& forall|k: int|
        0 <= k < m.instances@.len() ==> address_ok(
            #[trigger] m.instances@[k].addr,
            m.instances@[k].addr_ext,
            m.instances@[k].event_id,
            vector,
        )
}

/// What loading a module with an ASAP2_VERSION makes of registry a: application name and
/// description from the project, version 0, the EPK where there is one, the memory segments, the
/// characteristics, measurements and typedef instances as instances, the typedef structures
/// completed by the leaves; events, name prefixing, flattening and transport parameters stay
pub open spec fn a2l_loaded(a: Registry, b: Registry, m: A2lModule) -> bool {
    let vector = vector_mode(m);
    let segs = loaded_segments(a.cal_seg_list@, m.segments@, vector);
    &&& b.app_name@ == m.project_name@
    &&& b.app_description@ == "created from a2lfile project "@ + m.project_name@
    &&& b.app_version == 0
    &&& m.epk matches Some(e) ==> b.epk@ == e@ && b.epk_addr == epk_address(m)
    &&& m.epk is None ==> b.epk == a.epk && b.epk_addr == a.epk_addr
    &&& b.prefix_names == a.prefix_names
    &&& b.flatten_typedefs == a.flatten_typedefs
    &&& b.xcp_tl_params == a.xcp_tl_params
    &&& b.event_list == a.event_list
    &&& b.cal_seg_list@ == segs
    &&& instance_views(b.instance_list@) == add_all_views(
        add_all_views(
            add_all_views(instance_views(a.instance_list@), characteristic_views(segs, m.characteristics@, vector)),
            measurement_views(segs, m.measurements@, vector),
        ),
        a2l_instance_views(segs, m.instances@, vector),
    )
    &&& typedef_views(b.typedef_list@) == leaves_views(
        apply_steps(typedef_views(a.typedef_list@), structures_steps(m.structures@)),
        m.leaves@,
    )
}

/// Load the first module of an A2L file into the registry
/// Err("A2l Version not found") and no change where the file has no ASAP2_VERSION
/// Else: application name and description from the project, the EPK where MOD_PAR has one, the
/// memory segments, the characteristics and measurements as instances, the typedef structures
/// with their components, which the typedef measurements, characteristics and axes turn into
/// leaves, and the typedef instances; whatever clashes with what is already there is left out
pub fn registry_load_a2lfile(reg: &mut Registry, m: &A2lModule) -> (r: Result<(), String>)
    requires
        module_loadable(*m),
    ensures
        !m.has_version ==> (r matches Err(e) && e@ == "A2l Version not found"@ && *final(reg) == *old(reg)),
        m.has_version ==> r is Ok && a2l_loaded(*old(reg), *final(reg), *m),
{
    if !m.has_version {
        return Err(str_to_string("A2l Version not found"));
    }
    let vector = match &m.project_number {
        Some(p) => str_eq(p.as_str(), "VECTOR"),
        None => false,
    };
    let mut description = str_to_string("created from a2lfile project ");
    push_str(&mut description, m.project_name.as_str());
    reg.set_app_info(m.project_name.as_str(), description.as_str(), 0);

    // EPK and memory segments
    match &m.epk {
        Some(e) => {
            let addr = if m.epk_addrs.len() > 0 {
                m.epk_addrs[0]
            } else {
                0
            };
            reg.set_app_version(e.as_str(), addr);
        },
        None => {},
    }
    load_segments(&mut reg.cal_seg_list, &m.segments, vector);

    // Characteristics and measurements
    let characteristics = characteristic_instances(reg, &m.characteristics, vector);
    add_loaded(&mut reg.instance_list, &characteristics);
    let measurements = measurement_instances(reg, &m.measurements, vector);
    add_loaded(&mut reg.instance_list, &measurements);

    // Typedefs and their leaves
    load_structures(reg, &m.structures);
    load_leaves(&mut reg.typedef_list, &m.leaves);

    // Typedef instances
    let instances = typedef_instances(reg, &m.instances, vector);
    add_loaded(&mut reg.instance_list, &instances);
    Ok(())
}

impl Registry {
    /// Load the first module of an A2L file into the registry, see `registry_load_a2lfile`
    pub fn load_a2lfile(&mut self, m: &A2lModule) -> (r: Result<(), String>)
        requires
            module_loadable(*m),
        ensures
            !m.has_version ==> (r matches Err(e) && e@ == "A2l Version not found"@ && *final(self) == *old(self)),
            m.has_version ==> r is Ok && a2l_loaded(*old(self), *final(self), *m),
    {
        registry_load_a2lfile(self, m)
    }
}

} // verus!
