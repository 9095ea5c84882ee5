// The registry of measurement signals and calibration parameters with basic data types, for the
// A2L file of an XCP server
//  RegistryXcpTransportLayer, RegistryCalSeg(List), RegistryEpk, RegistryMeasurement(List),
//  RegistryCharacteristic(List), Registry

use vstd::prelude::*;
use vstd::relations::sorted_by;

use crate::reg::{RegistryDataType, RegistryEvent, RegistryEventList};
use crate::sorting::{lemma_stable_filter, sort_by_le};
use crate::strings::{
    dec, lemma_lex_le_total, lemma_lex_ord_antisym, lemma_lex_le_trans, lex_le, push_char, push_dec, push_str, str_compare,
    str_eq,
};
use crate::xcp::{XCP_ADDR_EXT_APP, XcpEvent, app_calseg_base, get_calseg_ext_addr_base};

verus! {

//-------------------------------------------------------------------------------------------------
// Transport layer parameters, for the A2L XCP IF_DATA

/// XCP transport layer parameters: protocol name, IPv4 address octets and port
#[derive(Debug, Clone, Copy)]
pub struct RegistryXcpTransportLayer {
    pub protocol_name: &'static str,
    pub addr: [u8; 4],
    pub port: u16,
}

impl Default for RegistryXcpTransportLayer {
    fn default() -> (t: Self)
        ensures
            t.protocol_name@ == "UDP"@,
            t.addr@ == seq![127u8, 0, 0, 1],
            t.port == 5555,
    {
        let t = RegistryXcpTransportLayer { protocol_name: "UDP", addr: [127, 0, 0, 1], port: 5555 };
        assert(t.addr@ =~= seq![127u8, 0, 0, 1]);
        t
    }
}

//-------------------------------------------------------------------------------------------------
// Calibration segments

/// A calibration segment: name, index, address, address extension and size
#[derive(Debug, Clone, Copy)]
pub struct RegistryCalSeg {
    pub name: &'static str,
    pub index: u16,
    pub addr: u32,
    pub addr_ext: u8,
    pub size: u32,
}

impl RegistryCalSeg {
    pub fn new(name: &'static str, index: u16, addr: u32, addr_ext: u8, size: u32) -> (s: RegistryCalSeg)
        ensures
            s == (RegistryCalSeg { name, index, addr, addr_ext, size }),
    {
        RegistryCalSeg { name, index, addr, addr_ext, size }
    }
}

/// The calibration segments, in the order they were added
#[derive(Debug)]
pub struct RegistryCalSegList(Vec<RegistryCalSeg>);

impl View for RegistryCalSegList {
    type V = Seq<RegistryCalSeg>;

    closed spec fn view(&self) -> Seq<RegistryCalSeg> {
        self.0@
    }
}

impl RegistryCalSegList {
    pub fn new() -> (l: Self)
        ensures
            l@ == Seq::<RegistryCalSeg>::empty(),
    {
        RegistryCalSegList(Vec::new())
    }

    pub fn push(&mut self, c: RegistryCalSeg)
        ensures
            final(self)@ == old(self)@.push(c),
    {
        self.0.push(c);
    }

    /// The segments, in order
    pub fn iter(&self) -> (r: &[RegistryCalSeg])
        ensures
            r@ == self@,
    {
        self.0.as_slice()
    }
}

//-------------------------------------------------------------------------------------------------
// EPK software version id

/// The EPK software version text, if there is one, and its address
#[derive(Debug, Clone, Copy)]
pub struct RegistryEpk {
    pub epk: Option<&'static str>,
    pub epk_addr: u32,
}

impl RegistryEpk {
    pub fn new() -> (e: RegistryEpk)
        ensures
            e.epk is None,
            e.epk_addr == 0,
    {
        RegistryEpk { epk: None, epk_addr: 0 }
    }
}

//-------------------------------------------------------------------------------------------------
// Measurement signals

/// The linear conversion of a value, phys = factor * raw + offset: factor and offset formatted as
/// `{}` formats them, and whether it is the identity (factor 1 and offset 0)
#[derive(Debug, Clone)]
pub struct RegistryScaling {
    pub factor: String,
    pub offset: String,
    pub identity: bool,
}

/// Measurement signal: a basic value or an array of basic values in the memory of an event (at an
/// offset to the event base), or at an absolute XCP address (addr > 0)
#[derive(Debug, Clone)]
pub struct RegistryMeasurement {
    pub name: String,
    pub datatype: RegistryDataType,  // Basic types Ubyte, SByte, AUint64, Float64Ieee, ...  or Blob
    pub x_dim: u16,  // 1 = basic type, >1 = array[dim] of basic type
    pub y_dim: u16,  // 1 = basic type, >1 = array[x_dim,y_dim] of basic type
    pub xcp_event: XcpEvent,
    pub addr_offset: i16,  // Address offset (signed) relative to the event memory context
    pub addr: u64,  // XCP address of an absolutely addressed signal, 0 for an event relative one
    pub scaling: RegistryScaling,
    pub comment: &'static str,
    pub unit: &'static str,
    pub annotation: Option<String>,
}

impl RegistryMeasurement {
    /// Create a new measurement signal; its values take at most u16::MAX / 2 bytes
    pub fn new(
        name: String,
        datatype: RegistryDataType,
        x_dim: u16,
        y_dim: u16,
        xcp_event: XcpEvent,
        event_offset: i16,
        addr: u64,
        scaling: RegistryScaling,
        comment: &'static str,
        unit: &'static str,
        annotation: Option<String>,
    ) -> (m: Self)
        requires
            datatype != RegistryDataType::Unknown,
            (x_dim * y_dim) * crate::reg::size_of_type(datatype) <= u16::MAX / 2,
        ensures
            m == (RegistryMeasurement {
                name,
                datatype,
                x_dim,
                y_dim,
                xcp_event,
                addr_offset: event_offset,
                addr,
                scaling,
                comment,
                unit,
                annotation,
            }),
    {
        RegistryMeasurement {
            name,
            datatype,
            x_dim,
            y_dim,
            xcp_event,
            addr_offset: event_offset,
            addr,
            scaling,
            comment,
            unit,
            annotation,
        }
    }
}

/// The measurement signals
#[derive(Debug)]
pub struct RegistryMeasurementList(Vec<RegistryMeasurement>);

impl View for RegistryMeasurementList {
    type V = Seq<RegistryMeasurement>;

    closed spec fn view(&self) -> Seq<RegistryMeasurement> {
        self.0@
    }
}

/// Measurement signals ordered by name
pub open spec fn measurement_name_le(a: RegistryMeasurement, b: RegistryMeasurement) -> bool {
    lex_le(a.name@, b.name@)
}

/// The measurements of a name, in list order
pub open spec fn measurements_named(s: Seq<RegistryMeasurement>, n: Seq<char>) -> Seq<RegistryMeasurement> {
    s.filter(|y: RegistryMeasurement| y.name@ == n)
}

impl RegistryMeasurementList {
    pub fn new() -> (l: Self)
        ensures
            l@ == Seq::<RegistryMeasurement>::empty(),
    {
        RegistryMeasurementList(Vec::new())
    }

    pub fn push(&mut self, m: RegistryMeasurement)
        ensures
            final(self)@ == old(self)@.push(m),
    {
        self.0.push(m);
    }

    /// The measurement signals, in order
    pub fn iter(&self) -> (r: &[RegistryMeasurement])
        ensures
            r@ == self@,
    {
        self.0.as_slice()
    }

    /// Sort by name
    pub fn sort(&mut self)
        ensures
            final(self)@.to_multiset() == old(self)@.to_multiset(),
            sorted_by(final(self)@, |a: RegistryMeasurement, b: RegistryMeasurement| measurement_name_le(a, b)),
            forall|n: Seq<char>| #[trigger] measurements_named(final(self)@, n) == measurements_named(old(self)@, n),
    {
        let le = |a: &RegistryMeasurement, b: &RegistryMeasurement| -> (r: bool)
            ensures
                r == measurement_name_le(*a, *b),
            { str_compare(a.name.as_str(), b.name.as_str()) <= 0 };
        let ghost rel = |a: RegistryMeasurement, b: RegistryMeasurement| measurement_name_le(a, b);
        proof {
            assert forall|x: RegistryMeasurement, y: RegistryMeasurement, z: RegistryMeasurement|
                #[trigger] rel(x, y) && #[trigger] rel(y, z) implies rel(x, z) by {
                lemma_lex_le_trans(x.name@, y.name@, z.name@);
            }
            assert forall|x: RegistryMeasurement, y: RegistryMeasurement| #[trigger] rel(x, y) || #[trigger] rel(
                y,
                x,
            ) by {
                lemma_lex_le_total(x.name@, y.name@);
            }
        }
        sort_by_le(&mut self.0, &le, Ghost(rel));
        proof {
            assert forall|n: Seq<char>| #[trigger] measurements_named(self@, n) == measurements_named(old(self)@, n) by {
                let pred = |y: RegistryMeasurement| y.name@ == n;
                assert forall|a: RegistryMeasurement, b: RegistryMeasurement| #[trigger] pred(a) && #[trigger] pred(b) implies rel(a, b) && rel(b, a) by {
                    lemma_lex_ord_antisym(a.name@, b.name@);
                }
                assert forall|a: RegistryMeasurement, b: RegistryMeasurement| pred(a) && #[trigger] rel(a, b) && #[trigger] rel(b, a) implies pred(b) by {
                    lemma_lex_ord_antisym(a.name@, b.name@);
                }
                lemma_stable_filter(old(self)@, self@, rel, pred);
            }
        }
    }
}

//-------------------------------------------------------------------------------------------------
// Calibration parameters

/// Calibration parameter: in a calibration segment at an offset, or at an absolute XCP address
/// (addr_offset) where it has no segment; its limits formatted as `{}` formats them
#[derive(Debug, Clone)]
pub struct RegistryCharacteristic {
    pub calseg_name: Option<&'static str>,
    pub name: String,
    pub datatype: RegistryDataType,
    pub comment: &'static str,
    pub min: String,
    pub max: String,
    pub unit: &'static str,
    pub x_dim: usize,
    pub y_dim: usize,
    pub addr_offset: u64,
    pub event: Option<XcpEvent>,
}

/// MAP for two dimensions, CURVE for one, VALUE otherwise
pub open spec fn characteristic_type_of(x_dim: usize, y_dim: usize) -> Seq<char> {
    if x_dim > 1 && y_dim > 1 {
        "MAP"@
    } else if x_dim > 1 || y_dim > 1 {
        "CURVE"@
    } else {
        "VALUE"@
    }
}

impl RegistryCharacteristic {
    /// Create a new calibration parameter, with no event
    pub fn new(
        calseg_name: Option<&'static str>,
        name: String,
        datatype: RegistryDataType,
        comment: &'static str,
        min: String,
        max: String,
        unit: &'static str,
        x_dim: usize,
        y_dim: usize,
        addr_offset: u64,
    ) -> (c: Self)
        ensures
            c == (RegistryCharacteristic {
                calseg_name,
                name,
                datatype,
                comment,
                min,
                max,
                unit,
                x_dim,
                y_dim,
                addr_offset,
                event: None,
            }),
    {
        RegistryCharacteristic {
            calseg_name,
            name,
            datatype,
            comment,
            min,
            max,
            unit,
            x_dim,
            y_dim,
            addr_offset,
            event: None,
        }
    }

    /// Set the event associated with the calibration parameter
    pub fn set_event(&mut self, event: XcpEvent)
        ensures
            *final(self) == (RegistryCharacteristic { event: Some(event), ..*old(self) }),
    {
        self.event = Some(event);
    }

    /// Get the A2L object type of the calibration parameter
    pub fn get_type_str(&self) -> (s: &'static str)
        ensures
            s@ == characteristic_type_of(self.x_dim, self.y_dim),
    {
        if self.x_dim > 1 && self.y_dim > 1 {
            "MAP"
        } else if self.x_dim > 1 || self.y_dim > 1 {
            "CURVE"
        } else {
            "VALUE"
        }
    }
}

/// The calibration parameters
#[derive(Debug)]
pub struct RegistryCharacteristicList(Vec<RegistryCharacteristic>);

impl View for RegistryCharacteristicList {
    type V = Seq<RegistryCharacteristic>;

    closed spec fn view(&self) -> Seq<RegistryCharacteristic> {
        self.0@
    }
}

/// Calibration parameters ordered by name
pub open spec fn characteristic_name_le(a: RegistryCharacteristic, b: RegistryCharacteristic) -> bool {
    lex_le(a.name@, b.name@)
}

/// The calibration parameters of a name, in list order
pub open spec fn characteristics_named(s: Seq<RegistryCharacteristic>, n: Seq<char>) -> Seq<RegistryCharacteristic> {
    s.filter(|y: RegistryCharacteristic| y.name@ == n)
}

impl RegistryCharacteristicList {
    pub fn new() -> (l: Self)
        ensures
            l@ == Seq::<RegistryCharacteristic>::empty(),
    {
        RegistryCharacteristicList(Vec::new())
    }

    pub fn push(&mut self, characteristic: RegistryCharacteristic)
        ensures
            final(self)@ == old(self)@.push(characteristic),
    {
        self.0.push(characteristic);
    }

    /// Sort by name
    pub fn sort(&mut self)
        ensures
            final(self)@.to_multiset() == old(self)@.to_multiset(),
            sorted_by(
                final(self)@,
                |a: RegistryCharacteristic, b: RegistryCharacteristic| characteristic_name_le(a, b),
            ),
            forall|n: Seq<char>| #[trigger] characteristics_named(final(self)@, n) == characteristics_named(old(self)@, n),
    {
        let le = |a: &RegistryCharacteristic, b: &RegistryCharacteristic| -> (r: bool)
            ensures
                r == characteristic_name_le(*a, *b),
            { str_compare(a.name.as_str(), b.name.as_str()) <= 0 };
        let ghost rel = |a: RegistryCharacteristic, b: RegistryCharacteristic| characteristic_name_le(a, b);
        proof {
            assert forall|x: RegistryCharacteristic, y: RegistryCharacteristic, z: RegistryCharacteristic|
                #[trigger] rel(x, y) && #[trigger] rel(y, z) implies rel(x, z) by {
                lemma_lex_le_trans(x.name@, y.name@, z.name@);
            }
            assert forall|x: RegistryCharacteristic, y: RegistryCharacteristic| #[trigger] rel(x, y)
                || #[trigger] rel(y, x) by {
                lemma_lex_le_total(x.name@, y.name@);
            }
        }
        sort_by_le(&mut self.0, &le, Ghost(rel));
        proof {
            assert forall|n: Seq<char>| #[trigger] characteristics_named(self@, n) == characteristics_named(old(self)@, n) by {
                let pred = |y: RegistryCharacteristic| y.name@ == n;
                assert forall|a: RegistryCharacteristic, b: RegistryCharacteristic| #[trigger] pred(a) && #[trigger] pred(b) implies rel(a, b) && rel(b, a) by {
                    lemma_lex_ord_antisym(a.name@, b.name@);
                }
                assert forall|a: RegistryCharacteristic, b: RegistryCharacteristic| pred(a) && #[trigger] rel(a, b) && #[trigger] rel(b, a) implies pred(b) by {
                    lemma_lex_ord_antisym(a.name@, b.name@);
                }
                lemma_stable_filter(old(self)@, self@, rel, pred);
            }
        }
    }

    /// The calibration parameters, in order
    pub fn iter(&self) -> (r: &[RegistryCharacteristic])
        ensures
            r@ == self@,
    {
        self.0.as_slice()
    }
}

//-------------------------------------------------------------------------------------------------
// Registry

/// The registry of an XCP server: name, transport layer, EPK, calibration segments, calibration
/// parameters, events and measurement signals; frozen once it may no longer change
#[derive(Debug)]
pub struct Registry {
    pub freeze: bool,
    pub name: Option<&'static str>,
    pub tl_params: Option<RegistryXcpTransportLayer>,
    pub mod_par: RegistryEpk,
    pub cal_seg_list: RegistryCalSegList,
    pub characteristic_list: RegistryCharacteristicList,
    pub event_list: RegistryEventList,
    pub measurement_list: RegistryMeasurementList,
}

/// A registry as it is created: not frozen, with no name, transport layer, EPK or objects
pub open spec fn is_new_registry(r: Registry) -> bool {
    &&& !r.freeze
    &&& r.name is None
    &&& r.tl_params is None
    &&& r.mod_par.epk is None
    &&& r.mod_par.epk_addr == 0
    &&& r.cal_seg_list@.len() == 0
    &&& r.characteristic_list@.len() == 0
    &&& r.event_list@.len() == 0
    &&& r.measurement_list@.len() == 0
}

/// The lists of two registries are the same
pub open spec fn same_lists(a: Registry, b: Registry) -> bool {
    &&& a.cal_seg_list@ == b.cal_seg_list@
    &&& a.characteristic_list@ == b.characteristic_list@
    &&& a.event_list@ == b.event_list@
    &&& a.measurement_list@ == b.measurement_list@
}

/// The name under which a measurement signal is registered: with the index of its event appended
/// where that is > 0 (a multi instance event)
pub open spec fn registered_name(m: RegistryMeasurement) -> Seq<char> {
    registered_signal_name(m.name@, m.xcp_event)
}

/// The name under which a signal of this name and event is registered
pub open spec fn registered_signal_name(name: Seq<char>, event: XcpEvent) -> Seq<char> {
    if event@.1 > 0 {
        name + seq!['_'] + dec(event@.1 as nat)
    } else {
        name
    }
}

/// No signal of the list has this name
pub open spec fn signal_name_free(ms: Seq<RegistryMeasurement>, name: Seq<char>) -> bool {
    forall|j: int| 0 <= j < ms.len() ==> (#[trigger] ms[j]).name@ != name
}

/// The signal has these properties
pub open spec fn signal_is(
    m: RegistryMeasurement,
    name: Seq<char>,
    datatype: RegistryDataType,
    x_dim: u16,
    y_dim: u16,
    xcp_event: XcpEvent,
    addr_offset: i16,
    addr: u64,
    scaling: RegistryScaling,
    comment: &'static str,
    unit: &'static str,
    annotation: Option<String>,
) -> bool {
    &&& m.name@ == name
    &&& m.datatype == datatype
    &&& m.x_dim == x_dim
    &&& m.y_dim == y_dim
    &&& m.xcp_event == xcp_event
    &&& m.addr_offset == addr_offset
    &&& m.addr == addr
    &&& m.scaling == scaling
    &&& m.comment == comment
    &&& m.unit == unit
    &&& m.annotation == annotation
}

/// `after` is `before` with one more signal at its end
pub open spec fn signal_pushed(before: Seq<RegistryMeasurement>, after: Seq<RegistryMeasurement>) -> bool {
    after.len() == before.len() + 1 && after.drop_last() == before
}

/// Position of the first calibration segment of this name, or -1
pub open spec fn is_first_cal_seg(s: Seq<RegistryCalSeg>, i: int, name: Seq<char>) -> bool {
    &&& 0 <= i < s.len()
    &&& s[i].name@ == name
    &&& forall|j: int| 0 <= j < i ==> (#[trigger] s[j]).name@ != name
}

impl Default for Registry {
    fn default() -> (r: Self)
        ensures
            is_new_registry(r),
    {
        Self::new()
    }
}

impl Registry {
    /// Create a measurement and calibration registry
    pub fn new() -> (r: Registry)
        ensures
            is_new_registry(r),
    {
        Registry {
            freeze: false,
            name: None,
            tl_params: None,
            mod_par: RegistryEpk::new(),
            cal_seg_list: RegistryCalSegList::new(),
            characteristic_list: RegistryCharacteristicList::new(),
            event_list: RegistryEventList::new(),
            measurement_list: RegistryMeasurementList::new(),
        }
    }

    /// Clear: back to a new registry
    pub fn clear(&mut self)
        ensures
            is_new_registry(*final(self)),
    {
        self.freeze = false;
        self.name = None;
        self.tl_params = None;
        self.mod_par = RegistryEpk::new();
        self.cal_seg_list = RegistryCalSegList::new();
        self.characteristic_list = RegistryCharacteristicList::new();
        self.event_list = RegistryEventList::new();
        self.measurement_list = RegistryMeasurementList::new();
    }

    /// Freeze the registry
    pub fn freeze(&mut self)
        ensures
            final(self).freeze,
            final(self).name == old(self).name,
            final(self).tl_params == old(self).tl_params,
            final(self).mod_par == old(self).mod_par,
            same_lists(*final(self), *old(self)),
    {
        self.freeze = true;
    }

    /// Get freeze status
    pub fn is_frozen(&self) -> (b: bool)
        ensures
            b == self.freeze,
    {
        self.freeze
    }

    /// Set name
    pub fn set_name(&mut self, name: &'static str)
        ensures
            final(self).name == Some(name),
            final(self).freeze == old(self).freeze,
            final(self).tl_params == old(self).tl_params,
            final(self).mod_par == old(self).mod_par,
            same_lists(*final(self), *old(self)),
    {
        self.name = Some(name);
    }

    /// Get name
    pub fn get_name(&self) -> (r: Option<&'static str>)
        ensures
            r == self.name,
    {
        self.name
    }

    /// Set the EPK and its address
    pub fn set_epk(&mut self, epk: &'static str, epk_addr: u32)
        ensures
            final(self).mod_par == (RegistryEpk { epk: Some(epk), epk_addr }),
            final(self).freeze == old(self).freeze,
            final(self).name == old(self).name,
            final(self).tl_params == old(self).tl_params,
            same_lists(*final(self), *old(self)),
    {
        self.mod_par.epk = Some(epk);
        self.mod_par.epk_addr = epk_addr;
    }

    /// Get the EPK
    pub fn get_epk(&mut self) -> (r: Option<&'static str>)
        ensures
            r == old(self).mod_par.epk,
            *final(self) == *old(self),
    {
        self.mod_par.epk
    }

    /// Set the transport layer parameters
    pub fn set_tl_params(&mut self, protocol_name: &'static str, addr: [u8; 4], port: u16)
        ensures
            final(self).tl_params == Some(RegistryXcpTransportLayer { protocol_name, addr, port }),
            final(self).freeze == old(self).freeze,
            final(self).name == old(self).name,
            final(self).mod_par == old(self).mod_par,
            same_lists(*final(self), *old(self)),
    {
        self.tl_params = Some(RegistryXcpTransportLayer { protocol_name, addr, port });
    }

    /// Add an event
    pub fn add_event(&mut self, name: &'static str, xcp_event: XcpEvent)
        requires
            !old(self).freeze,
        ensures
            final(self).event_list@ == old(self).event_list@.push(RegistryEvent { name, xcp_event }),
            final(self).freeze == old(self).freeze,
            final(self).name == old(self).name,
            final(self).tl_params == old(self).tl_params,
            final(self).mod_par == old(self).mod_par,
            final(self).cal_seg_list@ == old(self).cal_seg_list@,
            final(self).characteristic_list@ == old(self).characteristic_list@,
            final(self).measurement_list@ == old(self).measurement_list@,
    {
        self.event_list.push(RegistryEvent { name, xcp_event });
    }

    /// Add a calibration segment, at the address of its index: (index + 1) | 0x8000 in the high
    /// word, address extension 0
    pub fn add_cal_seg(&mut self, name: &'static str, index: u16, size: u32)
        requires
            !old(self).freeze,
            forall|j: int|
                0 <= j < old(self).cal_seg_list@.len() ==> (#[trigger] old(self).cal_seg_list@[j]).name@
                    != name@,
        ensures
            final(self).cal_seg_list@ == old(self).cal_seg_list@.push(
                RegistryCalSeg { name, index, addr: app_calseg_base(index), addr_ext: XCP_ADDR_EXT_APP, size },
            ),
            final(self).freeze == old(self).freeze,
            final(self).name == old(self).name,
            final(self).tl_params == old(self).tl_params,
            final(self).mod_par == old(self).mod_par,
            final(self).characteristic_list@ == old(self).characteristic_list@,
            final(self).event_list@ == old(self).event_list@,
            final(self).measurement_list@ == old(self).measurement_list@,
    {
        let (addr_ext, addr) = get_calseg_ext_addr_base(index);
        self.cal_seg_list.push(RegistryCalSeg::new(name, index, addr, addr_ext, size));
    }

    /// Get the index of the first calibration segment of this name
    pub fn get_cal_seg_index(&self, name: &str) -> (r: Option<u16>)
        ensures
            match r {
                Some(x) => exists|i: int|
                    is_first_cal_seg(self.cal_seg_list@, i, name@) && self.cal_seg_list@[i].index == x,
                None => forall|j: int|
                    0 <= j < self.cal_seg_list@.len() ==> (#[trigger] self.cal_seg_list@[j]).name@ != name@,
            },
    {
        let segs = self.cal_seg_list.iter();
        let mut i: usize = 0;
        while i < segs.len()
            invariant
                segs@ == self.cal_seg_list@,
                i <= segs@.len(),
                forall|j: int| 0 <= j < i ==> (#[trigger] segs@[j]).name@ != name@,
            decreases segs@.len() - i,
        {
            if str_eq(segs[i].name, name) {
                assert(is_first_cal_seg(self.cal_seg_list@, i as int, name@));
                return Some(segs[i].index);
            }
            i += 1;
        }
        None
    }

    /// The measurement signals
    pub fn get_measurement_list(&self) -> (r: &Vec<RegistryMeasurement>)
        ensures
            r@ == self.measurement_list@,
    {
        &self.measurement_list.0
    }

    /// Add a measurement signal, with the index of its event appended to its name for a multi
    /// instance event (index > 0)
    pub fn add_measurement(&mut self, m: RegistryMeasurement)
        requires
            !old(self).freeze,
            forall|j: int|
                0 <= j < old(self).measurement_list@.len() ==> (#[trigger] old(
                    self,
                ).measurement_list@[j]).name@ != registered_name(m),
        ensures
            final(self).measurement_list@.len() == old(self).measurement_list@.len() + 1,
            final(self).measurement_list@.drop_last() == old(self).measurement_list@,
            final(self).measurement_list@.last() == (RegistryMeasurement {
                name: final(self).measurement_list@.last().name,
                ..m
            }),
            final(self).measurement_list@.last().name@ == registered_name(m),
            final(self).freeze == old(self).freeze,
            final(self).name == old(self).name,
            final(self).tl_params == old(self).tl_params,
            final(self).mod_par == old(self).mod_par,
            final(self).cal_seg_list@ == old(self).cal_seg_list@,
            final(self).characteristic_list@ == old(self).characteristic_list@,
            final(self).event_list@ == old(self).event_list@,
    {
        let mut m = m;
        let index = m.xcp_event.get_index();
        if index > 0 {
            let mut name = String::new();
            push_str(&mut name, m.name.as_str());
            push_char(&mut name, '_');
            push_dec(&mut name, index as u64);
            m.name = name;
        }
        self.measurement_list.push(m);
        assert(self.measurement_list@.drop_last() =~= old(self).measurement_list@);
    }

    /// Add a calibration parameter
    pub fn add_characteristic(&mut self, c: RegistryCharacteristic)
        requires
            !old(self).freeze,
            forall|j: int|
                0 <= j < old(self).characteristic_list@.len() ==> (#[trigger] old(
                    self,
                ).characteristic_list@[j]).name@ != c.name@,
            c.x_dim > 0,
            c.y_dim > 0,
        ensures
            final(self).characteristic_list@ == old(self).characteristic_list@.push(c),
            final(self).freeze == old(self).freeze,
            final(self).name == old(self).name,
            final(self).tl_params == old(self).tl_params,
            final(self).mod_par == old(self).mod_par,
            final(self).cal_seg_list@ == old(self).cal_seg_list@,
            final(self).event_list@ == old(self).event_list@,
            final(self).measurement_list@ == old(self).measurement_list@,
    {
        self.characteristic_list.push(c);
    }

    /// The first calibration parameter of this name
    pub fn find_characteristic(&self, name: &str) -> (r: Option<&RegistryCharacteristic>)
        ensures
            match r {
                Some(c) => exists|i: int|
                    0 <= i < self.characteristic_list@.len() && *c == self.characteristic_list@[i]
                        && c.name@ == name@ && forall|j: int|
                        0 <= j < i ==> (#[trigger] self.characteristic_list@[j]).name@ != name@,
                None => forall|j: int|
                    0 <= j < self.characteristic_list@.len() ==> (#[trigger] self.characteristic_list@[j]).name@
                        != name@,
            },
    {
        let cs = self.characteristic_list.iter();
        let mut i: usize = 0;
        while i < cs.len()
            invariant
                cs@ == self.characteristic_list@,
                i <= cs@.len(),
                forall|j: int| 0 <= j < i ==> (#[trigger] cs@[j]).name@ != name@,
            decreases cs@.len() - i,
        {
            if str_eq(cs[i].name.as_str(), name) {
                return Some(&cs[i]);
            }
            i += 1;
        }
        None
    }
}

} // verus!
