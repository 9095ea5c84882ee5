// A2L text of registry objects: dimensions, axis descriptions, event IF_DATA, events and
// memory segments

use vstd::prelude::*;

use crate::mc_address::{McAddrMode, McAddress, XCP_ADDR_EXT_DYN, a2l_addr_of};
use crate::mc_calseg::McCalibrationSegment;
use crate::mc_event::McEvent;
use crate::mc_instance::{McInstance, instance_event_index, instance_unique_name};
use crate::mc_support::{McObjectType, McSupportData};
use crate::mc_text::McIdentifier;
use crate::mc_type::{
    McDimType, McValueType, characteristic_subtype, get_characteristic_subtype_str, is_basic_type,
    record_layout_str, type_str,
};
use crate::registry::Registry;
use crate::strings::{dec, hex, push_dec, push_hex, push_str, str_to_chars, push_char};

verus! {

//-------------------------------------------------------------------------------------------------
// Dimensions and axis descriptions

/// MATRIX_DIM of a multi-dimensional value
pub open spec fn dimensions_text(x_dim: u16, y_dim: u16) -> Seq<char> {
    if x_dim > 1 && y_dim > 1 {
        " MATRIX_DIM "@ + dec(x_dim as nat) + " "@ + dec(y_dim as nat)
    } else if x_dim > 1 {
        " MATRIX_DIM "@ + dec(x_dim as nat)
    } else {
        Seq::empty()
    }
}

/// Write MATRIX_DIM if multi-dimensional
pub fn write_dimensions(dim_type: &McDimType, s: &mut String)
    ensures
        final(s)@ == old(s)@ + dimensions_text(dim_type.x_dim, dim_type.y_dim),
{
    let x_dim = dim_type.x_dim;
    let y_dim = dim_type.y_dim;
    if x_dim > 1 && y_dim > 1 {
        push_str(s, " MATRIX_DIM ");
        push_dec(s, x_dim as u64);
        push_str(s, " ");
        push_dec(s, y_dim as u64);
    } else if x_dim > 1 {
        push_str(s, " MATRIX_DIM ");
        push_dec(s, x_dim as u64);
    }
    assert(final(s)@ =~= old(s)@ + dimensions_text(x_dim, y_dim));
}

/// One AXIS_DESCR of dimension d: a fixed axis with the conversion of `conv`, a common axis
/// with the axis points `axis_ref`, or a fixed axis 0..d-1
pub open spec fn axis_text(d: u16, conv: Option<McIdentifier>, axis_ref: Option<McIdentifier>) -> Seq<char>
    recommends
        d > 1,
{
    match conv {
        Some(c) => " /begin AXIS_DESCR FIX_AXIS NO_INPUT_QUANTITY "@ + c@ + " "@ + dec(d as nat) + " 0 "@
            + dec((d - 1) as nat) + " FIX_AXIS_PAR_DIST 0 1 "@ + dec(d as nat) + " /end AXIS_DESCR"@,
        None => match axis_ref {
            Some(r) => " /begin AXIS_DESCR COM_AXIS NO_INPUT_QUANTITY NO_COMPU_METHOD "@ + dec(d as nat)
                + " 0.0 0.0 AXIS_PTS_REF "@ + r@ + " /end AXIS_DESCR"@,
            None => " /begin AXIS_DESCR FIX_AXIS NO_INPUT_QUANTITY NO_COMPU_METHOD "@ + dec(d as nat)
                + " 0 "@ + dec((d - 1) as nat) + " FIX_AXIS_PAR_DIST 0 1 "@ + dec(d as nat)
                + " /end AXIS_DESCR"@,
        },
    }
}

/// AXIS_DESCR of a MAP (x and y) or a CURVE (x)
pub open spec fn axis_descr_text(dim_type: McDimType) -> Seq<char> {
    let x = dim_type.x_dim;
    let y = dim_type.y_dim;
    let m = dim_type.mc_support_data;
    if x > 1 && y > 1 {
        axis_text(x, m.x_axis_conv, m.x_axis_ref) + axis_text(y, m.y_axis_conv, m.y_axis_ref)
    } else if x > 1 {
        axis_text(x, m.x_axis_conv, m.x_axis_ref)
    } else {
        Seq::empty()
    }
}

fn write_axis(d: u16, conv: Option<McIdentifier>, axis_ref: Option<McIdentifier>, s: &mut String)
    requires
        d > 1,
    ensures
        final(s)@ == old(s)@ + axis_text(d, conv, axis_ref),
{
    match conv {
        Some(c) => {
            push_str(s, " /begin AXIS_DESCR FIX_AXIS NO_INPUT_QUANTITY ");
            push_str(s, c.as_str());
            push_str(s, " ");
            push_dec(s, d as u64);
            push_str(s, " 0 ");
            push_dec(s, (d - 1) as u64);
            push_str(s, " FIX_AXIS_PAR_DIST 0 1 ");
            push_dec(s, d as u64);
            push_str(s, " /end AXIS_DESCR");
        },
        None => match axis_ref {
            Some(r) => {
                push_str(s, " /begin AXIS_DESCR COM_AXIS NO_INPUT_QUANTITY NO_COMPU_METHOD ");
                push_dec(s, d as u64);
                push_str(s, " 0.0 0.0 AXIS_PTS_REF ");
                push_str(s, r.as_str());
                push_str(s, " /end AXIS_DESCR");
            },
            None => {
                push_str(s, " /begin AXIS_DESCR FIX_AXIS NO_INPUT_QUANTITY NO_COMPU_METHOD ");
                push_dec(s, d as u64);
                push_str(s, " 0 ");
                push_dec(s, (d - 1) as u64);
                push_str(s, " FIX_AXIS_PAR_DIST 0 1 ");
                push_dec(s, d as u64);
                push_str(s, " /end AXIS_DESCR");
            },
        },
    }
    assert(final(s)@ =~= old(s)@ + axis_text(d, conv, axis_ref));
}

/// Write AXIS_DESCR for MAP or CURVE, or TYPEDEF_MAP and TYPEDEF_CURVE
pub fn write_axis_descr(_name: &str, dim_type: &McDimType, s: &mut String)
    ensures
        final(s)@ == old(s)@ + axis_descr_text(*dim_type),
{
    let x_dim = dim_type.x_dim;
    let y_dim = dim_type.y_dim;
    let m = &dim_type.mc_support_data;
    if x_dim > 1 && y_dim > 1 {
        write_axis(x_dim, m.x_axis_conv, m.x_axis_ref, s);
        write_axis(y_dim, m.y_axis_conv, m.y_axis_ref, s);
    } else if x_dim > 1 {
        write_axis(x_dim, m.x_axis_conv, m.x_axis_ref, s);
    }
    assert(final(s)@ =~= old(s)@ + axis_descr_text(*dim_type));
}

/// The axis description of a CURVE (x dimension d > 1, no y dimension): a fixed axis 0..d-1
/// with the x conversion where there is one, else a common axis over the x axis points where
/// there are some, else a fixed axis 0..d-1 without conversion; a value (x dimension 1) has none
pub proof fn lemma_curve_axis(d: McDimType)
    ensures
        ({
            let m = d.mc_support_data;
            let n = d.x_dim as nat;
            &&& d.x_dim <= 1 ==> axis_descr_text(d) == Seq::<char>::empty()
            &&& (d.x_dim > 1 && d.y_dim <= 1 && m.x_axis_conv is Some) ==> axis_descr_text(d)
                == " /begin AXIS_DESCR FIX_AXIS NO_INPUT_QUANTITY "@ + m.x_axis_conv.unwrap()@ + " "@ + dec(n) + " 0 "@ + dec(
                (n - 1) as nat,
            ) + " FIX_AXIS_PAR_DIST 0 1 "@ + dec(n) + " /end AXIS_DESCR"@
            &&& (d.x_dim > 1 && d.y_dim <= 1 && m.x_axis_conv is None && m.x_axis_ref is Some)
                ==> axis_descr_text(d) == " /begin AXIS_DESCR COM_AXIS NO_INPUT_QUANTITY NO_COMPU_METHOD "@
                + dec(n) + " 0.0 0.0 AXIS_PTS_REF "@ + m.x_axis_ref.unwrap()@ + " /end AXIS_DESCR"@
            &&& d.x_dim > 1 && d.y_dim <= 1 && m.x_axis_conv is None && m.x_axis_ref is None
                ==> axis_descr_text(d) == " /begin AXIS_DESCR FIX_AXIS NO_INPUT_QUANTITY NO_COMPU_METHOD "@
                + dec(n) + " 0 "@ + dec((n - 1) as nat) + " FIX_AXIS_PAR_DIST 0 1 "@ + dec(n)
                + " /end AXIS_DESCR"@
        }),
{
}

/// In a MAP the second axis description is the y axis, described as the x axis of a CURVE of
/// the y dimension with the y conversion and y axis points would be; it follows the x axis
/// description of the MAP, which is that of the CURVE of the x dimension
pub proof fn lemma_map_axes(d: McDimType)
    requires
        d.x_dim > 1,
        d.y_dim > 1,
    ensures
        ({
            let m = d.mc_support_data;
            let curve_x = McDimType { y_dim: 1, ..d };
            let curve_y = McDimType {
                x_dim: d.y_dim,
                y_dim: 1,
                mc_support_data: McSupportData { x_axis_conv: m.y_axis_conv, x_axis_ref: m.y_axis_ref, ..m },
                ..d
            };
            axis_descr_text(d) == axis_descr_text(curve_x) + axis_descr_text(curve_y)
        }),
{
}

/// The y axis description of a MAP does not depend on the x axis: two MAPs of the same
/// dimensions and y axis, whatever their x conversions and x axis points, end in the same text
/// after their x axis descriptions
pub proof fn lemma_map_y_axis_independent(d1: McDimType, d2: McDimType)
    requires
        d1.x_dim > 1,
        d1.y_dim > 1,
        d2.x_dim == d1.x_dim,
        d2.y_dim == d1.y_dim,
        d2.mc_support_data.y_axis_conv == d1.mc_support_data.y_axis_conv,
        d2.mc_support_data.y_axis_ref == d1.mc_support_data.y_axis_ref,
    ensures
        axis_descr_text(d1).skip(axis_descr_text(McDimType { y_dim: 1, ..d1 }).len() as int)
            == axis_descr_text(d2).skip(axis_descr_text(McDimType { y_dim: 1, ..d2 }).len() as int),
{
    let c1 = axis_descr_text(McDimType { y_dim: 1, ..d1 });
    let c2 = axis_descr_text(McDimType { y_dim: 1, ..d2 });
    let y1 = axis_text(d1.y_dim, d1.mc_support_data.y_axis_conv, d1.mc_support_data.y_axis_ref);
    assert(axis_descr_text(d1) == c1 + y1);
    assert(axis_descr_text(d2) == c2 + y1);
    assert((c1 + y1).skip(c1.len() as int) =~= y1);
    assert((c2 + y1).skip(c2.len() as int) =~= y1);
}

/// A MAP whose y axis has no conversion and the axis points r ends in a common axis of the y
/// dimension over r
pub proof fn lemma_map_y_common_axis(d: McDimType, r: McIdentifier)
    requires
        d.x_dim > 1,
        d.y_dim > 1,
        d.mc_support_data.y_axis_conv is None,
        d.mc_support_data.y_axis_ref == Some(r),
    ensures
        axis_descr_text(d) == axis_descr_text(McDimType { y_dim: 1, ..d })
            + " /begin AXIS_DESCR COM_AXIS NO_INPUT_QUANTITY NO_COMPU_METHOD "@ + dec(d.y_dim as nat)
            + " 0.0 0.0 AXIS_PTS_REF "@ + r@ + " /end AXIS_DESCR"@,
{
    let c = axis_descr_text(McDimType { y_dim: 1, ..d });
    let t = " /begin AXIS_DESCR COM_AXIS NO_INPUT_QUANTITY NO_COMPU_METHOD "@ + dec(d.y_dim as nat)
        + " 0.0 0.0 AXIS_PTS_REF "@ + r@ + " /end AXIS_DESCR"@;
    assert(axis_descr_text(d) == c + t);
    assert(c + " /begin AXIS_DESCR COM_AXIS NO_INPUT_QUANTITY NO_COMPU_METHOD "@ + dec(d.y_dim as nat)
        + " 0.0 0.0 AXIS_PTS_REF "@ + r@ + " /end AXIS_DESCR"@ =~= c + t);
}

/// IF_DATA of an instance with a fixed event
pub open spec fn ifdata_event_text(event_id: u16) -> Seq<char> {
    " /begin IF_DATA XCP /begin DAQ_EVENT FIXED_EVENT_LIST EVENT "@ + dec(event_id as nat)
        + " /end DAQ_EVENT /end IF_DATA"@
}

/// Write instance IF_DATA with event
pub fn write_ifdata_event(event_id: u16, s: &mut String)
    ensures
        final(s)@ == old(s)@ + ifdata_event_text(event_id),
{
    push_str(s, " /begin IF_DATA XCP /begin DAQ_EVENT FIXED_EVENT_LIST EVENT ");
    push_dec(s, event_id as u64);
    push_str(s, " /end DAQ_EVENT /end IF_DATA");
    assert(final(s)@ =~= old(s)@ + ifdata_event_text(event_id));
}

//-------------------------------------------------------------------------------------------------
// Events

pub open spec fn pow10(n: nat) -> nat
    decreases n,
{
    if n == 0 {
        1
    } else {
        10 * pow10((n - 1) as nat)
    }
}

/// ASAM timeCycle and timeUnit (1ns * 10^timeUnit) of a cycle time in ns: the unit is
/// raised until the cycle fits in a byte
pub open spec fn event_time_cycle(t: nat) -> (nat, nat)
    decreases t,
{
    if t >= 256 {
        let r = event_time_cycle(t / 10);
        (r.0, r.1 + 1)
    } else {
        (t, 0)
    }
}

/// The time cycle fits in a byte, and it is the cycle time in the time unit, rounded down
pub proof fn lemma_event_time_cycle(t: nat)
    ensures
        event_time_cycle(t).0 < 256,
        event_time_cycle(t).0 * pow10(event_time_cycle(t).1) <= t,
        t < (event_time_cycle(t).0 + 1) * pow10(event_time_cycle(t).1),
    decreases t,
{
    if t >= 256 {
        lemma_event_time_cycle(t / 10);
        let r = event_time_cycle(t / 10);
        let c = r.0;
        let p = pow10(r.1);
        let q = t / 10;
        assert(event_time_cycle(t) == (c, r.1 + 1));
        assert(pow10(r.1 + 1) == 10 * p);
        assert(c * (10 * p) <= t) by (nonlinear_arith)
            requires
                c * p <= q,
                q == t / 10,
                t >= 0,
        ;
        assert(t < (c + 1) * (10 * p)) by (nonlinear_arith)
            requires
                q < (c + 1) * p,
                q == t / 10,
                t >= 0,
        ;
        assert(event_time_cycle(t).0 * pow10(event_time_cycle(t).1) == c * (10 * p));
        assert((event_time_cycle(t).0 + 1) * pow10(event_time_cycle(t).1) == (c + 1) * (10 * p));
    } else {
        assert(pow10(0) == 1);
        assert(event_time_cycle(t) == (t, 0nat));
        assert(t * 1 == t);
        assert((t + 1) * 1 == t + 1);
    }
}

/// The time unit of a 32 bit cycle time is at most 10^8 ns
proof fn lemma_time_unit_bound(t: nat, k: nat)
    requires
        t < 256 * pow10(k),
    ensures
        event_time_cycle(t).1 <= k,
    decreases t,
{
    if t >= 256 {
        assert(k > 0);
        assert(pow10(k) == 10 * pow10((k - 1) as nat));
        assert(t / 10 < 256 * pow10((k - 1) as nat));
        lemma_time_unit_bound(t / 10, (k - 1) as nat);
    }
}

/// "name" cut to at most n characters, as `{:.n}` formats a string
pub open spec fn cut(s: Seq<char>, n: nat) -> Seq<char> {
    if s.len() <= n {
        s
    } else {
        s.take(n as int)
    }
}

/// The long and short name of an event in its A2L EVENT, cut to 100 and 8 characters, with
/// the instance index where there is one
pub open spec fn event_names_text(name: Seq<char>, index: u16) -> Seq<char> {
    if index > 0 {
        "/begin EVENT \""@ + cut(name, 98) + seq!['_'] + dec(index as nat) + "\" \""@ + cut(name, 6)
            + seq!['_'] + dec(index as nat) + "\" "@
    } else {
        "/begin EVENT \""@ + cut(name, 100) + "\" \""@ + cut(name, 8) + "\" "@
    }
}

/// The A2L EVENT of an event: long and short name, id, time cycle and unit, priority 0
pub open spec fn event_text(e: McEvent) -> Seq<char> {
    let tc = event_time_cycle(e.target_cycle_time_ns as nat);
    event_names_text(e.name@, e.index) + dec(e.id as nat) + " DAQ 0xFF "@ + dec(tc.0) + " "@
        + dec(tc.1) + " "@ + dec(0) + " CONSISTENCY DAQ /end EVENT\n"@
}

/// The names of an EVENT: the long name is the first 100 characters of the event name, the
/// short name its first 8 characters (for an event with an instance index: the first 98 and 6
/// characters, followed by "_" and the index); both are prefixes of the event name and the
/// short name has at most 8 characters before the index
pub proof fn lemma_event_names(e: McEvent)
    ensures
        ({
            let n = e.name@;
            let long = if n.len() <= 100 { n } else { n.take(100) };
            let short = if n.len() <= 8 { n } else { n.take(8) };
            e.index == 0 ==> ("/begin EVENT \""@ + long + "\" \""@ + short + "\" "@).is_prefix_of(event_text(e))
        }),
        ({
            let n = e.name@;
            let long = if n.len() <= 98 { n } else { n.take(98) };
            let short = if n.len() <= 6 { n } else { n.take(6) };
            let suffix = seq!['_'] + dec(e.index as nat);
            e.index > 0 ==> ("/begin EVENT \""@ + long + suffix + "\" \""@ + short + suffix + "\" "@).is_prefix_of(
                event_text(e),
            )
        }),
{
    let n = e.name@;
    let tc = event_time_cycle(e.target_cycle_time_ns as nat);
    let rest = dec(e.id as nat) + " DAQ 0xFF "@ + dec(tc.0) + " "@ + dec(tc.1) + " "@ + dec(0)
        + " CONSISTENCY DAQ /end EVENT\n"@;
    assert(event_text(e) == event_names_text(n, e.index) + rest);
    if e.index == 0 {
        let long = if n.len() <= 100 { n } else { n.take(100) };
        let short = if n.len() <= 8 { n } else { n.take(8) };
        assert(event_names_text(n, 0) == "/begin EVENT \""@ + long + "\" \""@ + short + "\" "@);
        let p = "/begin EVENT \""@ + long + "\" \""@ + short + "\" "@;
        assert(event_text(e) == p + rest);
        assert((p + rest).subrange(0, p.len() as int) =~= p);
    } else {
        let long = if n.len() <= 98 { n } else { n.take(98) };
        let short = if n.len() <= 6 { n } else { n.take(6) };
        let suffix = seq!['_'] + dec(e.index as nat);
        assert(event_names_text(n, e.index) =~= "/begin EVENT \""@ + long + suffix + "\" \""@ + short + suffix + "\" "@);
        let p = "/begin EVENT \""@ + long + suffix + "\" \""@ + short + suffix + "\" "@;
        assert(event_text(e) == p + rest);
        assert((p + rest).subrange(0, p.len() as int) =~= p);
    }
}

/// Appends at most n characters of t
fn push_cut(s: &mut String, t: &str, n: usize)
    ensures
        final(s)@ == old(s)@ + cut(t@, n as nat),
{
    let v = str_to_chars(t);
    let k = if v.len() <= n {
        v.len()
    } else {
        n
    };
    let mut i: usize = 0;
    while i < k
        invariant
            k <= v@.len(),
            i <= k,
            s@ == old(s)@ + v@.take(i as int),
        decreases k - i,
    {
        push_char(s, v[i]);
        i += 1;
        assert(s@ =~= old(s)@ + v@.take(i as int));
    }
    assert(v@.take(k as int) =~= cut(t@, n as nat));
}

/// Convert a cycle time to ASAM coding timeCycle and timeUnit
/// "UNIT_1NS" = 0, "UNIT_10NS" = 1, ...
fn time_cycle_and_unit(t: u32) -> (r: (u32, u8))
    ensures
        (r.0 as nat, r.1 as nat) == event_time_cycle(t as nat),
{
    let mut time_unit: u8 = 0;
    let mut time_cycle = t;
    proof {
        assert(pow10(8) == 100000000) by {
            reveal_with_fuel(pow10, 9);
        }
        lemma_time_unit_bound(time_cycle as nat, 8);
    }
    while time_cycle >= 256
        invariant
            event_time_cycle(t as nat) == (
                event_time_cycle(time_cycle as nat).0,
                event_time_cycle(time_cycle as nat).1 + time_unit as nat,
            ),
            event_time_cycle(time_cycle as nat).1 + time_unit <= 8,
        decreases time_cycle,
    {
        time_cycle /= 10;
        time_unit += 1;
    }
    (time_cycle, time_unit)
}

pub(crate) fn push_event_names(s: &mut String, name: &str, index: u16)
    ensures
        final(s)@ == old(s)@ + event_names_text(name@, index),
{
    if index > 0 {
        push_str(s, "/begin EVENT \"");
        push_cut(s, name, 98);
        push_char(s, '_');
        push_dec(s, index as u64);
        push_str(s, "\" \"");
        push_cut(s, name, 6);
        push_char(s, '_');
        push_dec(s, index as u64);
        push_str(s, "\" ");
    } else {
        push_str(s, "/begin EVENT \"");
        push_cut(s, name, 100);
        push_str(s, "\" \"");
        push_cut(s, name, 8);
        push_str(s, "\" ");
    }
    assert(final(s)@ =~= old(s)@ + event_names_text(name@, index));
}

impl McEvent {
    /// Write the A2L EVENT
    pub fn write_a2l(&self, s: &mut String)
        ensures
            final(s)@ == old(s)@ + event_text(*self),
    {
        let priority: u8 = 0;  // Priority is always set to normal priority
        let (time_cycle, time_unit) = time_cycle_and_unit(self.target_cycle_time_ns);
        push_event_names(s, self.name.as_str(), self.index);
        let ghost head = s@;
        push_dec(s, self.id as u64);
        push_str(s, " DAQ 0xFF ");
        push_dec(s, time_cycle as u64);
        push_str(s, " ");
        push_dec(s, time_unit as u64);
        push_str(s, " ");
        push_dec(s, priority as u64);
        push_str(s, " CONSISTENCY DAQ /end EVENT\n");
        assert(final(s)@ =~= old(s)@ + event_text(*self));
    }
}

//-------------------------------------------------------------------------------------------------
// Memory segments

/// The A2L MEMORY_SEGMENT of a calibration segment, with its XCP SEGMENT number index + 1
pub open spec fn calseg_text(c: McCalibrationSegment) -> Seq<char> {
    "/begin MEMORY_SEGMENT "@ + c.name@ + " \"\" DATA FLASH INTERN 0x"@ + hex(c.addr as nat) + " "@
        + dec(c.size as nat) + " -1 -1 -1 -1 -1\n"@ + "/begin IF_DATA XCP\n    /begin SEGMENT "@ + dec(
        (c.index + 1) as nat,
    ) + " 2 "@ + dec(c.addr_ext as nat)
        + " 0 0\n    /begin CHECKSUM XCP_ADD_44 MAX_BLOCK_SIZE 0xFFFF EXTERNAL_FUNCTION \"\" /end CHECKSUM\n    /begin PAGE 0x0 ECU_ACCESS_DONT_CARE XCP_READ_ACCESS_DONT_CARE XCP_WRITE_ACCESS_DONT_CARE /end PAGE\n    /begin PAGE 0x1 ECU_ACCESS_DONT_CARE XCP_READ_ACCESS_DONT_CARE XCP_WRITE_ACCESS_NOT_ALLOWED /end PAGE\n    /end SEGMENT\n/end IF_DATA\n"@
        + "/end MEMORY_SEGMENT\n"@
}

impl McCalibrationSegment {
    /// Write the A2L MEMORY_SEGMENT
    pub fn write_a2l(&self, s: &mut String)
        requires
            self.index < u16::MAX,
        ensures
            final(s)@ == old(s)@ + calseg_text(*self),
    {
        let n = self.index;
        push_str(s, "/begin MEMORY_SEGMENT ");
        push_str(s, self.name.as_str());
        push_str(s, " \"\" DATA FLASH INTERN 0x");
        push_hex(s, self.addr as u64);
        push_str(s, " ");
        push_dec(s, self.size as u64);
        push_str(s, " -1 -1 -1 -1 -1\n");
        push_str(s, "/begin IF_DATA XCP\n    /begin SEGMENT ");
        push_dec(s, (n + 1) as u64);
        push_str(s, " 2 ");
        push_dec(s, self.addr_ext as u64);
        push_str(
            s,
            " 0 0\n    /begin CHECKSUM XCP_ADD_44 MAX_BLOCK_SIZE 0xFFFF EXTERNAL_FUNCTION \"\" /end CHECKSUM\n    /begin PAGE 0x0 ECU_ACCESS_DONT_CARE XCP_READ_ACCESS_DONT_CARE XCP_WRITE_ACCESS_DONT_CARE /end PAGE\n    /begin PAGE 0x1 ECU_ACCESS_DONT_CARE XCP_READ_ACCESS_DONT_CARE XCP_WRITE_ACCESS_NOT_ALLOWED /end PAGE\n    /end SEGMENT\n/end IF_DATA\n",
        );
        push_str(s, "/end MEMORY_SEGMENT\n");
        assert(final(s)@ =~= old(s)@ + calseg_text(*self));
    }
}

//-------------------------------------------------------------------------------------------------
// Measurements, characteristics and axis points

/// A linear conversion with a factor other than 1 or an offset other than 0: factor and offset
/// formatted as `{}` formats them, and the decimal places its factor asks for (6 below 0.001,
/// 3 below 1, 0 otherwise)
#[derive(Debug, Clone)]
pub struct A2lConversion {
    pub factor: String,
    pub offset: String,
    pub factor_decimals: u8,
}

/// The floating point values of an instance, formatted as `{}` formats them, and its linear
/// conversion, if it has one
#[derive(Debug, Clone)]
pub struct A2lLimits {
    pub min: String,
    pub max: String,
    pub step: Option<String>,
    pub conversion: Option<A2lConversion>,
}

impl A2lLimits {
    /// The conversion is linear
    pub fn has_conversion(&self) -> (b: bool)
        ensures
            b == (self.conversion is Some),
    {
        self.conversion.is_some()
    }
}

/// Decimal places of the display format of a linear conversion: 6 for floats, else those its
/// factor asks for
pub open spec fn conversion_decimals(value_type: McValueType, c: A2lConversion) -> nat {
    if value_type is Float32Ieee || value_type is Float64Ieee {
        6
    } else {
        c.factor_decimals as nat
    }
}

/// The A2L COMPU_METHOD of a linear conversion, named like its object
pub open spec fn compu_method_text(
    value_type: McValueType,
    name: Seq<char>,
    unit: Seq<char>,
    c: A2lConversion,
) -> Seq<char> {
    "/begin COMPU_METHOD "@ + name + " \"\" LINEAR \"%."@ + dec(conversion_decimals(value_type, c))
        + "\" \""@ + unit + "\" COEFFS_LINEAR "@ + c.factor@ + " "@ + c.offset@
        + " /end COMPU_METHOD\n"@
}

/// The COMPU_METHOD written before an object: only for a linear conversion of a non boolean
/// value, and of the objects of several event instances only for the first one
pub open spec fn conversion_text(
    value_type: McValueType,
    name: Seq<char>,
    unit: Seq<char>,
    l: A2lLimits,
    instance_index: u16,
) -> Seq<char> {
    match l.conversion {
        Some(c) => if !(value_type is Bool) && instance_index <= 1 {
            compu_method_text(value_type, name, unit, c)
        } else {
            Seq::empty()
        },
        None => Seq::empty(),
    }
}

/// Write the COMPU_METHOD of an object, where it has one
pub(crate) fn write_conversion(
    s: &mut String,
    value_type: &McValueType,
    name: &str,
    unit: &str,
    limits: &A2lLimits,
    instance_index: u16,
)
    ensures
        final(s)@ == old(s)@ + conversion_text(*value_type, name@, unit@, *limits, instance_index),
{
    let ghost start = s@;
    match &limits.conversion {
        Some(c) => {
            let is_bool = matches!(value_type, McValueType::Bool);
            if !is_bool && instance_index <= 1 {
                let decimals: u8 = match value_type {
                    McValueType::Float32Ieee | McValueType::Float64Ieee => 6,
                    _ => c.factor_decimals,
                };
                push_str(s, "/begin COMPU_METHOD ");
                push_str(s, name);
                push_str(s, " \"\" LINEAR \"%.");
                push_dec(s, decimals as u64);
                push_str(s, "\" \"");
                push_str(s, unit);
                push_str(s, "\" COEFFS_LINEAR ");
                push_str(s, c.factor.as_str());
                push_str(s, " ");
                push_str(s, c.offset.as_str());
                push_str(s, " /end COMPU_METHOD\n");
            }
        },
        None => {},
    }
    assert(s@ =~= start + conversion_text(*value_type, name@, unit@, *limits, instance_index));
}

/// Name of the conversion rule of a value: BOOL for booleans, the instance's own linear
/// conversion, none for floats, IDENTITY for integers
pub open spec fn conversion_name(value_type: McValueType, name: Seq<char>, linear: bool) -> Seq<char> {
    if value_type is Bool {
        "BOOL"@
    } else if linear {
        name
    } else if value_type is Float32Ieee || value_type is Float64Ieee {
        "NO_COMPU_METHOD"@
    } else {
        "IDENTITY"@
    }
}

pub open spec fn unit_text(unit: Seq<char>) -> Seq<char> {
    if unit.len() == 0 {
        Seq::empty()
    } else {
        " PHYS_UNIT \""@ + unit + "\""@
    }
}

pub open spec fn step_text(step: Option<String>) -> Seq<char> {
    match step {
        Some(t) => " STEP_SIZE "@ + t@,
        None => Seq::empty(),
    }
}

pub open spec fn ext_text(ext: u8) -> Seq<char> {
    if ext != 0 {
        " ECU_ADDRESS_EXTENSION "@ + dec(ext as nat)
    } else {
        Seq::empty()
    }
}

pub open spec fn event_ifdata_text(event_id: Option<u16>) -> Seq<char> {
    match event_id {
        Some(id) => ifdata_event_text(id),
        None => Seq::empty(),
    }
}

/// The address of an instance can be written: what `McAddress::get_a2l_addr` needs
pub open spec fn a2l_addr_ok(a: McAddress, segs: Seq<McCalibrationSegment>) -> bool {
    &&& a.wf()
    &&& a@.addr_mode != McAddrMode::Undef
    &&& a@.addr_mode == McAddrMode::Dyn ==> XCP_ADDR_EXT_DYN <= a@.a2l_addr_ext < XCP_ADDR_EXT_DYN + 16
        && i16::MIN <= a@.addr_offset <= i16::MAX
    &&& a@.addr_mode == McAddrMode::Abs ==> a@.addr_offset >= 0
    &&& a@.addr_mode == McAddrMode::Cal ==> 0 <= a@.addr_offset <= u16::MAX && exists|i: int|
        0 <= i < segs.len() && (#[trigger] segs[i]).name@ == a@.calseg_name->0
}

/// A value type that has an A2L type and record layout name
pub open spec fn is_basic_type_or_blob(t: McValueType) -> bool {
    is_basic_type(t) || t is Blob
}

/// The A2L BLOB of a dynamic object, with its IDL annotation
pub open spec fn blob_text(i: McInstance, annotation: Seq<char>, ext: u8, addr: u32) -> Seq<char> {
    let d = i.dim_type;
    "/begin BLOB "@ + i.name@ + " \""@ + d.mc_support_data.comment@ + "\" 0x"@ + hex(addr as nat)
        + " "@ + dec(d.x_dim as nat) + " ECU_ADDRESS_EXTENSION "@ + dec(ext as nat) + " "@ + "\n"@
        + annotation
        + "\n/begin ANNOTATION ANNOTATION_LABEL \"IsVlsd\" ANNOTATION_ORIGIN \"\" /begin ANNOTATION_TEXT  \"true\" /end ANNOTATION_TEXT /end ANNOTATION\n/begin ANNOTATION ANNOTATION_LABEL \"MaxBufferNeeded\" ANNOTATION_ORIGIN \"\" /begin ANNOTATION_TEXT \""@
        + dec(d.x_dim as nat) + "\" /end ANNOTATION_TEXT /end ANNOTATION\n "@ + event_ifdata_text(
        i.address@.event_id,
    ) + " /end BLOB\n"@
}

/// The A2L INSTANCE of a measured typedef instance
pub open spec fn typedef_instance_text(
    i: McInstance,
    typedef_name: Seq<char>,
    unique_name: Seq<char>,
    ext: u8,
    addr: u32,
) -> Seq<char> {
    let d = i.dim_type;
    "/begin INSTANCE "@ + unique_name + " \""@ + d.mc_support_data.comment@ + "\" "@ + typedef_name
        + " 0x"@ + hex(addr as nat) + " ECU_ADDRESS_EXTENSION "@ + dec(ext as nat) + dimensions_text(
        d.x_dim,
        d.y_dim,
    ) + event_ifdata_text(i.address@.event_id) + " /end INSTANCE\n"@
}

/// An array with a fixed axis is measured as a read only CHARACTERISTIC MAP or CURVE
pub open spec fn has_fixed_axis(d: McDimType) -> bool {
    (d.x_dim > 1 && d.mc_support_data.x_axis_conv is Some) || (d.y_dim > 1
        && d.mc_support_data.y_axis_conv is Some)
}

/// Head of the read only A2L CHARACTERISTIC of a measured array with a fixed axis
pub open spec fn fixed_axis_head_text(
    i: McInstance,
    unique_name: Seq<char>,
    addr: u32,
    l: A2lLimits,
) -> Seq<char> {
    let d = i.dim_type;
    let m = d.mc_support_data;
    let x_fix = d.x_dim > 1 && m.x_axis_conv is Some;
    let y_fix = d.y_dim > 1 && m.y_axis_conv is Some;
    "/begin CHARACTERISTIC "@ + unique_name + " \""@ + m.comment@ + "\" "@ + (if x_fix && y_fix {
        "MAP"@
    } else {
        "CURVE"@
    }) + " 0x"@ + hex(addr as nat) + " "@ + record_layout_str(d.value_type) + " 0 "@
        + conversion_name(d.value_type, i.name@, l.conversion is Some) + " "@ + l.min@ + " "@ + l.max@
        + " READ_ONLY"@
}

/// Tail of the read only A2L CHARACTERISTIC of a measured array with a fixed axis
pub open spec fn fixed_axis_tail_text(i: McInstance, ext: u8, l: A2lLimits) -> Seq<char> {
    let d = i.dim_type;
    unit_text(d.mc_support_data.unit@) + step_text(l.step) + axis_descr_text(d) + ext_text(ext)
        + event_ifdata_text(i.address@.event_id) + " /end CHARACTERISTIC\n"@
}

/// The read only A2L CHARACTERISTIC of a measured array with a fixed axis
pub open spec fn fixed_axis_text(
    i: McInstance,
    unique_name: Seq<char>,
    ext: u8,
    addr: u32,
    l: A2lLimits,
) -> Seq<char> {
    fixed_axis_head_text(i, unique_name, addr, l) + fixed_axis_tail_text(i, ext, l)
}

/// Head of the A2L MEASUREMENT of a basic value or array
pub open spec fn plain_measurement_head_text(
    i: McInstance,
    unique_name: Seq<char>,
    addr: u32,
    l: A2lLimits,
) -> Seq<char> {
    let d = i.dim_type;
    "/begin MEASUREMENT "@ + unique_name + " \""@ + d.mc_support_data.comment@ + "\" "@ + type_str(
        d.value_type,
    ) + " "@ + conversion_name(d.value_type, i.name@, l.conversion is Some) + " 0 0 "@ + l.min@ + " "@ + l.max@
        + " ECU_ADDRESS 0x"@ + hex(addr as nat)
}

/// Tail of the A2L MEASUREMENT of a basic value or array; writable where it is event relative
pub open spec fn plain_measurement_tail_text(i: McInstance, ext: u8, l: A2lLimits) -> Seq<char> {
    let d = i.dim_type;
    ext_text(ext) + (if ext == XCP_ADDR_EXT_DYN {
        " READ_WRITE"@
    } else {
        Seq::empty()
    }) + unit_text(d.mc_support_data.unit@) + step_text(l.step) + dimensions_text(d.x_dim, d.y_dim)
        + event_ifdata_text(i.address@.event_id) + " /end MEASUREMENT\n"@
}

/// The A2L MEASUREMENT of a basic value or array; writable where it is event relative
pub open spec fn plain_measurement_text(
    i: McInstance,
    unique_name: Seq<char>,
    ext: u8,
    addr: u32,
    l: A2lLimits,
) -> Seq<char> {
    plain_measurement_head_text(i, unique_name, addr, l) + plain_measurement_tail_text(i, ext, l)
}

/// The A2L text of a measurement object: a BLOB with its annotation, an INSTANCE of a typedef,
/// a read only CHARACTERISTIC for arrays with a fixed axis, or a MEASUREMENT
pub open spec fn measurement_text(
    i: McInstance,
    unique_name: Seq<char>,
    instance_index: u16,
    ext: u8,
    addr: u32,
    l: A2lLimits,
) -> Seq<char> {
    match i.dim_type.value_type {
        McValueType::Blob(annotation) => blob_text(i, annotation@, ext, addr),
        McValueType::TypeDef(typedef_name) => typedef_instance_text(
            i,
            typedef_name@,
            unique_name,
            ext,
            addr,
        ),
        _ => conversion_text(
            i.dim_type.value_type,
            i.name@,
            i.dim_type.mc_support_data.unit@,
            l,
            instance_index,
        ) + if has_fixed_axis(i.dim_type) {
            fixed_axis_text(i, unique_name, ext, addr, l)
        } else {
            plain_measurement_text(i, unique_name, ext, addr, l)
        },
    }
}

/// The head of an A2L CHARACTERISTIC: name, comment, sub type, address, record layout,
/// conversion and limits; booleans are a VALUE with the BOOL layout and conversion and limits 0, 1
pub open spec fn characteristic_head_text(i: McInstance, addr: u32, l: A2lLimits) -> Seq<char> {
    let d = i.dim_type;
    let comment = d.mc_support_data.comment@;
    if d.value_type is Bool {
        "/begin CHARACTERISTIC "@ + i.name@ + " \""@ + comment + "\" VALUE 0x"@ + hex(addr as nat)
            + " BOOL 0 BOOL 0 1"@
    } else {
        "/begin CHARACTERISTIC "@ + i.name@ + " \""@ + comment + "\" "@ + characteristic_subtype(d)
            + " 0x"@ + hex(addr as nat) + " "@ + record_layout_str(d.value_type) + " 0 "@
            + conversion_name(d.value_type, i.name@, l.conversion is Some) + " "@ + l.min@ + " "@ + l.max@
    }
}

/// The tail of an A2L CHARACTERISTIC: dimensions of a VAL_BLK, axis descriptions of a MAP or
/// CURVE, unit, step size and address extension
pub open spec fn characteristic_tail_text(d: McDimType, ext: u8, l: A2lLimits) -> Seq<char> {
    let sub = characteristic_subtype(d);
    (if sub == "VAL_BLK"@ {
        dimensions_text(d.x_dim, d.y_dim)
    } else if sub == "MAP"@ || sub == "CURVE"@ {
        axis_descr_text(d)
    } else {
        Seq::empty()
    }) + unit_text(d.mc_support_data.unit@) + step_text(l.step) + ext_text(ext)
        + " /end CHARACTERISTIC\n"@
}

/// The A2L text of a calibration object: an INSTANCE of a typedef, or a CHARACTERISTIC with its
/// dimensions or axis descriptions
pub open spec fn characteristic_text(i: McInstance, addr: u32, ext: u8, l: A2lLimits) -> Seq<char> {
    match i.dim_type.value_type {
        McValueType::TypeDef(typedef_name) => "/begin INSTANCE "@ + i.name@ + " \""@
            + i.dim_type.mc_support_data.comment@ + "\" "@ + typedef_name@ + " 0x"@ + hex(addr as nat)
            + " /end INSTANCE\n"@,
        _ => conversion_text(
            i.dim_type.value_type,
            i.name@,
            i.dim_type.mc_support_data.unit@,
            l,
            0,
        ) + characteristic_head_text(i, addr, l) + characteristic_tail_text(i.dim_type, ext, l),
    }
}

/// The A2L text of axis points
pub open spec fn axis_text_of(i: McInstance, addr: u32, ext: u8, l: A2lLimits) -> Seq<char> {
    let d = i.dim_type;
    conversion_text(d.value_type, i.name@, d.mc_support_data.unit@, l, 0) + axis_pts_text(i, addr, ext, l)
}

/// The A2L AXIS_PTS of axis points
pub open spec fn axis_pts_text(i: McInstance, addr: u32, ext: u8, l: A2lLimits) -> Seq<char> {
    axis_pts_head_text(i, addr, l) + step_text(l.step) + unit_text(i.dim_type.mc_support_data.unit@)
        + ext_text(ext) + " /end AXIS_PTS\n"@
}

/// Head of the A2L AXIS_PTS: name, comment, address, record layout, conversion, number of
/// points and limits
pub open spec fn axis_pts_head_text(i: McInstance, addr: u32, l: A2lLimits) -> Seq<char> {
    let d = i.dim_type;
    "/begin AXIS_PTS "@ + i.name@ + " \""@ + d.mc_support_data.comment@ + "\" 0x"@ + hex(addr as nat)
        + " NO_INPUT_QUANTITY A_"@ + record_layout_str(d.value_type) + " 0 "@ + conversion_name(
        d.value_type,
        i.name@,
        l.conversion is Some,
    ) + " "@ + dec(d.x_dim as nat) + " "@ + l.min@ + " "@ + l.max@
}

pub(crate) fn push_conversion_name(s: &mut String, value_type: &McValueType, name: &str, linear: bool)
    ensures
        final(s)@ == old(s)@ + conversion_name(*value_type, name@, linear),
{
    match value_type {
        McValueType::Bool => push_str(s, "BOOL"),
        McValueType::Float32Ieee | McValueType::Float64Ieee => {
            if linear {
                push_str(s, name)
            } else {
                push_str(s, "NO_COMPU_METHOD")
            }
        },
        _ => {
            if linear {
                push_str(s, name)
            } else {
                push_str(s, "IDENTITY")
            }
        },
    }
}

pub(crate) fn push_unit(s: &mut String, unit: &str)
    ensures
        final(s)@ == old(s)@ + unit_text(unit@),
{
    let v = str_to_chars(unit);
    if v.len() > 0 {
        push_str(s, " PHYS_UNIT \"");
        push_str(s, unit);
        push_str(s, "\"");
        assert(final(s)@ =~= old(s)@ + unit_text(unit@));
    } else {
        assert(final(s)@ =~= old(s)@ + unit_text(unit@));
    }
}

fn push_step(s: &mut String, step: &Option<String>)
    ensures
        final(s)@ == old(s)@ + step_text(*step),
{
    match step {
        Some(t) => {
            push_str(s, " STEP_SIZE ");
            push_str(s, t.as_str());
            assert(final(s)@ =~= old(s)@ + step_text(*step));
        },
        None => {
            assert(final(s)@ =~= old(s)@ + step_text(*step));
        },
    }
}

fn push_ext(s: &mut String, ext: u8)
    ensures
        final(s)@ == old(s)@ + ext_text(ext),
{
    if ext != 0 {
        push_str(s, " ECU_ADDRESS_EXTENSION ");
        push_dec(s, ext as u64);
        assert(final(s)@ =~= old(s)@ + ext_text(ext));
    } else {
        assert(final(s)@ =~= old(s)@ + ext_text(ext));
    }
}

fn push_event_ifdata(s: &mut String, event_id: Option<u16>)
    ensures
        final(s)@ == old(s)@ + event_ifdata_text(event_id),
{
    match event_id {
        Some(id) => write_ifdata_event(id, s),
        None => {
            assert(final(s)@ =~= old(s)@ + event_ifdata_text(event_id));
        },
    }
}

impl McInstance {
    fn push_blob(&self, annotation: &str, ext: u8, addr: u32, s: &mut String)
        ensures
            final(s)@ == old(s)@ + blob_text(*self, annotation@, ext, addr),
    {
        let d = &self.dim_type;
        let ghost start = s@;
        push_str(s, "/begin BLOB ");
        push_str(s, self.name.as_str());
        push_str(s, " \"");
        push_str(s, d.get_comment());
        push_str(s, "\" 0x");
        push_hex(s, addr as u64);
        push_str(s, " ");
        push_dec(s, d.x_dim as u64);
        push_str(s, " ECU_ADDRESS_EXTENSION ");
        push_dec(s, ext as u64);
        push_str(s, " ");
        let ghost head = s@;
        push_str(s, "\n");
        push_str(s, annotation);
        push_str(
            s,
            "\n/begin ANNOTATION ANNOTATION_LABEL \"IsVlsd\" ANNOTATION_ORIGIN \"\" /begin ANNOTATION_TEXT  \"true\" /end ANNOTATION_TEXT /end ANNOTATION\n/begin ANNOTATION ANNOTATION_LABEL \"MaxBufferNeeded\" ANNOTATION_ORIGIN \"\" /begin ANNOTATION_TEXT \"",
        );
        push_dec(s, d.x_dim as u64);
        push_str(s, "\" /end ANNOTATION_TEXT /end ANNOTATION\n ");
        let ghost body = s@;
        push_event_ifdata(s, self.address.get_event_id());
        push_str(s, " /end BLOB\n");
        assert(s@ =~= start + blob_text(*self, annotation@, ext, addr));
    }

    fn push_typedef_instance(&self, typedef_name: &str, unique_name: &str, ext: u8, addr: u32, s: &mut String)
        ensures
            final(s)@ == old(s)@ + typedef_instance_text(
                *self,
                typedef_name@,
                unique_name@,
                ext,
                addr,
            ),
    {
        let d = &self.dim_type;
        let ghost start = s@;
        push_str(s, "/begin INSTANCE ");
        push_str(s, unique_name);
        push_str(s, " \"");
        push_str(s, d.get_comment());
        push_str(s, "\" ");
        push_str(s, typedef_name);
        push_str(s, " 0x");
        push_hex(s, addr as u64);
        push_str(s, " ECU_ADDRESS_EXTENSION ");
        push_dec(s, ext as u64);
        let ghost head = s@;
        write_dimensions(d, s);
        push_event_ifdata(s, self.address.get_event_id());
        push_str(s, " /end INSTANCE\n");
        assert(s@ =~= start + typedef_instance_text(*self, typedef_name@, unique_name@, ext, addr));
    }

    #[verifier::rlimit(50)]
    fn push_fixed_axis_head(&self, unique_name: &str, addr: u32, limits: &A2lLimits, s: &mut String)
        requires
            is_basic_type_or_blob(self.dim_type.value_type),
        ensures
            final(s)@ == old(s)@ + fixed_axis_head_text(*self, unique_name@, addr, *limits),
    {
        let d = &self.dim_type;
        let x_fix_axis = d.x_dim > 1 && d.mc_support_data.x_axis_conv.is_some();
        let y_fix_axis = d.y_dim > 1 && d.mc_support_data.y_axis_conv.is_some();
        let ghost start = s@;
        push_str(s, "/begin CHARACTERISTIC ");
        push_str(s, unique_name);
        push_str(s, " \"");
        push_str(s, d.get_comment());
        push_str(s, "\" ");
        if x_fix_axis && y_fix_axis {
            push_str(s, "MAP");
        } else {
            push_str(s, "CURVE");
        }
        let ghost head = s@;
        push_str(s, " 0x");
        push_hex(s, addr as u64);
        push_str(s, " ");
        push_str(s, d.value_type.get_record_layout_str());
        push_str(s, " 0 ");
        push_conversion_name(s, &d.value_type, self.name.as_str(), limits.has_conversion());
        push_str(s, " ");
        push_str(s, limits.min.as_str());
        push_str(s, " ");
        push_str(s, limits.max.as_str());
        push_str(s, " READ_ONLY");
        assert(s@ =~= start + fixed_axis_head_text(*self, unique_name@, addr, *limits));
    }

    fn push_fixed_axis_tail(&self, ext: u8, limits: &A2lLimits, s: &mut String)
        ensures
            final(s)@ == old(s)@ + fixed_axis_tail_text(*self, ext, *limits),
    {
        let d = &self.dim_type;
        let ghost start = s@;
        push_unit(s, d.get_unit());
        push_step(s, &limits.step);
        write_axis_descr(self.name.as_str(), d, s);
        push_ext(s, ext);
        push_event_ifdata(s, self.address.get_event_id());
        push_str(s, " /end CHARACTERISTIC\n");
        assert(s@ =~= start + fixed_axis_tail_text(*self, ext, *limits));
    }

    fn push_plain_measurement_head(&self, unique_name: &str, addr: u32, limits: &A2lLimits, s: &mut String)
        requires
            is_basic_type_or_blob(self.dim_type.value_type),
        ensures
            final(s)@ == old(s)@ + plain_measurement_head_text(*self, unique_name@, addr, *limits),
    {
        let d = &self.dim_type;
        let ghost start = s@;
        push_str(s, "/begin MEASUREMENT ");
        push_str(s, unique_name);
        push_str(s, " \"");
        push_str(s, d.get_comment());
        push_str(s, "\" ");
        push_str(s, d.value_type.get_type_str());
        push_str(s, " ");
        push_conversion_name(s, &d.value_type, self.name.as_str(), limits.has_conversion());
        push_str(s, " 0 0 ");
        push_str(s, limits.min.as_str());
        push_str(s, " ");
        push_str(s, limits.max.as_str());
        push_str(s, " ECU_ADDRESS 0x");
        push_hex(s, addr as u64);
        assert(s@ =~= start + plain_measurement_head_text(*self, unique_name@, addr, *limits));
    }

    fn push_plain_measurement_tail(&self, ext: u8, limits: &A2lLimits, s: &mut String)
        ensures
            final(s)@ == old(s)@ + plain_measurement_tail_text(*self, ext, *limits),
    {
        let d = &self.dim_type;
        let ghost start = s@;
        push_ext(s, ext);
        if ext == XCP_ADDR_EXT_DYN {
            push_str(s, " READ_WRITE");
        }
        let ghost mid = s@;
        push_unit(s, d.get_unit());
        push_step(s, &limits.step);
        write_dimensions(d, s);
        push_event_ifdata(s, self.address.get_event_id());
        push_str(s, " /end MEASUREMENT\n");
        assert(s@ =~= start + plain_measurement_tail_text(*self, ext, *limits));
    }

    /// Write the A2L text of a measurement object, with its unique name
    pub fn write_measurement(&self, registry: &Registry, limits: &A2lLimits, s: &mut String)
        requires
            a2l_addr_ok(self.address, registry.cal_seg_list@),
            !(self.dim_type.value_type is Unknown),
            self.dim_type.value_type is Blob ==> self.dim_type.x_dim > 0 && self.dim_type.y_dim == 1,
        ensures
            final(s)@ == old(s)@ + measurement_text(
                *self,
                instance_unique_name(
                    *self,
                    registry.event_list@,
                    registry.prefix_names,
                    registry.app_name(),
                ),
                instance_event_index(*self, registry.event_list@),
                a2l_addr_of(self.address@, registry.cal_seg_list@).0,
                a2l_addr_of(self.address@, registry.cal_seg_list@).1,
                *limits,
            ),
    {
        let (ext, addr) = self.address.get_a2l_addr(&registry.cal_seg_list);
        match &self.dim_type.value_type {
            McValueType::Blob(annotation) => {
                self.push_blob(annotation.as_str(), ext, addr, s);
            },
            McValueType::TypeDef(typedef_name) => {
                let instance_name = self.get_unique_name(registry);
                self.push_typedef_instance(typedef_name.as_str(), instance_name.as_str(), ext, addr, s);
            },
            _ => {
                let instance_name = self.get_unique_name(registry);
                let d = &self.dim_type;
                let x_fix_axis = d.x_dim > 1 && d.mc_support_data.x_axis_conv.is_some();
                let y_fix_axis = d.y_dim > 1 && d.mc_support_data.y_axis_conv.is_some();
                let instance_index = self.get_index(registry);
                write_conversion(s, &d.value_type, self.name.as_str(), d.get_unit(), limits, instance_index);
                let ghost start = s@;
                if x_fix_axis || y_fix_axis {
                    self.push_fixed_axis_head(instance_name.as_str(), addr, limits, s);
                    self.push_fixed_axis_tail(ext, limits, s);
                    assert(s@ =~= start + fixed_axis_text(*self, instance_name@, ext, addr, *limits));
                } else {
                    self.push_plain_measurement_head(instance_name.as_str(), addr, limits, s);
                    self.push_plain_measurement_tail(ext, limits, s);
                    assert(s@ =~= start + plain_measurement_text(*self, instance_name@, ext, addr, *limits));
                }
            },
        }
    }

    fn push_characteristic_head(&self, addr: u32, limits: &A2lLimits, s: &mut String)
        requires
            self.dim_type.mc_support_data.object_type == McObjectType::Axis
                || self.dim_type.mc_support_data.object_type == McObjectType::Characteristic,
            is_basic_type_or_blob(self.dim_type.value_type),
        ensures
            final(s)@ == old(s)@ + characteristic_head_text(*self, addr, *limits),
    {
        let d = &self.dim_type;
        let ghost start = s@;
        if matches!(d.value_type, McValueType::Bool) {
            push_str(s, "/begin CHARACTERISTIC ");
            push_str(s, self.name.as_str());
            push_str(s, " \"");
            push_str(s, d.get_comment());
            push_str(s, "\" VALUE 0x");
            push_hex(s, addr as u64);
            push_str(s, " BOOL 0 BOOL 0 1");
        } else {
            push_str(s, "/begin CHARACTERISTIC ");
            push_str(s, self.name.as_str());
            push_str(s, " \"");
            push_str(s, d.get_comment());
            push_str(s, "\" ");
            push_str(s, get_characteristic_subtype_str(d));
            push_str(s, " 0x");
            push_hex(s, addr as u64);
            push_str(s, " ");
            push_str(s, d.value_type.get_record_layout_str());
            push_str(s, " 0 ");
            push_conversion_name(s, &d.value_type, self.name.as_str(), limits.has_conversion());
            push_str(s, " ");
            push_str(s, limits.min.as_str());
            push_str(s, " ");
            push_str(s, limits.max.as_str());
        }
        assert(s@ =~= start + characteristic_head_text(*self, addr, *limits));
    }

    fn push_characteristic_tail(&self, ext: u8, limits: &A2lLimits, s: &mut String)
        requires
            self.dim_type.mc_support_data.object_type == McObjectType::Axis
                || self.dim_type.mc_support_data.object_type == McObjectType::Characteristic,
        ensures
            final(s)@ == old(s)@ + characteristic_tail_text(self.dim_type, ext, *limits),
    {
        let d = &self.dim_type;
        let ghost start = s@;
        let kind = sub_kind(get_characteristic_subtype_str(d));
        if kind == 1 {
            write_dimensions(d, s);
        } else if kind == 2 {
            write_axis_descr(self.name.as_str(), d, s);
        }
        let ghost mid = s@;
        push_unit(s, d.get_unit());
        push_step(s, &limits.step);
        push_ext(s, ext);
        push_str(s, " /end CHARACTERISTIC\n");
        assert(s@ =~= start + characteristic_tail_text(self.dim_type, ext, *limits));
    }

    /// Write the A2L text of a calibration object
    pub fn write_characteristic(&self, registry: &Registry, limits: &A2lLimits, s: &mut String)
        requires
            a2l_addr_ok(self.address, registry.cal_seg_list@),
            !(self.dim_type.value_type is TypeDef) ==> (self.dim_type.mc_support_data.object_type
                == McObjectType::Axis || self.dim_type.mc_support_data.object_type
                == McObjectType::Characteristic) && !(self.dim_type.value_type is Unknown),
        ensures
            final(s)@ == old(s)@ + characteristic_text(
                *self,
                a2l_addr_of(self.address@, registry.cal_seg_list@).1,
                a2l_addr_of(self.address@, registry.cal_seg_list@).0,
                *limits,
            ),
    {
        let (ext, addr) = self.address.get_a2l_addr(&registry.cal_seg_list);
        let ghost start = s@;
        match &self.dim_type.value_type {
            McValueType::TypeDef(typedef_name) => {
                push_str(s, "/begin INSTANCE ");
                push_str(s, self.name.as_str());
                push_str(s, " \"");
                push_str(s, self.dim_type.get_comment());
                push_str(s, "\" ");
                push_str(s, typedef_name.as_str());
                push_str(s, " 0x");
                push_hex(s, addr as u64);
                push_str(s, " /end INSTANCE\n");
                assert(s@ =~= start + characteristic_text(*self, addr, ext, *limits));
            },
            _ => {
                write_conversion(s, &self.dim_type.value_type, self.name.as_str(), self.dim_type.get_unit(), limits, 0);
                self.push_characteristic_head(addr, limits, s);
                self.push_characteristic_tail(ext, limits, s);
                assert(s@ =~= start + characteristic_text(*self, addr, ext, *limits));
            },
        }
    }

    fn push_axis_pts_head(&self, addr: u32, limits: &A2lLimits, s: &mut String)
        requires
            !(self.dim_type.value_type is Unknown) && !(self.dim_type.value_type is TypeDef),
        ensures
            final(s)@ == old(s)@ + axis_pts_head_text(*self, addr, *limits),
    {
        let d = &self.dim_type;
        let ghost start = s@;
        push_str(s, "/begin AXIS_PTS ");
        push_str(s, self.name.as_str());
        push_str(s, " \"");
        push_str(s, d.get_comment());
        push_str(s, "\" 0x");
        push_hex(s, addr as u64);
        push_str(s, " NO_INPUT_QUANTITY A_");
        push_str(s, d.value_type.get_record_layout_str());
        push_str(s, " 0 ");
        let ghost mid = s@;
        push_conversion_name(s, &d.value_type, self.name.as_str(), limits.has_conversion());
        push_str(s, " ");
        push_dec(s, d.x_dim as u64);
        push_str(s, " ");
        push_str(s, limits.min.as_str());
        push_str(s, " ");
        push_str(s, limits.max.as_str());
        assert(s@ =~= start + axis_pts_head_text(*self, addr, *limits));
    }

    fn push_axis_pts(&self, addr: u32, ext: u8, limits: &A2lLimits, s: &mut String)
        requires
            !(self.dim_type.value_type is Unknown) && !(self.dim_type.value_type is TypeDef),
        ensures
            final(s)@ == old(s)@ + axis_pts_text(*self, addr, ext, *limits),
    {
        let ghost start = s@;
        self.push_axis_pts_head(addr, limits, s);
        let ghost head = s@;
        push_step(s, &limits.step);
        push_unit(s, self.dim_type.get_unit());
        push_ext(s, ext);
        push_str(s, " /end AXIS_PTS\n");
        assert(s@ =~= start + axis_pts_text(*self, addr, ext, *limits));
    }

    /// Write the A2L text of axis points
    pub fn write_axis(&self, registry: &Registry, limits: &A2lLimits, s: &mut String)
        requires
            a2l_addr_ok(self.address, registry.cal_seg_list@),
            self.dim_type.mc_support_data.object_type == McObjectType::Axis,
            !(self.dim_type.value_type is Unknown) && !(self.dim_type.value_type is TypeDef),
        ensures
            final(s)@ == old(s)@ + axis_text_of(
                *self,
                a2l_addr_of(self.address@, registry.cal_seg_list@).1,
                a2l_addr_of(self.address@, registry.cal_seg_list@).0,
                *limits,
            ),
    {
        let (ext, addr) = self.address.get_a2l_addr(&registry.cal_seg_list);
        let d = &self.dim_type;
        let ghost start = s@;
        write_conversion(s, &d.value_type, self.name.as_str(), d.get_unit(), limits, 0);
        self.push_axis_pts(addr, ext, limits, s);
        assert(s@ =~= start + axis_text_of(*self, addr, ext, *limits));
    }
}

/// 1 for VAL_BLK, 2 for MAP and CURVE, 0 for the other sub types
pub(crate) fn sub_kind(sub: &str) -> (k: u8)
    ensures
        k == 1 <==> sub@ == "VAL_BLK"@,
        k == 2 <==> (sub@ == "MAP"@ || sub@ == "CURVE"@) && sub@ != "VAL_BLK"@,
        k <= 2,
{
    if crate::strings::str_eq(sub, "VAL_BLK") {
        1
    } else if crate::strings::str_eq(sub, "MAP") || crate::strings::str_eq(sub, "CURVE") {
        2
    } else {
        0
    }
}

} // verus!
