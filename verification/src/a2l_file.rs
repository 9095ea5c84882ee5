// The A2L file of a registry: head with the predefined conversions, record layouts and typedefs,
// module parameters, XCP IF_DATA, typedefs, measurements, characteristics and groups

use vstd::prelude::*;
use vstd::utf8::encode_utf8;

use crate::a2l_writer::{
    push_conversion_name, push_unit, sub_kind, write_axis_descr, write_conversion, write_dimensions,
    A2lLimits, a2l_addr_ok, axis_descr_text, axis_text_of, calseg_text, characteristic_text,
    conversion_name, conversion_text, dimensions_text, event_text, measurement_text, unit_text,
};
use crate::mc_address::{McAddrMode, XCP_ADDR_EXT_DYN, a2l_addr_of};
use crate::mc_calseg::{McCalibrationSegment, McCalibrationSegmentList};
use crate::mc_event::{McEvent, is_first_with_id};
use crate::mc_instance::{McInstance, instance_event_index, instance_unique_name, lemma_first_with_id_unique};
use crate::mc_support::McObjectType;
use crate::mc_type::{
    McValueType, characteristic_subtype, get_characteristic_subtype_str, record_layout_str, type_str,
};
use crate::mc_typedef::{
    McTypeDef, McTypeDefField, McTypeDefList, first_typedef_pos, is_first_typedef, lemma_first_typedef_pos,
    closed_ranked, lemma_ref_pos_bound, rank_of, ranked_by, ref_pos, typedef_ranks,
};
use crate::registry::{McXcpTransportLayer, Registry};
use crate::strings::{dec, hex, push_char, push_dec, push_hex_padded, push_str, str_eq, str_to_string, zero_padded};

verus! {

//-------------------------------------------------------------------------------------------------
// Fixed texts

/// Start of the A2L file, up to the project name
pub const A2L_HEAD_BEGIN: &'static str = "\n    ASAP2_VERSION 1 71\n    /begin PROJECT ";

/// Project header, up to the module name
pub const A2L_HEAD_PROJECT: &'static str = " \"\"\n\n    /begin HEADER \"Written by Vector xcp_lite A2L registry\" VERSION \"0.2.0\" PROJECT_NO VECTOR /end HEADER\n\n    /begin MODULE ";

/// Module head: MOD_COMMON, the predefined conversion rules, record layouts and typedefs of the
/// standard types
pub const A2L_HEAD_MODULE: &'static str = " \"\"\n            \n            /include \"XCP_104.aml\"\n         \n            /begin MOD_COMMON \"\"\n            BYTE_ORDER MSB_LAST\n            ALIGNMENT_BYTE 1\n            ALIGNMENT_WORD 1\n            ALIGNMENT_LONG 1\n            ALIGNMENT_FLOAT16_IEEE 1\n            ALIGNMENT_FLOAT32_IEEE 1\n            ALIGNMENT_FLOAT64_IEEE 1\n            ALIGNMENT_INT64 1\n            /end MOD_COMMON\n            \n            /* Predefined conversion rule for bool */\n            /begin COMPU_METHOD BOOL \"\"\n                TAB_VERB \"%.0\" \"\" COMPU_TAB_REF BOOL.table\n            /end COMPU_METHOD\n            /begin COMPU_VTAB BOOL.table \"\" TAB_VERB 2\n                0 \"false\" 1 \"true\"\n            /end COMPU_VTAB\n\n            /* Predefined conversion rule identity with no phys unit and zero decimal places */\n            /begin COMPU_METHOD IDENTITY \"\"\n                IDENTICAL \"%.0\" \"\" \n            /end COMPU_METHOD\n    \n            /* Predefined characteristic record layouts for standard types */\n            /begin RECORD_LAYOUT BOOL FNC_VALUES 1 UBYTE ROW_DIR DIRECT /end RECORD_LAYOUT\n            /begin RECORD_LAYOUT U8 FNC_VALUES 1 UBYTE ROW_DIR DIRECT /end RECORD_LAYOUT\n            /begin RECORD_LAYOUT U16 FNC_VALUES 1 UWORD ROW_DIR DIRECT /end RECORD_LAYOUT\n            /begin RECORD_LAYOUT U32 FNC_VALUES 1 ULONG ROW_DIR DIRECT /end RECORD_LAYOUT\n            /begin RECORD_LAYOUT U64 FNC_VALUES 1 A_UINT64 ROW_DIR DIRECT /end RECORD_LAYOUT\n            /begin RECORD_LAYOUT I8 FNC_VALUES 1 SBYTE ROW_DIR DIRECT /end RECORD_LAYOUT\n            /begin RECORD_LAYOUT I16 FNC_VALUES 1 SWORD ROW_DIR DIRECT /end RECORD_LAYOUT\n            /begin RECORD_LAYOUT I32 FNC_VALUES 1 SLONG ROW_DIR DIRECT /end RECORD_LAYOUT\n            /begin RECORD_LAYOUT I64 FNC_VALUES 1 A_INT64 ROW_DIR DIRECT /end RECORD_LAYOUT\n            /begin RECORD_LAYOUT F32 FNC_VALUES 1 FLOAT32_IEEE ROW_DIR DIRECT /end RECORD_LAYOUT\n            /begin RECORD_LAYOUT F64 FNC_VALUES 1 FLOAT64_IEEE ROW_DIR DIRECT /end RECORD_LAYOUT\n        \n            /* Predefined axis record layouts for standard types */\n            /begin RECORD_LAYOUT A_U8 AXIS_PTS_X 1 UBYTE INDEX_INCR DIRECT /end RECORD_LAYOUT\n            /begin RECORD_LAYOUT A_U16 AXIS_PTS_X 1 UWORD INDEX_INCR DIRECT /end RECORD_LAYOUT\n            /begin RECORD_LAYOUT A_U32 AXIS_PTS_X 1 ULONG INDEX_INCR DIRECT /end RECORD_LAYOUT\n            /begin RECORD_LAYOUT A_U64 AXIS_PTS_X 1 A_UINT64 INDEX_INCR DIRECT /end RECORD_LAYOUT\n            /begin RECORD_LAYOUT A_I8 AXIS_PTS_X 1 SBYTE INDEX_INCR DIRECT /end RECORD_LAYOUT\n            /begin RECORD_LAYOUT A_I16 AXIS_PTS_X 1 SWORD INDEX_INCR DIRECT /end RECORD_LAYOUT\n            /begin RECORD_LAYOUT A_I32 AXIS_PTS_X 1 SLONG INDEX_INCR DIRECT /end RECORD_LAYOUT\n            /begin RECORD_LAYOUT A_I64 AXIS_PTS_X 1 A_INT64 INDEX_INCR DIRECT /end RECORD_LAYOUT\n            /begin RECORD_LAYOUT A_F32 AXIS_PTS_X 1 FLOAT32_IEEE INDEX_INCR DIRECT /end RECORD_LAYOUT\n            /begin RECORD_LAYOUT A_F64 AXIS_PTS_X 1 FLOAT64_IEEE INDEX_INCR DIRECT /end RECORD_LAYOUT\n\n            /* Predefined measurement and characteristic typedefs for standard types */\n            /begin TYPEDEF_MEASUREMENT M_BOOL \"\" UBYTE BOOL 0 0 0 1 /end TYPEDEF_MEASUREMENT\n            /begin TYPEDEF_MEASUREMENT M_U8 \"\" UBYTE NO_COMPU_METHOD 0 0 0 255 /end TYPEDEF_MEASUREMENT\n            /begin TYPEDEF_MEASUREMENT M_U16 \"\" UWORD NO_COMPU_METHOD 0 0 0 65535 /end TYPEDEF_MEASUREMENT\n            /begin TYPEDEF_MEASUREMENT M_U32 \"\" ULONG NO_COMPU_METHOD 0 0 0 4294967295 /end TYPEDEF_MEASUREMENT\n            /begin TYPEDEF_MEASUREMENT M_U64 \"\" A_UINT64 NO_COMPU_METHOD 0 0 0 1e12 /end TYPEDEF_MEASUREMENT\n            /begin TYPEDEF_MEASUREMENT M_I8 \"\" SBYTE NO_COMPU_METHOD 0 0 -128 127 /end TYPEDEF_MEASUREMENT\n            /begin TYPEDEF_MEASUREMENT M_I16 \"\" SWORD NO_COMPU_METHOD 0 0 -32768 32767 /end TYPEDEF_MEASUREMENT\n            /begin TYPEDEF_MEASUREMENT M_I32 \"\" SLONG NO_COMPU_METHOD 0 0 -2147483648 2147483647 /end TYPEDEF_MEASUREMENT\n            /begin TYPEDEF_MEASUREMENT M_I64 \"\" A_INT64 NO_COMPU_METHOD 0 0 -1e12 1e12 /end TYPEDEF_MEASUREMENT\n            /begin TYPEDEF_MEASUREMENT M_F32 \"\" FLOAT32_IEEE NO_COMPU_METHOD 0 0 -1e12 1e12 /end TYPEDEF_MEASUREMENT\n            /begin TYPEDEF_MEASUREMENT M_F64 \"\" FLOAT64_IEEE NO_COMPU_METHOD 0 0 -1e12 1e12 /end TYPEDEF_MEASUREMENT\n            /begin TYPEDEF_CHARACTERISTIC C_BOOL \"\" VALUE U8 0 BOOL 0 1 /end TYPEDEF_CHARACTERISTIC\n            /begin TYPEDEF_CHARACTERISTIC C_U8 \"\" VALUE U8 0 NO_COMPU_METHOD 0 255 /end TYPEDEF_CHARACTERISTIC\n            /begin TYPEDEF_CHARACTERISTIC C_U16 \"\" VALUE U16 0 NO_COMPU_METHOD 0 65535 /end TYPEDEF_CHARACTERISTIC\n            /begin TYPEDEF_CHARACTERISTIC C_U32 \"\" VALUE U32 0 NO_COMPU_METHOD 0 4294967295 /end TYPEDEF_CHARACTERISTIC\n            /begin TYPEDEF_CHARACTERISTIC C_U64 \"\" VALUE U64 0 NO_COMPU_METHOD 0 1e12 /end TYPEDEF_CHARACTERISTIC\n            /begin TYPEDEF_CHARACTERISTIC C_I8 \"\" VALUE I8 0 NO_COMPU_METHOD -128 127 /end TYPEDEF_CHARACTERISTIC\n            /begin TYPEDEF_CHARACTERISTIC C_I16 \"\" VALUE I16 0 NO_COMPU_METHOD -32768 32767 /end TYPEDEF_CHARACTERISTIC\n            /begin TYPEDEF_CHARACTERISTIC C_I32 \"\" VALUE I32 0 NO_COMPU_METHOD -2147483648 2147483647 /end TYPEDEF_CHARACTERISTIC\n            /begin TYPEDEF_CHARACTERISTIC C_I64 \"\" VALUE I64 0 NO_COMPU_METHOD -1e12 1e12 /end TYPEDEF_CHARACTERISTIC\n            /begin TYPEDEF_CHARACTERISTIC C_F64 \"\" VALUE F64 0 NO_COMPU_METHOD -1e12 1e12 /end TYPEDEF_CHARACTERISTIC\n            /begin TYPEDEF_CHARACTERISTIC C_F32 \"\" VALUE F32 0 NO_COMPU_METHOD -1e12 1e12 /end TYPEDEF_CHARACTERISTIC\n            ";

/// XCP IF_DATA protocol layer with the optional commands of the XCP server
pub const A2L_PROTOCOL_LAYER: &'static str = "/begin IF_DATA XCP\n            /begin PROTOCOL_LAYER\n            0x104 1000 2000 0 0 0 0 0 252 1468 BYTE_ORDER_MSB_LAST ADDRESS_GRANULARITY_BYTE\n            OPTIONAL_CMD GET_COMM_MODE_INFO\n            OPTIONAL_CMD GET_ID\n            OPTIONAL_CMD SET_REQUEST\n            OPTIONAL_CMD SET_MTA\n            OPTIONAL_CMD UPLOAD\n            OPTIONAL_CMD SHORT_UPLOAD\n            OPTIONAL_CMD DOWNLOAD\n            OPTIONAL_CMD SHORT_DOWNLOAD\n            OPTIONAL_CMD GET_CAL_PAGE\n            OPTIONAL_CMD SET_CAL_PAGE\n            OPTIONAL_CMD COPY_CAL_PAGE\n            OPTIONAL_CMD BUILD_CHECKSUM\n            OPTIONAL_CMD GET_DAQ_RESOLUTION_INFO\n            OPTIONAL_CMD GET_DAQ_PROCESSOR_INFO\n            OPTIONAL_CMD FREE_DAQ\n            OPTIONAL_CMD ALLOC_DAQ\n            OPTIONAL_CMD ALLOC_ODT\n            OPTIONAL_CMD ALLOC_ODT_ENTRY\n            OPTIONAL_CMD SET_DAQ_PTR\n            OPTIONAL_CMD WRITE_DAQ\n            OPTIONAL_CMD GET_DAQ_LIST_MODE\n            OPTIONAL_CMD SET_DAQ_LIST_MODE\n            OPTIONAL_CMD START_STOP_SYNCH\n            OPTIONAL_CMD START_STOP_DAQ_LIST\n            OPTIONAL_CMD GET_DAQ_CLOCK\n            OPTIONAL_CMD WRITE_DAQ_MULTIPLE\n            OPTIONAL_CMD TIME_CORRELATION_PROPERTIES\n            OPTIONAL_CMD USER_CMD\n            OPTIONAL_LEVEL1_CMD GET_VERSION\n            /end PROTOCOL_LAYER";

/// DAQ section of the XCP IF_DATA, up to the number of events
pub const A2L_DAQ_BEGIN: &'static str = "\n\n\t\t\t/begin DAQ\n            DYNAMIC 0 ";

/// DAQ section of the XCP IF_DATA after the number of events: the timestamp properties
pub const A2L_DAQ_TIMESTAMP: &'static str = " 0 OPTIMISATION_TYPE_DEFAULT ADDRESS_EXTENSION_FREE IDENTIFICATION_FIELD_TYPE_RELATIVE_BYTE GRANULARITY_ODT_ENTRY_SIZE_DAQ_BYTE 0xF8 OVERLOAD_INDICATION_PID\n            /begin TIMESTAMP_SUPPORTED\n                0x1 SIZE_DWORD UNIT_1US TIMESTAMP_FIXED\n            /end TIMESTAMP_SUPPORTED\n            \n";

//-------------------------------------------------------------------------------------------------
// A2L texts

/// Head of the A2L file with project and module name
pub open spec fn head_text(project_name: Seq<char>, module_name: Seq<char>) -> Seq<char> {
    A2L_HEAD_BEGIN@ + project_name + A2L_HEAD_PROJECT@ + module_name + A2L_HEAD_MODULE@
}

/// The EPK of the application and its memory segment, with the address written as 8 hex digits
pub open spec fn epk_text(epk: Seq<char>, epk_addr: u32) -> Seq<char> {
    "EPK \""@ + epk + "\" ADDR_EPK 0x"@ + zero_padded(hex(epk_addr as nat), 8)
        + "\n/begin MEMORY_SEGMENT epk \"\" DATA FLASH INTERN 0x"@ + zero_padded(hex(epk_addr as nat), 8)
        + " "@ + dec((encode_utf8(epk).len() as usize) as nat) + " -1 -1 -1 -1 -1 /end MEMORY_SEGMENT\n"@
}

/// The memory segments of the first n calibration segments
pub open spec fn calsegs_text(segs: Seq<McCalibrationSegment>, n: int) -> Seq<char>
    decreases n,
{
    if n <= 0 {
        Seq::empty()
    } else {
        calsegs_text(segs, n - 1) + calseg_text(segs[n - 1])
    }
}

/// MOD_PAR: the EPK and the memory segments
pub open spec fn modpar_text(reg: Registry) -> Seq<char> {
    "/begin MOD_PAR \"\" "@ + epk_text(reg.epk@, reg.epk_addr) + calsegs_text(
        reg.cal_seg_list@,
        reg.cal_seg_list@.len() as int,
    ) + " /end MOD_PAR\n"@
}

/// The A2L EVENTs of the first n events
pub open spec fn events_text(events: Seq<McEvent>, n: int) -> Seq<char>
    decreases n,
{
    if n <= 0 {
        Seq::empty()
    } else {
        events_text(events, n - 1) + event_text(events[n - 1])
    }
}

/// The IPv4 address in dotted decimal notation
pub open spec fn ipv4_text(addr: Seq<u8>) -> Seq<char> {
    dec(addr[0] as nat) + seq!['.'] + dec(addr[1] as nat) + seq!['.'] + dec(addr[2] as nat) + seq!['.']
        + dec(addr[3] as nat)
}

/// The XCP_ON_xxx_IP transport layer of the XCP IF_DATA, with the protocol name in upper case
pub open spec fn xcp_on_ip_text(protocol_upper: Seq<char>, port: u16, addr: Seq<u8>) -> Seq<char> {
    "\n\t\t\t/begin XCP_ON_"@ + protocol_upper + "_IP 0x104 "@ + dec(port as nat) + " ADDRESS \""@
        + ipv4_text(addr) + "\" /end XCP_ON_"@ + protocol_upper + "_IP\n"@
}

/// The XCP transport layer text of the registry, if it has transport layer parameters
pub open spec fn tl_params_text(tl: Option<McXcpTransportLayer>) -> Seq<char> {
    match tl {
        Some(t) => xcp_on_ip_text(str_uppercase(t.protocol_name@), t.port, t.addr@),
        None => Seq::empty(),
    }
}

/// The XCP IF_DATA: protocol layer, DAQ with the number of events and the events, transport
/// layer
pub open spec fn if_data_text(reg: Registry) -> Seq<char> {
    A2L_PROTOCOL_LAYER@ + A2L_DAQ_BEGIN@ + dec(reg.event_list@.len()) + A2L_DAQ_TIMESTAMP@ + events_text(
        reg.event_list@,
        reg.event_list@.len() as int,
    ) + "\n\t\t\t/end DAQ\n"@ + tl_params_text(reg.xcp_tl_params) + "\n/end IF_DATA\n\n"@
}

/// End of the A2L file
pub open spec fn tail_text() -> Seq<char> {
    "\n/end MODULE\n/end PROJECT\n"@
}

//-------------------------------------------------------------------------------------------------
// Typedefs

/// Each typedef of a typedef field, where there is one, has a lower rank than the typedef of
/// the field: the typedefs form no cycle
pub open spec fn typedefs_ranked(tds: Seq<McTypeDef>, rank: Seq<nat>) -> bool {
    ranked_by(tds, rank, true)
}

/// A field that is no typedef instance has a known value type and an object type
pub open spec fn leaf_writable(f: McTypeDefField) -> bool {
    !(f.dim_type.value_type is TypeDef) ==> !(f.dim_type.value_type is Unknown)
        && f.dim_type.mc_support_data.object_type != McObjectType::Unspecified
}

/// What writing the typedefs needs: no cycle, leaf fields that can be written, the limits of
/// each field of each typedef
pub open spec fn typedefs_writable(tds: Seq<McTypeDef>, lims: Seq<Seq<A2lLimits>>) -> bool {
    &&& exists|rank: Seq<nat>| typedefs_ranked(tds, rank)
    &&& typedef_fields_writable(tds, lims)
}

/// Leaf fields that can be written, and the limits of each field of each typedef
pub open spec fn typedef_fields_writable(tds: Seq<McTypeDef>, lims: Seq<Seq<A2lLimits>>) -> bool {
    &&& forall|t: int, k: int|
        0 <= t < tds.len() && 0 <= k < tds[t].fields@.len() ==> leaf_writable(
            #[trigger] tds[t].fields@[k],
        )
    &&& lims.len() == tds.len()
    &&& forall|t: int| 0 <= t < tds.len() ==> (#[trigger] lims[t]).len() == tds[t].fields@.len()
}

/// TYPEDEF_MEASUREMENT of a field
pub open spec fn typedef_measurement_text(f: McTypeDefField, l: A2lLimits) -> Seq<char> {
    let d = f.dim_type;
    typedef_measurement_head_text(f, l) + unit_text(d.mc_support_data.unit@) + dimensions_text(
        d.x_dim,
        d.y_dim,
    ) + " /end TYPEDEF_MEASUREMENT\n"@
}

/// Head of the TYPEDEF_MEASUREMENT of a field: name, comment, type, conversion and limits
pub open spec fn typedef_measurement_head_text(f: McTypeDefField, l: A2lLimits) -> Seq<char> {
    let d = f.dim_type;
    "/begin TYPEDEF_MEASUREMENT "@ + f.name@ + " \""@ + d.mc_support_data.comment@ + "\" "@ + type_str(
        d.value_type,
    ) + " "@ + conversion_name(d.value_type, f.name@, l.conversion is Some) + " 0 0 "@ + l.min@ + " "@
        + l.max@
}

/// TYPEDEF_CHARACTERISTIC of a field, with the dimensions of a VAL_BLK or the axis
/// descriptions of a MAP or CURVE
pub open spec fn typedef_characteristic_text(f: McTypeDefField, l: A2lLimits) -> Seq<char> {
    let d = f.dim_type;
    let sub = characteristic_subtype(d);
    typedef_characteristic_head_text(f, l) + unit_text(d.mc_support_data.unit@) + (if sub == "VAL_BLK"@ {
        dimensions_text(d.x_dim, d.y_dim)
    } else if sub == "MAP"@ || sub == "CURVE"@ {
        axis_descr_text(d)
    } else {
        Seq::empty()
    }) + " /end TYPEDEF_CHARACTERISTIC\n"@
}

/// Head of the TYPEDEF_CHARACTERISTIC of a field: name, comment, sub type, record layout,
/// conversion and limits
pub open spec fn typedef_characteristic_head_text(f: McTypeDefField, l: A2lLimits) -> Seq<char> {
    let d = f.dim_type;
    "/begin TYPEDEF_CHARACTERISTIC "@ + f.name@ + " \""@ + d.mc_support_data.comment@ + "\" "@
        + characteristic_subtype(d) + " "@ + record_layout_str(d.value_type) + " 0 "@ + conversion_name(
        d.value_type,
        f.name@,
        l.conversion is Some,
    ) + " "@ + l.min@ + " "@ + l.max@
}

/// TYPEDEF_AXIS of a field
pub open spec fn typedef_axis_text(f: McTypeDefField, l: A2lLimits) -> Seq<char> {
    typedef_axis_head_text(f, l) + unit_text(f.dim_type.mc_support_data.unit@) + " /end TYPEDEF_AXIS\n"@
}

/// Head of the TYPEDEF_AXIS of a field: name, comment, record layout, conversion, number of
/// points and limits
pub open spec fn typedef_axis_head_text(f: McTypeDefField, l: A2lLimits) -> Seq<char> {
    let d = f.dim_type;
    "/begin TYPEDEF_AXIS "@ + f.name@ + " \""@ + d.mc_support_data.comment@ + "\" NO_INPUT_QUANTITY A_"@
        + record_layout_str(d.value_type) + " 0 "@ + conversion_name(d.value_type, f.name@, l.conversion is Some)
        + " "@ + dec(d.x_dim as nat) + " "@ + l.min@ + " "@ + l.max@
}

/// The typedef object of a field that is no typedef instance, after its conversion
pub open spec fn typedef_field_text(f: McTypeDefField, l: A2lLimits) -> Seq<char> {
    let d = f.dim_type;
    conversion_text(d.value_type, f.name@, d.mc_support_data.unit@, l, 0) + match d.mc_support_data.object_type {
        McObjectType::Measurement => typedef_measurement_text(f, l),
        McObjectType::Characteristic => typedef_characteristic_text(f, l),
        McObjectType::Axis => typedef_axis_text(f, l),
        McObjectType::Unspecified => Seq::empty(),
    }
}

/// STRUCTURE_COMPONENT of a field: named like the field, of the field's typedef or of the
/// typedef object named like the field; typedef instances with their dimensions
pub open spec fn component_text(f: McTypeDefField) -> Seq<char> {
    let d = f.dim_type;
    "\t/begin STRUCTURE_COMPONENT "@ + f.name@ + " "@ + (match d.value_type {
        McValueType::TypeDef(n) => n@,
        _ => f.name@,
    }) + " "@ + dec(f.offset as nat) + (if d.value_type is TypeDef {
        dimensions_text(d.x_dim, d.y_dim)
    } else {
        Seq::empty()
    }) + " /end STRUCTURE_COMPONENT\n"@
}

/// The components of the first n fields
pub open spec fn components_text(fields: Seq<McTypeDefField>, n: int) -> Seq<char>
    decreases n,
{
    if n <= 0 {
        Seq::empty()
    } else {
        components_text(fields, n - 1) + component_text(fields[n - 1])
    }
}

/// TYPEDEF_STRUCTURE of a typedef
pub open spec fn structure_text(td: McTypeDef) -> Seq<char> {
    "/begin TYPEDEF_STRUCTURE "@ + td.name@ + " \"\" "@ + dec(td.size as nat) + "\n"@ + components_text(
        td.fields@,
        td.fields@.len() as int,
    ) + "/end TYPEDEF_STRUCTURE\n"@
}

pub open spec fn rank_at(rank: Seq<nat>, t: int) -> nat {
    if 0 <= t < rank.len() {
        rank[t]
    } else {
        0
    }
}

/// The text of the first k fields of typedef t, given the names of the typedef objects written
/// before, and those names afterwards: a typedef field writes its typedef, another field its
/// typedef object, unless one of its name was written
pub open spec fn typedef_fields_text(
    tds: Seq<McTypeDef>,
    rank: Seq<nat>,
    lims: Seq<Seq<A2lLimits>>,
    t: int,
    k: int,
    w: Seq<Seq<char>>,
) -> (Seq<char>, Seq<Seq<char>>)
    decreases rank_at(rank, t), k,
{
    if !(0 <= t < tds.len() && rank.len() == tds.len() && 0 < k <= tds[t].fields@.len()) {
        (Seq::empty(), w)
    } else {
        let prev = typedef_fields_text(tds, rank, lims, t, k - 1, w);
        let f = tds[t].fields@[k - 1];
        match f.dim_type.value_type {
            McValueType::TypeDef(n) => {
                let j = first_typedef_pos(tds, n@);
                if 0 <= j < tds.len() && rank[j] < rank[t] {
                    let sub = typedef_text(tds, rank, lims, j, prev.1);
                    (prev.0 + sub.0, sub.1)
                } else {
                    prev
                }
            },
            _ => if prev.1.contains(f.name@) {
                prev
            } else {
                (prev.0 + typedef_field_text(f, lims[t][k - 1]), prev.1.push(f.name@))
            },
        }
    }
}

/// The text of typedef t, given the names of the typedef objects written before, and those
/// names afterwards: its fields, then its structure, unless one of its name was written
pub open spec fn typedef_text(
    tds: Seq<McTypeDef>,
    rank: Seq<nat>,
    lims: Seq<Seq<A2lLimits>>,
    t: int,
    w: Seq<Seq<char>>,
) -> (Seq<char>, Seq<Seq<char>>)
    decreases rank_at(rank, t), (if 0 <= t < tds.len() {
        tds[t].fields@.len() + 1
    } else {
        0
    }),
{
    if !(0 <= t < tds.len() && rank.len() == tds.len()) {
        (Seq::empty(), w)
    } else {
        let fx = typedef_fields_text(tds, rank, lims, t, tds[t].fields@.len() as int, w);
        if fx.1.contains(tds[t].name@) {
            fx
        } else {
            (fx.0 + structure_text(tds[t]), fx.1.push(tds[t].name@))
        }
    }
}

/// The text of the first n typedefs, given the names written before, and those names afterwards
pub open spec fn typedefs_text(
    tds: Seq<McTypeDef>,
    rank: Seq<nat>,
    lims: Seq<Seq<A2lLimits>>,
    n: int,
    w: Seq<Seq<char>>,
) -> (Seq<char>, Seq<Seq<char>>)
    decreases n,
{
    if n <= 0 {
        (Seq::empty(), w)
    } else {
        let prev = typedefs_text(tds, rank, lims, n - 1, w);
        let cur = typedef_text(tds, rank, lims, n - 1, prev.1);
        (prev.0 + cur.0, cur.1)
    }
}

/// A rank under which the typedefs form no cycle
pub open spec fn typedef_rank(tds: Seq<McTypeDef>) -> Seq<nat> {
    choose|rank: Seq<nat>| typedefs_ranked(tds, rank)
}

/// The typedefs section: all typedefs in list order, and the names written afterwards
pub open spec fn typedefs_section(
    tds: Seq<McTypeDef>,
    lims: Seq<Seq<A2lLimits>>,
    w: Seq<Seq<char>>,
) -> (Seq<char>, Seq<Seq<char>>) {
    let x = typedefs_text(tds, typedef_rank(tds), lims, tds.len() as int, w);
    ("\n/* TypeDefs */\n"@ + x.0 + "\n"@, x.1)
}

/// No name occurs twice
pub open spec fn names_unique(w: Seq<Seq<char>>) -> bool {
    forall|i: int, j: int| 0 <= i < j < w.len() ==> w[i] != w[j]
}

proof fn lemma_push_unique(w: Seq<Seq<char>>, n: Seq<char>)
    requires
        names_unique(w),
        !w.contains(n),
    ensures
        names_unique(w.push(n)),
{
    assert forall|i: int, j: int| 0 <= i < j < w.push(n).len() implies w.push(n)[i] != w.push(n)[j] by {
        if j == w.len() {
            assert(w[i] == w.push(n)[i]);
        }
    }
}

/// Writing the first k fields of a typedef keeps the names of the typedef objects written
/// unique
pub proof fn lemma_typedef_fields_unique(
    tds: Seq<McTypeDef>,
    rank: Seq<nat>,
    lims: Seq<Seq<A2lLimits>>,
    t: int,
    k: int,
    w: Seq<Seq<char>>,
)
    requires
        names_unique(w),
    ensures
        names_unique(typedef_fields_text(tds, rank, lims, t, k, w).1),
    decreases rank_at(rank, t), k,
{
    if 0 <= t < tds.len() && rank.len() == tds.len() && 0 < k <= tds[t].fields@.len() {
        lemma_typedef_fields_unique(tds, rank, lims, t, k - 1, w);
        let prev = typedef_fields_text(tds, rank, lims, t, k - 1, w);
        let f = tds[t].fields@[k - 1];
        match f.dim_type.value_type {
            McValueType::TypeDef(n) => {
                let j = first_typedef_pos(tds, n@);
                if 0 <= j < tds.len() && rank[j] < rank[t] {
                    lemma_typedef_unique(tds, rank, lims, j, prev.1);
                }
            },
            _ => {
                if !prev.1.contains(f.name@) {
                    lemma_push_unique(prev.1, f.name@);
                }
            },
        }
    }
}

/// Writing a typedef keeps the names of the typedef objects written unique: a typedef object or
/// structure of a name is written at most once
pub proof fn lemma_typedef_unique(
    tds: Seq<McTypeDef>,
    rank: Seq<nat>,
    lims: Seq<Seq<A2lLimits>>,
    t: int,
    w: Seq<Seq<char>>,
)
    requires
        names_unique(w),
    ensures
        names_unique(typedef_text(tds, rank, lims, t, w).1),
    decreases rank_at(rank, t), (if 0 <= t < tds.len() {
        tds[t].fields@.len() + 1
    } else {
        0
    }),
{
    if 0 <= t < tds.len() && rank.len() == tds.len() {
        lemma_typedef_fields_unique(tds, rank, lims, t, tds[t].fields@.len() as int, w);
        let fx = typedef_fields_text(tds, rank, lims, t, tds[t].fields@.len() as int, w);
        if !fx.1.contains(tds[t].name@) {
            lemma_push_unique(fx.1, tds[t].name@);
        }
    }
}

/// Writing the typedefs section keeps the names of the typedef objects written unique: no
/// TYPEDEF_MEASUREMENT, TYPEDEF_CHARACTERISTIC, TYPEDEF_AXIS or TYPEDEF_STRUCTURE name is
/// written twice
pub proof fn lemma_typedefs_section_unique(tds: Seq<McTypeDef>, lims: Seq<Seq<A2lLimits>>, w: Seq<Seq<char>>)
    requires
        names_unique(w),
    ensures
        names_unique(typedefs_section(tds, lims, w).1),
{
    lemma_typedefs_unique(tds, typedef_rank(tds), lims, tds.len() as int, w);
}

proof fn lemma_typedefs_unique(
    tds: Seq<McTypeDef>,
    rank: Seq<nat>,
    lims: Seq<Seq<A2lLimits>>,
    n: int,
    w: Seq<Seq<char>>,
)
    requires
        names_unique(w),
    ensures
        names_unique(typedefs_text(tds, rank, lims, n, w).1),
    decreases n,
{
    if n > 0 {
        lemma_typedefs_unique(tds, rank, lims, n - 1, w);
        lemma_typedef_unique(tds, rank, lims, n - 1, typedefs_text(tds, rank, lims, n - 1, w).1);
    }
}

//-------------------------------------------------------------------------------------------------
// Measurements

/// An instance is written as a measurement: a measurement object, or an object with an event
pub open spec fn is_measured(i: McInstance) -> bool {
    i.dim_type.mc_support_data.object_type == McObjectType::Measurement || i.address@.event_id is Some
}

/// The A2L text of an instance written as a measurement
pub open spec fn measured_instance_text(reg: Registry, i: McInstance, l: A2lLimits) -> Seq<char> {
    let a = a2l_addr_of(i.address@, reg.cal_seg_list@);
    measurement_text(
        i,
        instance_unique_name(i, reg.event_list@, reg.prefix_names, reg.app_name()),
        instance_event_index(i, reg.event_list@),
        a.0,
        a.1,
        l,
    )
}

/// The measurements among the first n instances
pub open spec fn measured_text(reg: Registry, lims: Seq<A2lLimits>, n: int) -> Seq<char>
    decreases n,
{
    if n <= 0 {
        Seq::empty()
    } else {
        let i = reg.instance_list@[n - 1];
        measured_text(reg, lims, n - 1) + if is_measured(i) {
            measured_instance_text(reg, i, lims[n - 1])
        } else {
            Seq::empty()
        }
    }
}

/// The names of the first n events, leaving out all but the first instance of a name
pub open spec fn event_group_names_text(events: Seq<McEvent>, n: int) -> Seq<char>
    decreases n,
{
    if n <= 0 {
        Seq::empty()
    } else {
        let e = events[n - 1];
        event_group_names_text(events, n - 1) + if e.index > 1 {
            Seq::empty()
        } else {
            seq![' '] + e.name@
        }
    }
}

/// The first event with this id, if there is one
pub open spec fn event_with_id(events: Seq<McEvent>, id: u16) -> Option<McEvent> {
    if exists|k: int| is_first_with_id(events, k, id) {
        Some(events[choose|k: int| is_first_with_id(events, k, id)])
    } else {
        None
    }
}

/// The instance is a measurement object whose event has this name
pub open spec fn measured_by_event_named(events: Seq<McEvent>, i: McInstance, name: Seq<char>) -> bool {
    &&& i.dim_type.mc_support_data.object_type == McObjectType::Measurement
    &&& match i.address@.event_id {
        Some(id) => match event_with_id(events, id) {
            Some(e) => e.name@ == name,
            None => false,
        },
        None => false,
    }
}

/// The unique names of the measurement objects among the first n instances whose event has
/// this name
pub open spec fn event_refs_text(reg: Registry, name: Seq<char>, n: int) -> Seq<char>
    decreases n,
{
    if n <= 0 {
        Seq::empty()
    } else {
        let i = reg.instance_list@[n - 1];
        event_refs_text(reg, name, n - 1) + if measured_by_event_named(reg.event_list@, i, name) {
            seq![' '] + instance_unique_name(i, reg.event_list@, reg.prefix_names, reg.app_name())
        } else {
            Seq::empty()
        }
    }
}

/// The GROUP of the measurements of an event
pub open spec fn event_group_text(reg: Registry, e: McEvent) -> Seq<char> {
    "/begin GROUP "@ + e.name@ + " \"\" /begin REF_MEASUREMENT"@ + event_refs_text(
        reg,
        e.name@,
        reg.instance_list@.len() as int,
    ) + " /end REF_MEASUREMENT /end GROUP\n"@
}

/// The GROUPs of the first n events, leaving out all but the first instance of a name
pub open spec fn event_groups_text(reg: Registry, n: int) -> Seq<char>
    decreases n,
{
    if n <= 0 {
        Seq::empty()
    } else {
        let e = reg.event_list@[n - 1];
        event_groups_text(reg, n - 1) + if e.index > 1 {
            Seq::empty()
        } else {
            event_group_text(reg, e)
        }
    }
}

/// The measurements, the root group of the events and a group for each event
pub open spec fn measurements_section_text(reg: Registry, lims: Seq<A2lLimits>) -> Seq<char> {
    "\n/* Measurements */\n"@ + measured_text(reg, lims, reg.instance_list@.len() as int)
        + "/begin GROUP Measurements \"\" ROOT /begin SUB_GROUP"@ + event_group_names_text(
        reg.event_list@,
        reg.event_list@.len() as int,
    ) + " /end SUB_GROUP /end GROUP\n"@ + event_groups_text(reg, reg.event_list@.len() as int)
}

//-------------------------------------------------------------------------------------------------
// Axis points, characteristics and their groups

/// The AXIS_PTS of the axis points among the first n instances
pub open spec fn axes_text(reg: Registry, lims: Seq<A2lLimits>, n: int) -> Seq<char>
    decreases n,
{
    if n <= 0 {
        Seq::empty()
    } else {
        let i = reg.instance_list@[n - 1];
        let a = a2l_addr_of(i.address@, reg.cal_seg_list@);
        axes_text(reg, lims, n - 1) + if i.dim_type.mc_support_data.object_type == McObjectType::Axis {
            axis_text_of(i, a.1, a.0, lims[n - 1])
        } else {
            Seq::empty()
        }
    }
}

/// The calibration objects that are neither axis points nor measurements, among the first n
/// instances
pub open spec fn characteristics_text(reg: Registry, lims: Seq<A2lLimits>, n: int) -> Seq<char>
    decreases n,
{
    if n <= 0 {
        Seq::empty()
    } else {
        let i = reg.instance_list@[n - 1];
        let a = a2l_addr_of(i.address@, reg.cal_seg_list@);
        characteristics_text(reg, lims, n - 1) + if i.dim_type.mc_support_data.object_type
            != McObjectType::Axis && !is_measured(i) {
            characteristic_text(i, a.1, a.0, lims[n - 1])
        } else {
            Seq::empty()
        }
    }
}

/// All axis points, then all characteristics
pub open spec fn characteristics_section_text(reg: Registry, lims: Seq<A2lLimits>) -> Seq<char> {
    "\n/* Axis */\n"@ + axes_text(reg, lims, reg.instance_list@.len() as int)
        + "\n/* Characteristics */\n"@ + characteristics_text(
        reg,
        lims,
        reg.instance_list@.len() as int,
    )
}

/// The names of the first n calibration segments
pub open spec fn segment_names_text(segs: Seq<McCalibrationSegment>, n: int) -> Seq<char>
    decreases n,
{
    if n <= 0 {
        Seq::empty()
    } else {
        segment_names_text(segs, n - 1) + seq![' '] + segs[n - 1].name@
    }
}

/// The instance is in the calibration segment of this name
pub open spec fn in_segment(i: McInstance, name: Seq<char>) -> bool {
    i.address@.addr_mode == McAddrMode::Cal && i.address@.calseg_name == Some(name)
}

/// " name " of the instances in the calibration segment of this name, among the first n
pub open spec fn segment_members_text(insts: Seq<McInstance>, name: Seq<char>, n: int) -> Seq<char>
    decreases n,
{
    if n <= 0 {
        Seq::empty()
    } else {
        segment_members_text(insts, name, n - 1) + if in_segment(insts[n - 1], name) {
            seq![' '] + insts[n - 1].name@ + seq![' ']
        } else {
            Seq::empty()
        }
    }
}

/// The GROUP of the objects of a calibration segment, if it has any
pub open spec fn segment_group_text(insts: Seq<McInstance>, name: Seq<char>) -> Seq<char> {
    let members = segment_members_text(insts, name, insts.len() as int);
    if members.len() > 0 {
        "/begin GROUP "@ + name + " \"\" /begin REF_CHARACTERISTIC "@ + members
            + "/end REF_CHARACTERISTIC /end GROUP\n"@
    } else {
        Seq::empty()
    }
}

/// The GROUPs of the first n calibration segments
pub open spec fn segment_groups_text(insts: Seq<McInstance>, segs: Seq<McCalibrationSegment>, n: int) -> Seq<
    char,
>
    decreases n,
{
    if n <= 0 {
        Seq::empty()
    } else {
        segment_groups_text(insts, segs, n - 1) + segment_group_text(insts, segs[n - 1].name@)
    }
}

/// The root group of the calibration segments and a group for each segment
pub open spec fn groups_section_text(reg: Registry) -> Seq<char> {
    let segs = reg.cal_seg_list@;
    "\n/* Characteristic and Axis Groups */\n"@
        + "/begin GROUP Characteristics \"\" ROOT /begin SUB_GROUP"@ + segment_names_text(
        segs,
        segs.len() as int,
    ) + " /end SUB_GROUP /end GROUP\n"@ + segment_groups_text(
        reg.instance_list@,
        segs,
        segs.len() as int,
    )
}

//-------------------------------------------------------------------------------------------------
// Preconditions of writing

/// What writing an instance needs: an address that can be written, a known value type, a
/// measured BLOB with a length, axis points and calibration objects in a calibration segment,
/// axis points of a basic type, calibration objects that are typedef instances or
/// characteristics
pub open spec fn instance_writable(i: McInstance, segs: Seq<McCalibrationSegment>) -> bool {
    let d = i.dim_type;
    let t = d.mc_support_data.object_type;
    &&& a2l_addr_ok(i.address, segs)
    &&& !(d.value_type is Unknown)
    &&& is_measured(i) && d.value_type is Blob ==> d.x_dim > 0 && d.y_dim == 1
    &&& t == McObjectType::Axis ==> i.address@.addr_mode == McAddrMode::Cal && !(d.value_type is TypeDef)
    &&& t != McObjectType::Axis && !is_measured(i) ==> i.address@.addr_mode == McAddrMode::Cal && (
    d.value_type is TypeDef || t == McObjectType::Characteristic)
}

/// What writing the A2L text of a registry needs: the limits of each instance, memory segment
/// numbers that fit, instances that can be written
pub open spec fn a2l_writable(reg: Registry, lims: Seq<A2lLimits>) -> bool {
    &&& lims.len() == reg.instance_list@.len()
    &&& forall|k: int|
        0 <= k < reg.cal_seg_list@.len() ==> (#[trigger] reg.cal_seg_list@[k]).index < u16::MAX
    &&& forall|k: int|
        0 <= k < reg.instance_list@.len() ==> instance_writable(
            #[trigger] reg.instance_list@[k],
            reg.cal_seg_list@,
        )
}

//-------------------------------------------------------------------------------------------------
// The A2L file

/// The A2L text of a registry, given the names of typedef objects written before: head, module
/// parameters, XCP IF_DATA where the registry has transport layer parameters, typedefs,
/// measurements, characteristics, groups and tail
pub open spec fn a2l_text(
    reg: Registry,
    lims: Seq<A2lLimits>,
    tlims: Seq<Seq<A2lLimits>>,
    w: Seq<Seq<char>>,
    project_name: Seq<char>,
    module_name: Seq<char>,
) -> Seq<char> {
    head_text(project_name, module_name) + modpar_text(reg) + (if reg.xcp_tl_params is Some {
        if_data_text(reg)
    } else {
        Seq::empty()
    }) + typedefs_section(reg.typedef_list@, tlims, w).0 + measurements_section_text(reg, lims)
        + characteristics_section_text(reg, lims) + groups_section_text(reg) + tail_text()
}


//-------------------------------------------------------------------------------------------------
// Checks

/// Whether an instance can be written, as `instance_writable` says
fn check_instance_writable(i: &McInstance, segs: &McCalibrationSegmentList) -> (b: bool)
    ensures
        b == instance_writable(*i, segs@),
{
    let a = &i.address;
    let d = &i.dim_type;
    let mode = a.get_addr_mode();
    let ext = a.get_a2l_addr_ext();
    let off = a.offset_field();
    let t = d.get_object_type();
    let measured = t == McObjectType::Measurement || a.get_event_id().is_some();
    let wf = (mode != McAddrMode::Cal || a.get_calseg_name().is_some()) && (mode != McAddrMode::Dyn
        || a.get_event_id().is_some());
    let addr_ok = wf && mode != McAddrMode::Undef && (mode != McAddrMode::Dyn || (XCP_ADDR_EXT_DYN
        <= ext && ext < XCP_ADDR_EXT_DYN + 16 && -32768 <= off && off <= 32767)) && (mode
        != McAddrMode::Abs || off >= 0) && (mode != McAddrMode::Cal || (0 <= off && off <= 65535
        && match a.get_calseg_name() {
        Some(n) => segs.find_position(n.as_str()).is_some(),
        None => false,
    }));
    let known = !matches!(d.value_type, McValueType::Unknown);
    let is_blob = matches!(d.value_type, McValueType::Blob(_));
    let is_typedef = d.is_typedef();
    let blob_ok = !(measured && is_blob) || (d.x_dim > 0 && d.y_dim == 1);
    let axis_ok = t != McObjectType::Axis || (mode == McAddrMode::Cal && !is_typedef);
    let cal_ok = t == McObjectType::Axis || measured || (mode == McAddrMode::Cal && (is_typedef || t
        == McObjectType::Characteristic));
    proof {
        if mode == McAddrMode::Cal && a@.calseg_name is Some {
            let n = a@.calseg_name->0;
            assert((exists|k: int| 0 <= k < segs@.len() && (#[trigger] segs@[k]).name@ == n) ==> (
            exists|k: int| 0 <= k < segs@.len() && (#[trigger] segs@[k]).name@ == n && forall|j: int|
                0 <= j < k ==> (#[trigger] segs@[j]).name@ != n)) by {
                if exists|k: int| 0 <= k < segs@.len() && (#[trigger] segs@[k]).name@ == n {
                    lemma_first_segment(segs@, n);
                }
            }
        }
    }
    addr_ok && known && blob_ok && axis_ok && cal_ok
}

proof fn lemma_first_segment(segs: Seq<McCalibrationSegment>, n: Seq<char>)
    requires
        exists|k: int| 0 <= k < segs.len() && (#[trigger] segs[k]).name@ == n,
    ensures
        exists|k: int|
            0 <= k < segs.len() && (#[trigger] segs[k]).name@ == n && forall|j: int|
                0 <= j < k ==> (#[trigger] segs[j]).name@ != n,
    decreases segs.len(),
{
    if segs.last().name@ == n && !(exists|k: int| 0 <= k < segs.len() - 1 && (#[trigger] segs[k]).name@ == n) {
        let k = segs.len() - 1;
        assert(forall|j: int| 0 <= j < k ==> (#[trigger] segs[j]).name@ != n);
    } else {
        let k0 = choose|k: int| 0 <= k < segs.len() && (#[trigger] segs[k]).name@ == n;
        let p = segs.drop_last();
        if k0 == segs.len() - 1 {
            let k1 = choose|k: int| 0 <= k < segs.len() - 1 && (#[trigger] segs[k]).name@ == n;
            assert(p[k1].name@ == n);
        } else {
            assert(p[k0].name@ == n);
        }
        lemma_first_segment(p, n);
        let k = choose|k: int|
            0 <= k < p.len() && (#[trigger] p[k]).name@ == n && forall|j: int|
                0 <= j < k ==> (#[trigger] p[j]).name@ != n;
        assert(segs[k] == p[k]);
        assert forall|j: int| 0 <= j < k implies (#[trigger] segs[j]).name@ != n by {
            assert(segs[j] == p[j]);
        }
    }
}

/// Whether a registry and the limits of its instances can be written, as `a2l_writable` says
pub fn check_a2l_writable(reg: &Registry, limits: &Vec<A2lLimits>) -> (b: bool)
    ensures
        b == a2l_writable(*reg, limits@),
{
    if limits.len() != reg.instance_list.len() {
        return false;
    }
    let n = reg.cal_seg_list.len();
    let mut k: usize = 0;
    while k < n
        invariant
            n == reg.cal_seg_list@.len(),
            k <= n,
            forall|j: int| 0 <= j < k ==> (#[trigger] reg.cal_seg_list@[j]).index < u16::MAX,
        decreases n - k,
    {
        if reg.cal_seg_list.get(k).index == u16::MAX {
            return false;
        }
        k += 1;
    }
    let n = reg.instance_list.len();
    let mut k: usize = 0;
    while k < n
        invariant
            n == reg.instance_list@.len(),
            k <= n,
            forall|j: int|
                0 <= j < k ==> instance_writable(#[trigger] reg.instance_list@[j], reg.cal_seg_list@),
        decreases n - k,
    {
        if !check_instance_writable(reg.instance_list.get(k), &reg.cal_seg_list) {
            return false;
        }
        k += 1;
    }
    true
}

/// Whether typedef fields refer to typedefs of lower rank, as `typedefs_ranked` says
fn check_typedefs_ranked(tds: &McTypeDefList, ranks: &Vec<u64>) -> (b: bool)
    requires
        ranks@.len() == tds@.len(),
    ensures
        b == typedefs_ranked(tds@, rank_of(ranks@)),
{
    let ghost rank = rank_of(ranks@);
    let n = tds.len();
    let mut t: usize = 0;
    while t < n
        invariant
            n == tds@.len(),
            ranks@.len() == n,
            rank == rank_of(ranks@),
            t <= n,
            forall|t2: int, k: int|
                0 <= t2 < t && 0 <= k < tds@[t2].fields@.len() ==> field_ranked(
                    tds@,
                    rank,
                    t2,
                    #[trigger] tds@[t2].fields@[k],
                ),
        decreases n - t,
    {
        let td = tds.get(t).unwrap();
        let m = td.fields.len();
        let mut k: usize = 0;
        while k < m
            invariant
                n == tds@.len(),
                ranks@.len() == n,
                rank == rank_of(ranks@),
                t < n,
                *td == tds@[t as int],
                m == td.fields@.len(),
                k <= m,
                forall|k2: int| 0 <= k2 < k ==> field_ranked(tds@, rank, t as int, #[trigger] tds@[t as int].fields@[k2]),
            decreases m - k,
        {
            let f = td.fields.get(k);
            match &f.dim_type.value_type {
                McValueType::TypeDef(tn) => {
                    match tds.find_typedef_index(tn.as_str()) {
                        Some(j) => {
                            proof {
                                lemma_first_typedef_pos(tds@, j as int, tn@);
                                assert(rank[j as int] == ranks@[j as int] as nat);
                                assert(rank[t as int] == ranks@[t as int] as nat);
                            }
                            if ranks[j] >= ranks[t] {
                                assert(!field_ranked(tds@, rank, t as int, tds@[t as int].fields@[k as int]));
                                return false;
                            }
                        },
                        None => {
                            proof {
                                assert(!exists|i: int| is_first_typedef(tds@, i, tn@));
                            }
                        },
                    }
                },
                _ => {},
            }
            k += 1;
        }
        t += 1;
    }
    true
}

/// The typedef of a field of typedef t, where there is one, has a lower rank than t
pub open spec fn field_ranked(tds: Seq<McTypeDef>, rank: Seq<nat>, t: int, f: McTypeDefField) -> bool {
    match f.dim_type.value_type {
        McValueType::TypeDef(n) => {
            let j = first_typedef_pos(tds, n@);
            j >= 0 ==> rank[j] < rank[t]
        },
        _ => true,
    }
}

/// Whether the typedefs and the limits of their fields can be written: their fields as
/// `typedef_fields_writable` says, and a rank found under which they form no cycle
fn check_typedefs_writable(tds: &McTypeDefList, limits: &Vec<Vec<A2lLimits>>) -> (b: bool)
    ensures
        b == typedefs_writable(tds@, limits@.map_values(|v: Vec<A2lLimits>| v@)),
{
    let ghost lims = limits@.map_values(|v: Vec<A2lLimits>| v@);
    let n = tds.len();
    if limits.len() != n {
        return false;
    }
    let mut t: usize = 0;
    while t < n
        invariant
            n == tds@.len(),
            lims == limits@.map_values(|v: Vec<A2lLimits>| v@),
            lims.len() == n,
            t <= n,
            forall|t2: int, k: int|
                0 <= t2 < t && 0 <= k < tds@[t2].fields@.len() ==> leaf_writable(
                    #[trigger] tds@[t2].fields@[k],
                ),
            forall|t2: int| 0 <= t2 < t ==> (#[trigger] lims[t2]).len() == tds@[t2].fields@.len(),
        decreases n - t,
    {
        let td = tds.get(t).unwrap();
        let m = td.fields.len();
        if limits[t].len() != m {
            assert(lims[t as int].len() != tds@[t as int].fields@.len());
            return false;
        }
        let mut k: usize = 0;
        while k < m
            invariant
                n == tds@.len(),
                t < n,
                *td == tds@[t as int],
                m == td.fields@.len(),
                k <= m,
                forall|k2: int| 0 <= k2 < k ==> leaf_writable(#[trigger] tds@[t as int].fields@[k2]),
            decreases m - k,
        {
            let f = td.fields.get(k);
            let ok = f.dim_type.is_typedef() || (!matches!(f.dim_type.value_type, McValueType::Unknown)
                && f.dim_type.get_object_type() != McObjectType::Unspecified);
            if !ok {
                assert(!leaf_writable(tds@[t as int].fields@[k as int]));
                return false;
            }
            k += 1;
        }
        t += 1;
    }
    let ghost all = Set::new(|t: int| 0 <= t < tds@.len());
    let ghost wit = choose|rank: Seq<nat>| typedefs_ranked(tds@, rank);
    let ranks = typedef_ranks(tds, true, Ghost(wit), Ghost(all));
    if !check_typedefs_ranked(tds, &ranks) {
        proof {
            if exists|rank: Seq<nat>| typedefs_ranked(tds@, rank) {
                assert(closed_ranked(tds@, wit, true, all)) by {
                    assert forall|t: int, k: int|
                        all.contains(t) && 0 <= t < tds@.len() && 0 <= k < tds@[t].fields@.len() implies match (#[trigger] tds@[t].fields@[k]).dim_type.value_type {
                            McValueType::TypeDef(n) => {
                                let j = first_typedef_pos(tds@, n@);
                                j >= 0 ==> all.contains(j) && wit[j] < wit[t]
                            },
                            _ => true,
                        } by {
                        match tds@[t].fields@[k].dim_type.value_type {
                            McValueType::TypeDef(n) => {
                                lemma_ref_pos_bound(tds@, n@, true);
                            },
                            _ => {},
                        }
                    }
                }
                assert(typedefs_ranked(tds@, rank_of(ranks@))) by {
                    assert forall|t: int, k: int|
                        0 <= t < tds@.len() && 0 <= k < tds@[t].fields@.len() implies match (#[trigger] tds@[t].fields@[k]).dim_type.value_type {
                            McValueType::TypeDef(n) => {
                                let j = ref_pos(tds@, n@, true);
                                j >= 0 ==> rank_of(ranks@)[j] < rank_of(ranks@)[t]
                            },
                            _ => true,
                        } by {
                        assert(all.contains(t));
                    }
                }
            }
        }
        return false;
    }
    assert(typedefs_ranked(tds@, rank_of(ranks@)));
    true
}

proof fn lemma_concat_parts(
    start: Seq<char>,
    p1: Seq<char>,
    p2: Seq<char>,
    p3: Seq<char>,
    p4: Seq<char>,
    p5: Seq<char>,
    p6: Seq<char>,
    p7: Seq<char>,
    p8: Seq<char>,
)
    ensures
        start + p1 + p2 + p3 + p4 + p5 + p6 + p7 + p8 == start + (p1 + p2 + p3 + p4 + p5 + p6 + p7
            + p8),
{
    assert(start + p1 + p2 + p3 + p4 + p5 + p6 + p7 + p8 =~= start + (p1 + p2 + p3 + p4 + p5 + p6
        + p7 + p8));
}

proof fn lemma_a2l_text_parts(
    reg: Registry,
    lims: Seq<A2lLimits>,
    tlims: Seq<Seq<A2lLimits>>,
    w: Seq<Seq<char>>,
    project_name: Seq<char>,
    module_name: Seq<char>,
    start: Seq<char>,
    s1: Seq<char>,
    s2: Seq<char>,
    s3: Seq<char>,
)
    requires
        s1 == start + head_text(project_name, module_name) + modpar_text(reg) + (if reg.xcp_tl_params is Some {
            if_data_text(reg)
        } else {
            Seq::empty()
        }),
        s2 == s1 + typedefs_section(reg.typedef_list@, tlims, w).0,
        s3 == s2 + measurements_section_text(reg, lims) + characteristics_section_text(reg, lims)
            + groups_section_text(reg) + tail_text(),
    ensures
        s3 == start + a2l_text(reg, lims, tlims, w, project_name, module_name),
{
    lemma_concat_parts(
        start,
        head_text(project_name, module_name),
        modpar_text(reg),
        if reg.xcp_tl_params is Some {
            if_data_text(reg)
        } else {
            Seq::empty()
        },
        typedefs_section(reg.typedef_list@, tlims, w).0,
        measurements_section_text(reg, lims),
        characteristics_section_text(reg, lims),
        groups_section_text(reg),
        tail_text(),
    );
}

//-------------------------------------------------------------------------------------------------
// Upper case

/// What `str::to_uppercase` returns: the Unicode upper case mapping of each character
pub uninterp spec fn str_uppercase(s: Seq<char>) -> Seq<char>;

/// `char::to_ascii_uppercase`
pub open spec fn ascii_upper(c: char) -> char {
    if ('a' as u32) <= (c as u32) <= ('z' as u32) {
        ((c as u32) - 32) as char
    } else {
        c
    }
}

/// `str::to_uppercase`: the string in upper case; ASCII letters a..z become A..Z, other ASCII
/// characters stay
#[verifier::external_body]
pub(crate) fn to_uppercase(s: &str) -> (r: String)
    ensures
        r@ == str_uppercase(s@),
        (forall|i: int| 0 <= i < s@.len() ==> (#[trigger] s@[i] as u32) < 0x80) ==> r@ == Seq::new(
            s@.len(),
            |i: int| ascii_upper(s@[i]),
        ),
{
    s.to_uppercase()
}

/// Write the XCP_ON_xxx_IP transport layer of the XCP IF_DATA, given the protocol name in upper
/// case
pub fn write_xcp_on_ip(s: &mut String, protocol_upper: &str, port: u16, addr: [u8; 4])
    ensures
        final(s)@ == old(s)@ + xcp_on_ip_text(protocol_upper@, port, addr@),
{
    let ghost start = s@;
    push_str(s, "\n\t\t\t/begin XCP_ON_");
    push_str(s, protocol_upper);
    push_str(s, "_IP 0x104 ");
    push_dec(s, port as u64);
    push_str(s, " ADDRESS \"");
    let ghost mid = s@;
    push_dec(s, addr[0] as u64);
    push_char(s, '.');
    push_dec(s, addr[1] as u64);
    push_char(s, '.');
    push_dec(s, addr[2] as u64);
    push_char(s, '.');
    push_dec(s, addr[3] as u64);
    assert(s@ =~= mid + ipv4_text(addr@));
    push_str(s, "\" /end XCP_ON_");
    push_str(s, protocol_upper);
    push_str(s, "_IP\n");
    assert(s@ =~= start + xcp_on_ip_text(protocol_upper@, port, addr@));
}

impl McXcpTransportLayer {
    /// Write the transport layer of the XCP IF_DATA
    pub fn write_a2l(&self, s: &mut String)
        ensures
            final(s)@ == old(s)@ + xcp_on_ip_text(str_uppercase(self.protocol_name@), self.port, self.addr@),
    {
        let protocol = to_uppercase(self.protocol_name);
        write_xcp_on_ip(s, protocol.as_str(), self.port, self.addr);
    }
}

//-------------------------------------------------------------------------------------------------
// Typedef objects

fn write_typedef_measurement(s: &mut String, f: &McTypeDefField, l: &A2lLimits)
    requires
        !(f.dim_type.value_type is Unknown) && !(f.dim_type.value_type is TypeDef),
    ensures
        final(s)@ == old(s)@ + typedef_measurement_text(*f, *l),
{
    let d = &f.dim_type;
    let ghost start = s@;
    push_str(s, "/begin TYPEDEF_MEASUREMENT ");
    push_str(s, f.name.as_str());
    push_str(s, " \"");
    push_str(s, d.get_comment());
    push_str(s, "\" ");
    push_str(s, d.value_type.get_type_str());
    push_str(s, " ");
    let ghost mid = s@;
    push_conversion_name(s, &d.value_type, f.name.as_str(), l.has_conversion());
    push_str(s, " 0 0 ");
    push_str(s, l.min.as_str());
    push_str(s, " ");
    push_str(s, l.max.as_str());
    assert(s@ =~= start + typedef_measurement_head_text(*f, *l));
    push_unit(s, d.get_unit());
    write_dimensions(d, s);
    push_str(s, " /end TYPEDEF_MEASUREMENT\n");
    assert(s@ =~= start + typedef_measurement_text(*f, *l));
}

fn write_typedef_characteristic_head(s: &mut String, f: &McTypeDefField, l: &A2lLimits)
    requires
        !(f.dim_type.value_type is Unknown) && !(f.dim_type.value_type is TypeDef),
        f.dim_type.mc_support_data.object_type == McObjectType::Characteristic,
    ensures
        final(s)@ == old(s)@ + typedef_characteristic_head_text(*f, *l),
{
    let d = &f.dim_type;
    let ghost start = s@;
    push_str(s, "/begin TYPEDEF_CHARACTERISTIC ");
    push_str(s, f.name.as_str());
    push_str(s, " \"");
    push_str(s, d.get_comment());
    push_str(s, "\" ");
    push_str(s, get_characteristic_subtype_str(d));
    push_str(s, " ");
    push_str(s, d.value_type.get_record_layout_str());
    push_str(s, " 0 ");
    let ghost mid = s@;
    push_conversion_name(s, &d.value_type, f.name.as_str(), l.has_conversion());
    push_str(s, " ");
    push_str(s, l.min.as_str());
    push_str(s, " ");
    push_str(s, l.max.as_str());
    assert(s@ =~= start + typedef_characteristic_head_text(*f, *l));
}

fn write_typedef_characteristic(s: &mut String, f: &McTypeDefField, l: &A2lLimits)
    requires
        !(f.dim_type.value_type is Unknown) && !(f.dim_type.value_type is TypeDef),
        f.dim_type.mc_support_data.object_type == McObjectType::Characteristic,
    ensures
        final(s)@ == old(s)@ + typedef_characteristic_text(*f, *l),
{
    let d = &f.dim_type;
    let ghost start = s@;
    write_typedef_characteristic_head(s, f, l);
    push_unit(s, d.get_unit());
    let ghost unit = s@;
    let kind = sub_kind(get_characteristic_subtype_str(d));
    if kind == 1 {
        write_dimensions(d, s);
    } else if kind == 2 {
        write_axis_descr(f.name.as_str(), d, s);
    }
    push_str(s, " /end TYPEDEF_CHARACTERISTIC\n");
    assert(s@ =~= start + typedef_characteristic_text(*f, *l));
}

fn write_typedef_axis(s: &mut String, f: &McTypeDefField, l: &A2lLimits)
    requires
        !(f.dim_type.value_type is Unknown) && !(f.dim_type.value_type is TypeDef),
    ensures
        final(s)@ == old(s)@ + typedef_axis_text(*f, *l),
{
    let d = &f.dim_type;
    let ghost start = s@;
    push_str(s, "/begin TYPEDEF_AXIS ");
    push_str(s, f.name.as_str());
    push_str(s, " \"");
    push_str(s, d.get_comment());
    push_str(s, "\" NO_INPUT_QUANTITY A_");
    push_str(s, d.value_type.get_record_layout_str());
    push_str(s, " 0 ");
    let ghost mid = s@;
    push_conversion_name(s, &d.value_type, f.name.as_str(), l.has_conversion());
    push_str(s, " ");
    push_dec(s, d.x_dim as u64);
    push_str(s, " ");
    push_str(s, l.min.as_str());
    push_str(s, " ");
    push_str(s, l.max.as_str());
    assert(s@ =~= start + typedef_axis_head_text(*f, *l));
    push_unit(s, d.get_unit());
    push_str(s, " /end TYPEDEF_AXIS\n");
    assert(s@ =~= start + typedef_axis_text(*f, *l));
}

/// Write the typedef object of a field that is no typedef instance, after its conversion
fn write_typedef_field(s: &mut String, f: &McTypeDefField, l: &A2lLimits)
    requires
        !(f.dim_type.value_type is TypeDef),
        leaf_writable(*f),
    ensures
        final(s)@ == old(s)@ + typedef_field_text(*f, *l),
{
    let d = &f.dim_type;
    let ghost start = s@;
    write_conversion(s, &d.value_type, f.name.as_str(), d.get_unit(), l, 0);
    match d.get_object_type() {
        McObjectType::Measurement => write_typedef_measurement(s, f, l),
        McObjectType::Characteristic => write_typedef_characteristic(s, f, l),
        McObjectType::Axis => write_typedef_axis(s, f, l),
        McObjectType::Unspecified => {},
    }
    assert(s@ =~= start + typedef_field_text(*f, *l));
}

/// Write the TYPEDEF_STRUCTURE of a typedef
fn write_structure(s: &mut String, td: &McTypeDef)
    ensures
        final(s)@ == old(s)@ + structure_text(*td),
{
    let ghost start = s@;
    push_str(s, "/begin TYPEDEF_STRUCTURE ");
    push_str(s, td.name.as_str());
    push_str(s, " \"\" ");
    push_dec(s, td.size as u64);
    push_str(s, "\n");
    let ghost head = s@;
    let n = td.fields.len();
    let mut k: usize = 0;
    while k < n
        invariant
            n == td.fields@.len(),
            k <= n,
            s@ == head + components_text(td.fields@, k as int),
        decreases n - k,
    {
        let f = td.fields.get(k);
        let d = &f.dim_type;
        let ghost before = s@;
        push_str(s, "\t/begin STRUCTURE_COMPONENT ");
        push_str(s, f.name.as_str());
        push_str(s, " ");
        match &d.value_type {
            McValueType::TypeDef(tn) => push_str(s, tn.as_str()),
            _ => push_str(s, f.name.as_str()),
        }
        push_str(s, " ");
        push_dec(s, f.offset as u64);
        if d.is_typedef() {
            write_dimensions(d, s);
        }
        push_str(s, " /end STRUCTURE_COMPONENT\n");
        assert(s@ =~= before + component_text(*f));
        k += 1;
    }
    push_str(s, "/end TYPEDEF_STRUCTURE\n");
    assert(s@ =~= start + structure_text(*td));
}

//-------------------------------------------------------------------------------------------------
// A2lWriter

/// Writes the A2L text of a registry: the registry, the floating point values of its instances
/// (one entry per instance, in list order) and of the fields of its typedefs (one entry per
/// typedef, with one per field), the text written so far, and the names of the typedef objects
/// written so far, each written once
pub struct A2lWriter<'a> {
    text: String,
    registry: &'a Registry,
    limits: Vec<A2lLimits>,
    typedef_limits: Vec<Vec<A2lLimits>>,
    typedef_names: Vec<String>,
}

impl<'a> A2lWriter<'a> {
    pub closed spec fn registry(&self) -> Registry {
        *self.registry
    }

    /// The text written so far
    pub closed spec fn output(&self) -> Seq<char> {
        self.text@
    }

    pub closed spec fn limits(&self) -> Seq<A2lLimits> {
        self.limits@
    }

    pub closed spec fn typedef_limits(&self) -> Seq<Seq<A2lLimits>> {
        self.typedef_limits@.map_values(|v: Vec<A2lLimits>| v@)
    }

    /// Names of the typedef objects written so far
    pub closed spec fn written(&self) -> Seq<Seq<char>> {
        self.typedef_names@.map_values(|n: String| n@)
    }

    /// A writer with no text written
    pub fn new(registry: &'a Registry, limits: Vec<A2lLimits>, typedef_limits: Vec<Vec<A2lLimits>>) -> (w:
        A2lWriter<'a>)
        ensures
            w.registry() == *registry,
            w.limits() == limits@,
            w.typedef_limits() == typedef_limits@.map_values(|v: Vec<A2lLimits>| v@),
            w.written() == Seq::<Seq<char>>::empty(),
            w.output() == Seq::<char>::empty(),
    {
        let w = A2lWriter { text: String::new(), registry, limits, typedef_limits, typedef_names: Vec::new() };
        assert(w.written() =~= Seq::<Seq<char>>::empty());
        w
    }

    /// The text written
    pub fn into_text(self) -> (s: String)
        ensures
            s@ == self.output(),
    {
        self.text
    }

    /// Whether a typedef object of this name was written; records it otherwise
    fn check_duplicate(&mut self, ident: &str) -> (r: bool)
        ensures
            r == old(self).written().contains(ident@),
            r ==> final(self).written() == old(self).written(),
            !r ==> final(self).written() == old(self).written().push(ident@),
            final(self).output() == old(self).output(),
            final(self).registry() == old(self).registry(),
            final(self).limits() == old(self).limits(),
            final(self).typedef_limits() == old(self).typedef_limits(),
    {
        let mut i: usize = 0;
        while i < self.typedef_names.len()
            invariant
                i <= self.typedef_names@.len(),
                self.written() == self.typedef_names@.map_values(|n: String| n@),
                forall|j: int| 0 <= j < i ==> self.written()[j] != ident@,
            decreases self.typedef_names@.len() - i,
        {
            if str_eq(self.typedef_names[i].as_str(), ident) {
                assert(self.written()[i as int] == ident@);
                return true;
            }
            i += 1;
        }
        assert(!self.written().contains(ident@));
        self.typedef_names.push(str_to_string(ident));
        assert(self.written() =~= old(self).written().push(ident@));
        false
    }

    /// Write the head of the A2L file
    fn write_a2l_head(&mut self, project_name: &str, module_name: &str)
        ensures
            final(self).output() == old(self).output() + head_text(project_name@, module_name@),
            final(self).registry() == old(self).registry(),
            final(self).limits() == old(self).limits(),
            final(self).typedef_limits() == old(self).typedef_limits(),
            final(self).written() == old(self).written(),
    {
        push_str(&mut self.text, A2L_HEAD_BEGIN);
        push_str(&mut self.text, project_name);
        push_str(&mut self.text, A2L_HEAD_PROJECT);
        push_str(&mut self.text, module_name);
        push_str(&mut self.text, A2L_HEAD_MODULE);
        assert(self.text@ =~= old(self).output() + head_text(project_name@, module_name@));
    }

    /// Write the EPK of the application
    fn write_a2l_epk(&mut self)
        ensures
            final(self).output() == old(self).output() + epk_text(old(self).registry().epk@, old(self).registry().epk_addr),
            final(self).registry() == old(self).registry(),
            final(self).limits() == old(self).limits(),
            final(self).typedef_limits() == old(self).typedef_limits(),
            final(self).written() == old(self).written(),
    {
        let reg = self.registry;
        let epk = reg.epk.as_str();
        let len = epk.len();
        push_str(&mut self.text, "EPK \"");
        push_str(&mut self.text, epk);
        push_str(&mut self.text, "\" ADDR_EPK 0x");
        push_hex_padded(&mut self.text, reg.epk_addr as u64, 8);
        push_str(&mut self.text, "\n/begin MEMORY_SEGMENT epk \"\" DATA FLASH INTERN 0x");
        push_hex_padded(&mut self.text, reg.epk_addr as u64, 8);
        push_str(&mut self.text, " ");
        push_dec(&mut self.text, len as u64);
        push_str(&mut self.text, " -1 -1 -1 -1 -1 /end MEMORY_SEGMENT\n");
        assert(self.text@ =~= old(self).output() + epk_text(reg.epk@, reg.epk_addr));
    }

    /// Write MOD_PAR: the EPK and the memory segments
    fn write_a2l_modpar(&mut self)
        requires
            forall|k: int|
                0 <= k < old(self).registry().cal_seg_list@.len() ==> (#[trigger] old(
                    self,
                ).registry().cal_seg_list@[k]).index < u16::MAX,
        ensures
            final(self).output() == old(self).output() + modpar_text(old(self).registry()),
            final(self).registry() == old(self).registry(),
            final(self).limits() == old(self).limits(),
            final(self).typedef_limits() == old(self).typedef_limits(),
            final(self).written() == old(self).written(),
    {
        let reg = self.registry;
        let ghost start = self.text@;
        push_str(&mut self.text, "/begin MOD_PAR \"\" ");
        self.write_a2l_epk();
        let ghost head = self.text@;
        let n = reg.cal_seg_list.len();
        let mut k: usize = 0;
        while k < n
            invariant
                n == reg.cal_seg_list@.len(),
                k <= n,
                self.registry() == *reg,
                self.limits() == old(self).limits(),
                self.typedef_limits() == old(self).typedef_limits(),
                self.written() == old(self).written(),
                forall|j: int| 0 <= j < n ==> (#[trigger] reg.cal_seg_list@[j]).index < u16::MAX,
                self.text@ == head + calsegs_text(reg.cal_seg_list@, k as int),
            decreases n - k,
        {
            reg.cal_seg_list.get(k).write_a2l(&mut self.text);
            k += 1;
        }
        push_str(&mut self.text, " /end MOD_PAR\n");
        assert(self.text@ =~= start + modpar_text(*reg));
    }

    /// Write the XCP IF_DATA
    fn write_a2l_if_data(&mut self)
        ensures
            final(self).output() == old(self).output() + if_data_text(old(self).registry()),
            final(self).registry() == old(self).registry(),
            final(self).limits() == old(self).limits(),
            final(self).typedef_limits() == old(self).typedef_limits(),
            final(self).written() == old(self).written(),
    {
        let reg = self.registry;
        let ghost start = self.text@;
        push_str(&mut self.text, A2L_PROTOCOL_LAYER);
        push_str(&mut self.text, A2L_DAQ_BEGIN);
        let n = reg.event_list.len();
        push_dec(&mut self.text, n as u64);
        push_str(&mut self.text, A2L_DAQ_TIMESTAMP);
        let ghost head = self.text@;
        let mut k: usize = 0;
        while k < n
            invariant
                n == reg.event_list@.len(),
                k <= n,
                self.registry() == *reg,
                self.limits() == old(self).limits(),
                self.typedef_limits() == old(self).typedef_limits(),
                self.written() == old(self).written(),
                self.text@ == head + events_text(reg.event_list@, k as int),
            decreases n - k,
        {
            reg.event_list.get(k).write_a2l(&mut self.text);
            k += 1;
        }
        let ghost events = self.text@;
        push_str(&mut self.text, "\n\t\t\t/end DAQ\n");
        match &reg.xcp_tl_params {
            Some(tl) => tl.write_a2l(&mut self.text),
            None => {},
        }
        push_str(&mut self.text, "\n/end IF_DATA\n\n");
        assert(self.text@ =~= start + if_data_text(*reg));
    }
    /// Write the measurements
    fn write_a2l_measured(&mut self)
        requires
            a2l_writable(old(self).registry(), old(self).limits()),
        ensures
            final(self).output() == old(self).output() + measured_text(
                old(self).registry(),
                old(self).limits(),
                old(self).registry().instance_list@.len() as int,
            ),
            final(self).registry() == old(self).registry(),
            final(self).limits() == old(self).limits(),
            final(self).typedef_limits() == old(self).typedef_limits(),
            final(self).written() == old(self).written(),
    {
        let reg = self.registry;
        let ghost start = self.text@;
        let n = reg.instance_list.len();
        let mut k: usize = 0;
        while k < n
            invariant
                n == reg.instance_list@.len(),
                k <= n,
                self.registry() == *reg,
                self.limits() == old(self).limits(),
                self.typedef_limits() == old(self).typedef_limits(),
                self.written() == old(self).written(),
                a2l_writable(*reg, self.limits()),
                self.text@ == start + measured_text(*reg, self.limits(), k as int),
            decreases n - k,
        {
            let i = reg.instance_list.get(k);
            assert(instance_writable(reg.instance_list@[k as int], reg.cal_seg_list@));
            if i.is_measurement_object() || i.event_id().is_some() {
                i.write_measurement(reg, &self.limits[k], &mut self.text);
            }
            k += 1;
        }
    }

    /// Write " name" for each measurement object whose event has this name
    fn write_event_refs(&mut self, name: &str)
        ensures
            final(self).output() == old(self).output() + event_refs_text(
                old(self).registry(),
                name@,
                old(self).registry().instance_list@.len() as int,
            ),
            final(self).registry() == old(self).registry(),
            final(self).limits() == old(self).limits(),
            final(self).typedef_limits() == old(self).typedef_limits(),
            final(self).written() == old(self).written(),
    {
        let reg = self.registry;
        let ghost start = self.text@;
        let n = reg.instance_list.len();
        let mut k: usize = 0;
        while k < n
            invariant
                n == reg.instance_list@.len(),
                k <= n,
                self.registry() == *reg,
                self.limits() == old(self).limits(),
                self.typedef_limits() == old(self).typedef_limits(),
                self.written() == old(self).written(),
                self.text@ == start + event_refs_text(*reg, name@, k as int),
            decreases n - k,
        {
            let i = reg.instance_list.get(k);
            let ghost events = reg.event_list@;
            let mut hit = false;
            if i.is_measurement_object() {
                if let Some(id) = i.event_id() {
                    if let Some(e) = reg.event_list.find_event_id(id) {
                        proof {
                            let c = choose|c: int| is_first_with_id(events, c, id) && *e == events[c];
                            let f = choose|f: int| is_first_with_id(events, f, id);
                            lemma_first_with_id_unique(events, c, f, id);
                        }
                        hit = str_eq(e.name.as_str(), name);
                    }
                }
            }
            assert(hit == measured_by_event_named(events, reg.instance_list@[k as int], name@));
            if hit {
                let unique_name = i.get_unique_name(reg);
                push_char(&mut self.text, ' ');
                push_str(&mut self.text, unique_name.as_str());
            }
            k += 1;
            assert(self.text@ =~= start + event_refs_text(*reg, name@, k as int));
        }
    }

    /// Write the measurements, the root group of the events and a group for each event
    fn write_a2l_measurements(&mut self)
        requires
            a2l_writable(old(self).registry(), old(self).limits()),
        ensures
            final(self).output() == old(self).output() + measurements_section_text(
                old(self).registry(),
                old(self).limits(),
            ),
            final(self).registry() == old(self).registry(),
            final(self).limits() == old(self).limits(),
            final(self).typedef_limits() == old(self).typedef_limits(),
            final(self).written() == old(self).written(),
    {
        let reg = self.registry;
        let ghost start = self.text@;
        push_str(&mut self.text, "\n/* Measurements */\n");
        self.write_a2l_measured();
        push_str(&mut self.text, "/begin GROUP Measurements \"\" ROOT /begin SUB_GROUP");
        let ghost names_start = self.text@;
        let n = reg.event_list.len();
        let mut k: usize = 0;
        while k < n
            invariant
                n == reg.event_list@.len(),
                k <= n,
                self.registry() == *reg,
                self.limits() == old(self).limits(),
                self.typedef_limits() == old(self).typedef_limits(),
                self.written() == old(self).written(),
                self.text@ == names_start + event_group_names_text(reg.event_list@, k as int),
            decreases n - k,
        {
            let e = reg.event_list.get(k);
            if e.index <= 1 {
                push_char(&mut self.text, ' ');
                push_str(&mut self.text, e.name.as_str());
            }
            k += 1;
            assert(self.text@ =~= names_start + event_group_names_text(reg.event_list@, k as int));
        }
        push_str(&mut self.text, " /end SUB_GROUP /end GROUP\n");
        let ghost groups_start = self.text@;
        let mut k: usize = 0;
        while k < n
            invariant
                n == reg.event_list@.len(),
                k <= n,
                self.registry() == *reg,
                self.limits() == old(self).limits(),
                self.typedef_limits() == old(self).typedef_limits(),
                self.written() == old(self).written(),
                self.text@ == groups_start + event_groups_text(*reg, k as int),
            decreases n - k,
        {
            let e = reg.event_list.get(k);
            if e.index <= 1 {
                let ghost before = self.text@;
                push_str(&mut self.text, "/begin GROUP ");
                push_str(&mut self.text, e.name.as_str());
                push_str(&mut self.text, " \"\" /begin REF_MEASUREMENT");
                self.write_event_refs(e.name.as_str());
                push_str(&mut self.text, " /end REF_MEASUREMENT /end GROUP\n");
                assert(self.text@ =~= before + event_group_text(*reg, *e));
            }
            k += 1;
            assert(self.text@ =~= groups_start + event_groups_text(*reg, k as int));
        }
        assert(self.text@ =~= start + measurements_section_text(*reg, self.limits()));
    }
    /// Write all axis points, then all characteristics
    fn write_a2l_characteristics(&mut self)
        requires
            a2l_writable(old(self).registry(), old(self).limits()),
        ensures
            final(self).output() == old(self).output() + characteristics_section_text(
                old(self).registry(),
                old(self).limits(),
            ),
            final(self).registry() == old(self).registry(),
            final(self).limits() == old(self).limits(),
            final(self).typedef_limits() == old(self).typedef_limits(),
            final(self).written() == old(self).written(),
    {
        let reg = self.registry;
        let ghost start = self.text@;
        push_str(&mut self.text, "\n/* Axis */\n");
        let ghost axes_start = self.text@;
        let n = reg.instance_list.len();
        let mut k: usize = 0;
        while k < n
            invariant
                n == reg.instance_list@.len(),
                k <= n,
                self.registry() == *reg,
                self.limits() == old(self).limits(),
                self.typedef_limits() == old(self).typedef_limits(),
                self.written() == old(self).written(),
                a2l_writable(*reg, self.limits()),
                self.text@ == axes_start + axes_text(*reg, self.limits(), k as int),
            decreases n - k,
        {
            let a = reg.instance_list.get(k);
            assert(instance_writable(reg.instance_list@[k as int], reg.cal_seg_list@));
            if a.is_axis() {
                a.write_axis(reg, &self.limits[k], &mut self.text);
            }
            k += 1;
        }
        push_str(&mut self.text, "\n/* Characteristics */\n");
        let ghost chars_start = self.text@;
        let mut k: usize = 0;
        while k < n
            invariant
                n == reg.instance_list@.len(),
                k <= n,
                self.registry() == *reg,
                self.limits() == old(self).limits(),
                self.typedef_limits() == old(self).typedef_limits(),
                self.written() == old(self).written(),
                a2l_writable(*reg, self.limits()),
                self.text@ == chars_start + characteristics_text(*reg, self.limits(), k as int),
            decreases n - k,
        {
            let c = reg.instance_list.get(k);
            assert(instance_writable(reg.instance_list@[k as int], reg.cal_seg_list@));
            if !c.is_axis() {
                if !(c.is_measurement_object() || c.event_id().is_some()) {
                    c.write_characteristic(reg, &self.limits[k], &mut self.text);
                }
            }
            k += 1;
        }
        assert(self.text@ =~= start + characteristics_section_text(*reg, self.limits()));
    }

    /// Write the group of the objects of a calibration segment, if it has any
    fn write_segment_group(&mut self, name: &str)
        requires
            forall|k: int|
                0 <= k < old(self).registry().instance_list@.len() ==> (#[trigger] old(
                    self,
                ).registry().instance_list@[k]).address.wf(),
        ensures
            final(self).output() == old(self).output() + segment_group_text(
                old(self).registry().instance_list@,
                name@,
            ),
            final(self).registry() == old(self).registry(),
            final(self).limits() == old(self).limits(),
            final(self).typedef_limits() == old(self).typedef_limits(),
            final(self).written() == old(self).written(),
    {
        let reg = self.registry;
        let ghost insts = reg.instance_list@;
        let mut members = String::new();
        let mut count: usize = 0;
        let n = reg.instance_list.len();
        let mut k: usize = 0;
        while k < n
            invariant
                n == insts.len(),
                insts == reg.instance_list@,
                k <= n,
                count <= k,
                forall|j: int| 0 <= j < n ==> (#[trigger] insts[j]).address.wf(),
                members@ == segment_members_text(insts, name@, k as int),
                count > 0 <==> members@.len() > 0,
            decreases n - k,
        {
            let c = reg.instance_list.get(k);
            assert(c.address.wf());
            let mut hit = false;
            if c.address.is_segment_relative() {
                match c.address.get_calseg_name() {
                    Some(s) => {
                        hit = str_eq(name, s.as_str());
                    },
                    None => {},
                }
            }
            assert(hit == in_segment(insts[k as int], name@));
            if hit {
                count += 1;
                push_char(&mut members, ' ');
                push_str(&mut members, c.name.as_str());
                push_char(&mut members, ' ');
            }
            k += 1;
            assert(members@ =~= segment_members_text(insts, name@, k as int));
        }
        let ghost start = self.text@;
        if count > 0 {
            push_str(&mut self.text, "/begin GROUP ");
            push_str(&mut self.text, name);
            push_str(&mut self.text, " \"\" /begin REF_CHARACTERISTIC ");
            push_str(&mut self.text, members.as_str());
            push_str(&mut self.text, "/end REF_CHARACTERISTIC /end GROUP\n");
        }
        assert(self.text@ =~= start + segment_group_text(insts, name@));
    }

    /// Write the root group of the calibration segments and a group for each segment
    fn write_a2l_groups(&mut self)
        requires
            a2l_writable(old(self).registry(), old(self).limits()),
        ensures
            final(self).output() == old(self).output() + groups_section_text(old(self).registry()),
            final(self).registry() == old(self).registry(),
            final(self).limits() == old(self).limits(),
            final(self).typedef_limits() == old(self).typedef_limits(),
            final(self).written() == old(self).written(),
    {
        let reg = self.registry;
        let ghost start = self.text@;
        let ghost segs = reg.cal_seg_list@;
        push_str(&mut self.text, "\n/* Characteristic and Axis Groups */\n");
        push_str(&mut self.text, "/begin GROUP Characteristics \"\" ROOT /begin SUB_GROUP");
        let ghost names_start = self.text@;
        let n = reg.cal_seg_list.len();
        let mut k: usize = 0;
        while k < n
            invariant
                n == segs.len(),
                segs == reg.cal_seg_list@,
                k <= n,
                self.registry() == *reg,
                self.limits() == old(self).limits(),
                self.typedef_limits() == old(self).typedef_limits(),
                self.written() == old(self).written(),
                self.text@ == names_start + segment_names_text(segs, k as int),
            decreases n - k,
        {
            push_char(&mut self.text, ' ');
            push_str(&mut self.text, reg.cal_seg_list.get(k).name.as_str());
            k += 1;
            assert(self.text@ =~= names_start + segment_names_text(segs, k as int));
        }
        push_str(&mut self.text, " /end SUB_GROUP /end GROUP\n");
        let ghost groups_start = self.text@;
        assert forall|j: int| 0 <= j < reg.instance_list@.len() implies (#[trigger] reg.instance_list@[j]).address.wf() by {
            assert(instance_writable(reg.instance_list@[j], segs));
        }
        let mut k: usize = 0;
        while k < n
            invariant
                n == segs.len(),
                segs == reg.cal_seg_list@,
                k <= n,
                self.registry() == *reg,
                self.limits() == old(self).limits(),
                self.typedef_limits() == old(self).typedef_limits(),
                self.written() == old(self).written(),
                forall|j: int| 0 <= j < reg.instance_list@.len() ==> (#[trigger] reg.instance_list@[j]).address.wf(),
                self.text@ == groups_start + segment_groups_text(reg.instance_list@, segs, k as int),
            decreases n - k,
        {
            self.write_segment_group(reg.cal_seg_list.get(k).name.as_str());
            k += 1;
        }
        assert(self.text@ =~= start + groups_section_text(*reg));
    }
    /// Write typedef t: its fields (typedefs recursively, typedef objects of the others), then
    /// its structure, leaving out names written before
    fn write_typedef(&mut self, t: usize, Ghost(rank): Ghost<Seq<nat>>)
        requires
            typedefs_ranked(old(self).registry().typedef_list@, rank),
            typedefs_writable(old(self).registry().typedef_list@, old(self).typedef_limits()),
            t < old(self).registry().typedef_list@.len(),
        ensures
            final(self).output() == old(self).output() + typedef_text(
                old(self).registry().typedef_list@,
                rank,
                old(self).typedef_limits(),
                t as int,
                old(self).written(),
            ).0,
            final(self).written() == typedef_text(
                old(self).registry().typedef_list@,
                rank,
                old(self).typedef_limits(),
                t as int,
                old(self).written(),
            ).1,
            final(self).registry() == old(self).registry(),
            final(self).limits() == old(self).limits(),
            final(self).typedef_limits() == old(self).typedef_limits(),
        decreases rank[t as int],
    {
        let reg = self.registry;
        let ghost tds = reg.typedef_list@;
        let ghost lims = self.typedef_limits();
        let ghost w0 = self.written();
        let ghost start = self.text@;
        let td = reg.typedef_list.get(t).unwrap();
        let n = td.fields.len();
        let mut k: usize = 0;
        while k < n
            invariant
                tds == reg.typedef_list@,
                self.registry() == *reg,
                self.limits() == old(self).limits(),
                self.typedef_limits() == lims,
                typedefs_ranked(tds, rank),
                typedefs_writable(tds, lims),
                t < tds.len(),
                *td == tds[t as int],
                n == td.fields@.len(),
                k <= n,
                self.text@ == start + typedef_fields_text(tds, rank, lims, t as int, k as int, w0).0,
                self.written() == typedef_fields_text(tds, rank, lims, t as int, k as int, w0).1,
            decreases n - k,
        {
            let f = td.fields.get(k);
            let ghost prev = typedef_fields_text(tds, rank, lims, t as int, k as int, w0);
            assert(leaf_writable(tds[t as int].fields@[k as int]));
            match &f.dim_type.value_type {
                McValueType::TypeDef(tn) => {
                    match reg.typedef_list.find_typedef_index(tn.as_str()) {
                        Some(j) => {
                            proof {
                                lemma_first_typedef_pos(tds, j as int, tn@);
                                assert(rank[j as int] < rank[t as int]);
                            }
                            self.write_typedef(j, Ghost(rank));
                        },
                        None => {
                            proof {
                                assert(!exists|i: int| is_first_typedef(tds, i, tn@));
                            }
                        },
                    }
                },
                _ => {
                    if !self.check_duplicate(f.name.as_str()) {
                        let l = &self.typedef_limits[t][k];
                        assert(*l == lims[t as int][k as int]);
                        write_typedef_field(&mut self.text, f, l);
                    }
                },
            }
            k += 1;
        }
        let ghost fx = typedef_fields_text(tds, rank, lims, t as int, n as int, w0);
        if !self.check_duplicate(td.name.as_str()) {
            write_structure(&mut self.text, td);
        }
    }

    /// Write the typedefs section: all typedefs in list order
    fn write_a2l_typedefs(&mut self)
        requires
            typedefs_writable(old(self).registry().typedef_list@, old(self).typedef_limits()),
        ensures
            final(self).output() == old(self).output() + typedefs_section(
                old(self).registry().typedef_list@,
                old(self).typedef_limits(),
                old(self).written(),
            ).0,
            final(self).written() == typedefs_section(
                old(self).registry().typedef_list@,
                old(self).typedef_limits(),
                old(self).written(),
            ).1,
            final(self).registry() == old(self).registry(),
            final(self).limits() == old(self).limits(),
            final(self).typedef_limits() == old(self).typedef_limits(),
    {
        let reg = self.registry;
        let ghost tds = reg.typedef_list@;
        let ghost lims = self.typedef_limits();
        let ghost rank = typedef_rank(tds);
        let ghost w0 = self.written();
        let ghost start = self.text@;
        push_str(&mut self.text, "\n/* TypeDefs */\n");
        let ghost head = self.text@;
        let n = reg.typedef_list.len();
        let mut t: usize = 0;
        while t < n
            invariant
                tds == reg.typedef_list@,
                self.registry() == *reg,
                self.limits() == old(self).limits(),
                self.typedef_limits() == lims,
                typedefs_ranked(tds, rank),
                typedefs_writable(tds, lims),
                n == tds.len(),
                t <= n,
                self.text@ == head + typedefs_text(tds, rank, lims, t as int, w0).0,
                self.written() == typedefs_text(tds, rank, lims, t as int, w0).1,
            decreases n - t,
        {
            self.write_typedef(t, Ghost(rank));
            t += 1;
        }
        push_str(&mut self.text, "\n");
        assert(self.text@ =~= start + typedefs_section(tds, lims, w0).0);
    }
    /// Write the A2L text of the registry, with project and module name
    pub fn write_a2l(&mut self, project_name: &str, module_name: &str)
        requires
            a2l_writable(old(self).registry(), old(self).limits()),
            typedefs_writable(old(self).registry().typedef_list@, old(self).typedef_limits()),
        ensures
            final(self).output() == old(self).output() + a2l_text(
                old(self).registry(),
                old(self).limits(),
                old(self).typedef_limits(),
                old(self).written(),
                project_name@,
                module_name@,
            ),
            final(self).written() == typedefs_section(
                old(self).registry().typedef_list@,
                old(self).typedef_limits(),
                old(self).written(),
            ).1,
            final(self).registry() == old(self).registry(),
            final(self).limits() == old(self).limits(),
            final(self).typedef_limits() == old(self).typedef_limits(),
    {
        let ghost start = self.text@;
        let ghost reg = *self.registry;
        let ghost lims = self.limits();
        let ghost tlims = self.typedef_limits();
        self.write_a2l_head(project_name, module_name);
        self.write_a2l_modpar();
        if self.registry.has_xcp_params() {
            self.write_a2l_if_data();
        }
        let ghost s1 = self.text@;
        assert(s1 == start + head_text(project_name@, module_name@) + modpar_text(reg) + (if reg.xcp_tl_params
            is Some {
            if_data_text(reg)
        } else {
            Seq::empty()
        }));
        self.write_a2l_typedefs();
        let ghost s2 = self.text@;
        self.write_a2l_measurements();
        self.write_a2l_characteristics();
        self.write_a2l_groups();
        push_str(&mut self.text, "\n/end MODULE\n/end PROJECT\n");
        proof {
            lemma_a2l_text_parts(
                reg,
                lims,
                tlims,
                old(self).written(),
                project_name@,
                module_name@,
                start,
                s1,
                s2,
                self.text@,
            );
        }
    }

    /// Whether the registry and the floating point values can be written, as `write_a2l` needs;
    /// typedefs on a cycle are refused
    pub fn can_write(&self) -> (b: bool)
        ensures
            b == (a2l_writable(self.registry(), self.limits()) && typedefs_writable(
                self.registry().typedef_list@,
                self.typedef_limits(),
            )),
    {
        check_a2l_writable(self.registry, &self.limits) && check_typedefs_writable(
            &self.registry.typedef_list,
            &self.typedef_limits,
        )
    }

}

impl Registry {
    /// The A2L text of the registry, with the application name as project and module name,
    /// given the floating point values of its instances and typedef fields
    pub fn to_a2l(&self, limits: Vec<A2lLimits>, typedef_limits: Vec<Vec<A2lLimits>>) -> (r: String)
        requires
            self.app_name@.len() > 0,
            a2l_writable(*self, limits@),
            typedefs_writable(self.typedef_list@, typedef_limits@.map_values(|v: Vec<A2lLimits>| v@)),
        ensures
            r@ == a2l_text(
                *self,
                limits@,
                typedef_limits@.map_values(|v: Vec<A2lLimits>| v@),
                Seq::empty(),
                self.app_name@,
                self.app_name@,
            ),
    {
        let mut writer = A2lWriter::new(self, limits, typedef_limits);
        let name = self.get_app_name();
        writer.write_a2l(name, name);
        writer.into_text()
    }
}

} // verus!
