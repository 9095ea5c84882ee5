// The A2L file of the registry of basic measurement signals and calibration parameters: head,
// module parameters, XCP IF_DATA, measurements with their event groups, characteristics with
// their segment groups

use vstd::prelude::*;
use vstd::relations::sorted_by;
use vstd::utf8::encode_utf8;

use crate::a2l_file::{str_uppercase, to_uppercase, write_xcp_on_ip, xcp_on_ip_text};
use crate::a2l_writer::{event_names_text, ifdata_event_text, write_ifdata_event};
use crate::reg::{RegistryDataType, RegistryEvent};
use crate::reg_registry::{
    Registry, RegistryCalSeg, RegistryCharacteristic, RegistryEpk, RegistryMeasurement,
    RegistryXcpTransportLayer, characteristic_name_le, characteristic_type_of, is_first_cal_seg,
    measurement_name_le,
};
use crate::strings::{
    dec, hex, push_char, push_dec, push_hex, push_hex_padded, push_str, str_eq, str_to_string, zero_padded,
};
use crate::xcp::{XCP_ADDR_EXT_ABS, XCP_ADDR_EXT_DYN, channel_of};

verus! {

//-------------------------------------------------------------------------------------------------
// Fixed texts

/// Start of the A2L file, up to the project name
pub const REG_A2L_HEAD_BEGIN: &'static str = "\n    ASAP2_VERSION 1 71\n    /begin PROJECT ";

/// Project header, up to the module name
pub const REG_A2L_HEAD_PROJECT: &'static str = " \"\"\n    /begin HEADER \"\" VERSION \"1.0\" /end HEADER\n    /begin MODULE ";

/// Module head: MOD_COMMON, the record layouts and typedefs of the standard types
pub const REG_A2L_HEAD_MODULE: &'static str = " \"\"\n    \n        /include \"XCP_104.aml\" \n        \n        /begin MOD_COMMON \"\"\n            BYTE_ORDER MSB_LAST\n            ALIGNMENT_BYTE 1\n            ALIGNMENT_WORD 1\n            ALIGNMENT_LONG 1\n            ALIGNMENT_FLOAT16_IEEE 1\n            ALIGNMENT_FLOAT32_IEEE 1\n            ALIGNMENT_FLOAT64_IEEE 1\n            ALIGNMENT_INT64 1\n        /end MOD_COMMON\n    \n        /begin RECORD_LAYOUT F64 FNC_VALUES 1 FLOAT64_IEEE ROW_DIR DIRECT /end RECORD_LAYOUT\n        /begin TYPEDEF_MEASUREMENT M_F64 \"\" FLOAT64_IEEE NO_COMPU_METHOD 0 0 -1e12 1e12 /end TYPEDEF_MEASUREMENT\n        /begin TYPEDEF_CHARACTERISTIC C_F64 \"\" VALUE F64 0 NO_COMPU_METHOD -1e12 1e12 /end TYPEDEF_CHARACTERISTIC\n        \n        /begin RECORD_LAYOUT F32 FNC_VALUES 1 FLOAT32_IEEE ROW_DIR DIRECT /end RECORD_LAYOUT\n        /begin TYPEDEF_MEASUREMENT M_F32 \"\" FLOAT32_IEEE NO_COMPU_METHOD 0 0 -1e12 1e12 /end TYPEDEF_MEASUREMENT\n        /begin TYPEDEF_CHARACTERISTIC C_F32 \"\" VALUE F32 0 NO_COMPU_METHOD -1e12 1e12 /end TYPEDEF_CHARACTERISTIC\n        \n        /begin RECORD_LAYOUT S64 FNC_VALUES 1 A_UINT64 ROW_DIR DIRECT /end RECORD_LAYOUT\n        /begin TYPEDEF_MEASUREMENT M_I64 \"\" A_UINT64 NO_COMPU_METHOD 0 0 -1e12 1e12 /end TYPEDEF_MEASUREMENT\n        /begin TYPEDEF_CHARACTERISTIC C_I64 \"\" VALUE S64 0 NO_COMPU_METHOD -1e12 1e12 /end TYPEDEF_CHARACTERISTIC\n        \n        /begin RECORD_LAYOUT S32 FNC_VALUES 1 SLONG ROW_DIR DIRECT /end RECORD_LAYOUT\n        /begin TYPEDEF_MEASUREMENT M_I32 \"\" SLONG NO_COMPU_METHOD 0 0 -2147483648 2147483647 /end TYPEDEF_MEASUREMENT\n        /begin TYPEDEF_CHARACTERISTIC C_I32 \"\" VALUE S32 0 NO_COMPU_METHOD -2147483648 2147483647 /end TYPEDEF_CHARACTERISTIC\n        \n        /begin RECORD_LAYOUT S16 FNC_VALUES 1 SWORD ROW_DIR DIRECT /end RECORD_LAYOUT\n        /begin TYPEDEF_MEASUREMENT M_I16 \"\" SWORD NO_COMPU_METHOD 0 0 -32768 32767 /end TYPEDEF_MEASUREMENT\n        /begin TYPEDEF_CHARACTERISTIC C_I16 \"\" VALUE S16 0 NO_COMPU_METHOD -32768 32767 /end TYPEDEF_CHARACTERISTIC\n        \n        /begin RECORD_LAYOUT S8 FNC_VALUES 1 SBYTE ROW_DIR DIRECT /end RECORD_LAYOUT\n        /begin TYPEDEF_MEASUREMENT M_I8 \"\" SBYTE NO_COMPU_METHOD 0 0 -128 127 /end TYPEDEF_MEASUREMENT\n        /begin TYPEDEF_CHARACTERISTIC C_I8 \"\" VALUE S8 0 NO_COMPU_METHOD -128 127 /end TYPEDEF_CHARACTERISTIC\n        \n        /begin RECORD_LAYOUT U8 FNC_VALUES 1 UBYTE ROW_DIR DIRECT /end RECORD_LAYOUT\n        /begin TYPEDEF_MEASUREMENT M_U8 \"\" UBYTE NO_COMPU_METHOD 0 0 0 255 /end TYPEDEF_MEASUREMENT\n        /begin TYPEDEF_CHARACTERISTIC C_U8 \"\" VALUE U8 0 NO_COMPU_METHOD 0 255 /end TYPEDEF_CHARACTERISTIC\n        \n        /begin RECORD_LAYOUT U16 FNC_VALUES 1 UWORD ROW_DIR DIRECT /end RECORD_LAYOUT\n        /begin TYPEDEF_MEASUREMENT M_U16 \"\" UWORD NO_COMPU_METHOD 0 0 0 65535 /end TYPEDEF_MEASUREMENT\n        /begin TYPEDEF_CHARACTERISTIC C_U16 \"\" VALUE U16 0 NO_COMPU_METHOD 0 65535 /end TYPEDEF_CHARACTERISTIC\n        \n        /begin RECORD_LAYOUT U32 FNC_VALUES 1 ULONG ROW_DIR DIRECT /end RECORD_LAYOUT\n        /begin TYPEDEF_MEASUREMENT M_U32 \"\" ULONG NO_COMPU_METHOD 0 0 0 4294967295 /end TYPEDEF_MEASUREMENT\n        /begin TYPEDEF_CHARACTERISTIC C_U32 \"\" VALUE U32 0 NO_COMPU_METHOD 0 4294967295 /end TYPEDEF_CHARACTERISTIC\n        \n        /begin RECORD_LAYOUT U64 FNC_VALUES 1 A_UINT64 ROW_DIR DIRECT /end RECORD_LAYOUT\n        /begin TYPEDEF_MEASUREMENT M_U64 \"\" A_UINT64 NO_COMPU_METHOD 0 0 0 1e12 /end TYPEDEF_MEASUREMENT\n        /begin TYPEDEF_CHARACTERISTIC C_U64 \"\" VALUE U64 0 NO_COMPU_METHOD 0 1e12 /end TYPEDEF_CHARACTERISTIC\n    ";

/// XCP IF_DATA protocol layer with the optional commands of the XCP server
pub const REG_A2L_PROTOCOL_LAYER: &'static str = "\n        /begin IF_DATA XCP\n            /begin PROTOCOL_LAYER\n            0x104 1000 2000 0 0 0 0 0 252 1468 BYTE_ORDER_MSB_LAST ADDRESS_GRANULARITY_BYTE\n            OPTIONAL_CMD GET_COMM_MODE_INFO\n            OPTIONAL_CMD GET_ID\n            OPTIONAL_CMD SET_MTA\n            OPTIONAL_CMD UPLOAD\n            OPTIONAL_CMD SHORT_UPLOAD\n            OPTIONAL_CMD DOWNLOAD\n            OPTIONAL_CMD SHORT_DOWNLOAD\n            OPTIONAL_CMD GET_CAL_PAGE\n            OPTIONAL_CMD SET_CAL_PAGE\n            OPTIONAL_CMD COPY_CAL_PAGE\n            OPTIONAL_CMD BUILD_CHECKSUM\n            OPTIONAL_CMD GET_DAQ_RESOLUTION_INFO\n            OPTIONAL_CMD GET_DAQ_PROCESSOR_INFO\n            OPTIONAL_CMD FREE_DAQ\n            OPTIONAL_CMD ALLOC_DAQ\n            OPTIONAL_CMD ALLOC_ODT\n            OPTIONAL_CMD ALLOC_ODT_ENTRY\n            OPTIONAL_CMD SET_DAQ_PTR\n            OPTIONAL_CMD WRITE_DAQ\n            OPTIONAL_CMD GET_DAQ_LIST_MODE\n            OPTIONAL_CMD SET_DAQ_LIST_MODE\n            OPTIONAL_CMD START_STOP_SYNCH\n            OPTIONAL_CMD START_STOP_DAQ_LIST\n            OPTIONAL_CMD GET_DAQ_CLOCK\n            OPTIONAL_CMD WRITE_DAQ_MULTIPLE\n            OPTIONAL_CMD TIME_CORRELATION_PROPERTIES\n            OPTIONAL_CMD USER_CMD\n            OPTIONAL_LEVEL1_CMD GET_VERSION\n            /end PROTOCOL_LAYER";

/// DAQ section of the XCP IF_DATA, up to the number of events
pub const REG_A2L_DAQ_BEGIN: &'static str = "\n\n\t\t\t/begin DAQ\n            DYNAMIC 0 ";

/// DAQ section of the XCP IF_DATA after the number of events: the timestamp properties
pub const REG_A2L_DAQ_TIMESTAMP: &'static str = " 0 OPTIMISATION_TYPE_DEFAULT ADDRESS_EXTENSION_FREE IDENTIFICATION_FIELD_TYPE_RELATIVE_BYTE GRANULARITY_ODT_ENTRY_SIZE_DAQ_BYTE 0xF8 OVERLOAD_INDICATION_PID\n            /begin TIMESTAMP_SUPPORTED\n                0x1 SIZE_DWORD UNIT_1US TIMESTAMP_FIXED\n            /end TIMESTAMP_SUPPORTED\n            ";

/// Memory segment of a calibration segment, up to its name
pub const REG_A2L_CALSEG_BEGIN: &'static str = " \n            /begin MEMORY_SEGMENT\n                ";

/// Memory segment of a calibration segment, after its size, up to the XCP segment number
pub const REG_A2L_CALSEG_SEGMENT: &'static str = " -1 -1 -1 -1 -1\n                /begin IF_DATA XCP\n                    /begin SEGMENT ";

/// Memory segment of a calibration segment, after the address extension: checksum and pages
pub const REG_A2L_CALSEG_END: &'static str = " 0 0\n                    /begin CHECKSUM XCP_ADD_44 MAX_BLOCK_SIZE 0xFFFF EXTERNAL_FUNCTION \"\" /end CHECKSUM\n                    /begin PAGE 0x0 ECU_ACCESS_DONT_CARE XCP_READ_ACCESS_DONT_CARE XCP_WRITE_ACCESS_DONT_CARE /end PAGE\n                    /begin PAGE 0x1 ECU_ACCESS_DONT_CARE XCP_READ_ACCESS_DONT_CARE XCP_WRITE_ACCESS_NOT_ALLOWED /end PAGE\n                    /end SEGMENT\n                /end IF_DATA\n            /end MEMORY_SEGMENT";

/// Annotations of a dynamic object, up to its buffer size
pub const REG_A2L_BLOB_ANNOTATION_LABELS: &'static str = "\n/begin ANNOTATION ANNOTATION_LABEL \"IsVlsd\" ANNOTATION_ORIGIN \"\" /begin ANNOTATION_TEXT  \"true\" /end ANNOTATION_TEXT /end ANNOTATION\n/begin ANNOTATION ANNOTATION_LABEL \"MaxBufferNeeded\" ANNOTATION_ORIGIN \"\" /begin ANNOTATION_TEXT \"";

/// Annotations of a dynamic object, after its buffer size
pub const REG_A2L_BLOB_ANNOTATION_END: &'static str = "\" /end ANNOTATION_TEXT /end ANNOTATION\n ";

/// End of the A2L file
pub const REG_A2L_TAIL: &'static str = "\n    /end MODULE \n    /end PROJECT\n    ";

//-------------------------------------------------------------------------------------------------
// Head, module parameters, IF_DATA

/// Head of the A2L file with project and module name
pub open spec fn reg_head_text(project_name: Seq<char>, module_name: Seq<char>) -> Seq<char> {
    REG_A2L_HEAD_BEGIN@ + project_name + REG_A2L_HEAD_PROJECT@ + module_name + REG_A2L_HEAD_MODULE@
}

/// The EPK and its memory segment, where there is an EPK
pub open spec fn reg_epk_text(e: RegistryEpk) -> Seq<char> {
    match e.epk {
        Some(epk) => "\n\t\t\tEPK \""@ + epk@ + "\" ADDR_EPK 0x"@ + zero_padded(hex(e.epk_addr as nat), 8)
            + "\n\n\t\t\t/begin MEMORY_SEGMENT epk \"\" DATA FLASH INTERN 0x"@ + zero_padded(
            hex(e.epk_addr as nat),
            8,
        ) + " "@ + dec((encode_utf8(epk@).len() as usize) as nat) + " -1 -1 -1 -1 -1 /end MEMORY_SEGMENT\n"@,
        None => Seq::empty(),
    }
}

/// The memory segment of a calibration segment, the n-th in the list (counted from 0)
pub open spec fn reg_calseg_text(c: RegistryCalSeg, n: nat) -> Seq<char> {
    REG_A2L_CALSEG_BEGIN@ + c.name@ + " \"\" DATA FLASH INTERN 0x"@ + hex(c.addr as nat) + " "@ + dec(
        c.size as nat,
    ) + REG_A2L_CALSEG_SEGMENT@ + dec(n + 1) + " 2 "@ + dec(c.addr_ext as nat) + REG_A2L_CALSEG_END@
        + "\n"@
}

/// The memory segments of the first k calibration segments
pub open spec fn reg_calsegs_text(segs: Seq<RegistryCalSeg>, k: int) -> Seq<char>
    decreases k,
{
    if k <= 0 {
        Seq::empty()
    } else {
        reg_calsegs_text(segs, k - 1) + reg_calseg_text(segs[k - 1], (k - 1) as nat)
    }
}

/// MOD_PAR: the EPK and the memory segments
pub open spec fn reg_modpar_text(reg: Registry) -> Seq<char> {
    "\n\t\t/begin MOD_PAR \"\""@ + reg_epk_text(reg.mod_par) + reg_calsegs_text(
        reg.cal_seg_list@,
        reg.cal_seg_list@.len() as int,
    ) + "\n\t\t/end MOD_PAR\n"@
}

/// The event map as a sequence
pub open spec fn map_view(event_map: Option<&Vec<u16>>) -> Option<Seq<u16>> {
    match event_map {
        Some(m) => Some(m@),
        None => None,
    }
}

/// The event ids that the event map maps
pub open spec fn in_map(id: u16, event_map: Option<Seq<u16>>) -> bool {
    event_map matches Some(m) ==> id < m.len()
}

/// The A2L EVENT of an event: long and short name with the instance index where there is one,
/// and the channel of the event
pub open spec fn reg_event_text(e: RegistryEvent, event_map: Option<Seq<u16>>) -> Seq<char> {
    event_names_text(e.name@, e.xcp_event@.1) + dec(channel_of(e.xcp_event@.0, event_map) as nat)
        + " DAQ 0xFF 0 0 0 CONSISTENCY DAQ /end EVENT\n"@
}

/// The A2L EVENTs of the first k events
pub open spec fn reg_events_text(events: Seq<RegistryEvent>, event_map: Option<Seq<u16>>, k: int) -> Seq<
    char,
>
    decreases k,
{
    if k <= 0 {
        Seq::empty()
    } else {
        reg_events_text(events, event_map, k - 1) + reg_event_text(events[k - 1], event_map)
    }
}

/// The transport layer, where there are parameters for it
pub open spec fn reg_tl_text(tl: Option<RegistryXcpTransportLayer>) -> Seq<char> {
    match tl {
        Some(t) => xcp_on_ip_text(str_uppercase(t.protocol_name@), t.port, t.addr@),
        None => Seq::empty(),
    }
}

/// The XCP IF_DATA: protocol layer, DAQ with the number of events and the events, transport
/// layer
pub open spec fn reg_if_data_text(reg: Registry, event_map: Option<Seq<u16>>) -> Seq<char> {
    REG_A2L_PROTOCOL_LAYER@ + REG_A2L_DAQ_BEGIN@ + dec(reg.event_list@.len()) + REG_A2L_DAQ_TIMESTAMP@
        + reg_events_text(reg.event_list@, event_map, reg.event_list@.len() as int)
        + "\n\t\t\t/end DAQ\n"@ + reg_tl_text(reg.tl_params) + "\n\t\t/end IF_DATA\n"@
}

impl RegistryXcpTransportLayer {
    /// Write the transport layer of the XCP IF_DATA
    pub fn write_a2l(&self, s: &mut String)
        ensures
            final(s)@ == old(s)@ + xcp_on_ip_text(str_uppercase(self.protocol_name@), self.port, self.addr@),
    {
        let protocol = to_uppercase(self.protocol_name);
        write_xcp_on_ip(s, protocol.as_str(), self.port, self.addr);
    }
}

impl RegistryEpk {
    /// Write the EPK and its memory segment, where there is an EPK
    pub fn write_a2l(&self, s: &mut String)
        ensures
            final(s)@ == old(s)@ + reg_epk_text(*self),
    {
        let ghost start = s@;
        match self.epk {
            Some(epk) => {
                let len = epk.len();
                push_str(s, "\n\t\t\tEPK \"");
                push_str(s, epk);
                push_str(s, "\" ADDR_EPK 0x");
                push_hex_padded(s, self.epk_addr as u64, 8);
                push_str(s, "\n\n\t\t\t/begin MEMORY_SEGMENT epk \"\" DATA FLASH INTERN 0x");
                push_hex_padded(s, self.epk_addr as u64, 8);
                push_str(s, " ");
                push_dec(s, len as u64);
                push_str(s, " -1 -1 -1 -1 -1 /end MEMORY_SEGMENT\n");
            },
            None => {},
        }
        assert(s@ =~= start + reg_epk_text(*self));
    }
}

impl RegistryCalSeg {
    /// Write the memory segment of the n-th calibration segment of the list
    pub fn write_a2l(&self, n: usize, s: &mut String)
        requires
            n < usize::MAX,
        ensures
            final(s)@ == old(s)@ + reg_calseg_text(*self, n as nat),
    {
        let ghost start = s@;
        push_str(s, REG_A2L_CALSEG_BEGIN);
        push_str(s, self.name);
        push_str(s, " \"\" DATA FLASH INTERN 0x");
        push_hex(s, self.addr as u64);
        push_str(s, " ");
        push_dec(s, self.size as u64);
        push_str(s, REG_A2L_CALSEG_SEGMENT);
        push_dec(s, (n + 1) as u64);
        push_str(s, " 2 ");
        push_dec(s, self.addr_ext as u64);
        push_str(s, REG_A2L_CALSEG_END);
        push_str(s, "\n");
        assert(s@ =~= start + reg_calseg_text(*self, n as nat));
    }
}

impl RegistryEvent {
    /// Write the A2L EVENT of the event
    pub fn write_a2l(&self, event_map: Option<&Vec<u16>>, s: &mut String)
        requires
            in_map(self.xcp_event@.0, map_view(event_map)),
        ensures
            final(s)@ == old(s)@ + reg_event_text(*self, map_view(event_map)),
    {
        let ghost start = s@;
        crate::a2l_writer::push_event_names(s, self.name, self.xcp_event.get_index());
        push_dec(s, self.xcp_event.get_channel(event_map) as u64);
        push_str(s, " DAQ 0xFF 0 0 0 CONSISTENCY DAQ /end EVENT\n");
        assert(s@ =~= start + reg_event_text(*self, map_view(event_map)));
    }
}

//-------------------------------------------------------------------------------------------------
// Measurement signals

/// The lower limit of a data type, as the A2L writer writes it
pub open spec fn type_min_text(t: RegistryDataType) -> Seq<char> {
    match t {
        RegistryDataType::Sbyte => "-128"@,
        RegistryDataType::Sword => "-32768"@,
        RegistryDataType::Slong => "-2147483648"@,
        RegistryDataType::AInt64 => "-1000000000000"@,
        RegistryDataType::Float32Ieee => "-1000000000000"@,
        RegistryDataType::Float64Ieee => "-1000000000000"@,
        _ => "0"@,
    }
}

/// The upper limit of a data type, as the A2L writer writes it
pub open spec fn type_max_text(t: RegistryDataType) -> Seq<char> {
    match t {
        RegistryDataType::Ubyte => "255"@,
        RegistryDataType::Uword => "65535"@,
        RegistryDataType::Ulong => "4294967295"@,
        RegistryDataType::AUint64 => "1000000000000"@,
        RegistryDataType::Sbyte => "127"@,
        RegistryDataType::Sword => "32767"@,
        RegistryDataType::Slong => "2147483647"@,
        RegistryDataType::AInt64 => "1000000000000"@,
        RegistryDataType::Float32Ieee => "1000000000000"@,
        RegistryDataType::Float64Ieee => "1000000000000"@,
        _ => "0"@,
    }
}

impl RegistryDataType {
    /// The lower limit of the data type: the smallest integer, or -1e12
    pub fn get_min_text(&self) -> (s: &'static str)
        requires
            *self != RegistryDataType::Unknown,
        ensures
            s@ == type_min_text(*self),
    {
        match self {
            RegistryDataType::Sbyte => "-128",
            RegistryDataType::Sword => "-32768",
            RegistryDataType::Slong => "-2147483648",
            RegistryDataType::AInt64 => "-1000000000000",
            RegistryDataType::Float32Ieee => "-1000000000000",
            RegistryDataType::Float64Ieee => "-1000000000000",
            _ => "0",
        }
    }

    /// The upper limit of the data type: the largest integer, or 1e12
    pub fn get_max_text(&self) -> (s: &'static str)
        requires
            *self != RegistryDataType::Unknown,
        ensures
            s@ == type_max_text(*self),
    {
        match self {
            RegistryDataType::Ubyte => "255",
            RegistryDataType::Uword => "65535",
            RegistryDataType::Ulong => "4294967295",
            RegistryDataType::AUint64 => "1000000000000",
            RegistryDataType::Sbyte => "127",
            RegistryDataType::Sword => "32767",
            RegistryDataType::Slong => "2147483647",
            RegistryDataType::AInt64 => "1000000000000",
            RegistryDataType::Float32Ieee => "1000000000000",
            RegistryDataType::Float64Ieee => "1000000000000",
            _ => "0",
        }
    }
}

/// Address extension and address of a measurement: event relative in the event's memory, or
/// its absolute XCP address
pub open spec fn reg_measurement_addr(m: RegistryMeasurement, event_map: Option<Seq<u16>>) -> (u8, u32) {
    if m.addr == 0 {
        (XCP_ADDR_EXT_DYN, crate::mc_address::dyn_addr(channel_of(m.xcp_event@.0, event_map), m.addr_offset))
    } else {
        (XCP_ADDR_EXT_ABS, m.addr as u32)
    }
}

/// MATRIX_DIM of an array of measurement values
pub open spec fn reg_dims_text(x_dim: u16, y_dim: u16) -> Seq<char> {
    if x_dim > 1 && y_dim > 1 {
        " MATRIX_DIM "@ + dec(x_dim as nat) + " "@ + dec(y_dim as nat)
    } else if x_dim > 1 {
        " MATRIX_DIM "@ + dec(x_dim as nat)
    } else if y_dim > 1 {
        " MATRIX_DIM "@ + dec(y_dim as nat)
    } else {
        Seq::empty()
    }
}

/// A dynamic object: an ASCII CHARACTERISTIC with its IDL annotation
pub open spec fn reg_blob_text(m: RegistryMeasurement, ext: u8, addr: u32, annotation: Seq<char>) -> Seq<
    char,
> {
    "/begin CHARACTERISTIC "@ + m.name@ + " \""@ + m.comment@ + "\" ASCII 0x"@ + hex(addr as nat)
        + " U8 0 NO_COMPU_METHOD 0 255 READ_ONLY NUMBER "@ + dec(m.x_dim as nat) + " ECU_ADDRESS_EXTENSION "@
        + dec(ext as nat) + " "@ + "\n"@ + annotation + REG_A2L_BLOB_ANNOTATION_LABELS@ + dec(m.x_dim as nat)
        + REG_A2L_BLOB_ANNOTATION_END@
}

/// A signal has its own conversion rule where it is scaled or has a unit
pub open spec fn reg_has_conversion(m: RegistryMeasurement) -> bool {
    !m.scaling.identity || m.unit@.len() > 0
}

/// The COMPU_METHOD of a signal with its own conversion rule
pub open spec fn reg_conversion_text(m: RegistryMeasurement) -> Seq<char> {
    if reg_has_conversion(m) {
        "/begin COMPU_METHOD "@ + m.name@ + ".Conv \"\" LINEAR \"%6.3\" \""@ + m.unit@ + "\" COEFFS_LINEAR "@
            + m.scaling.factor@ + " "@ + m.scaling.offset@ + " /end COMPU_METHOD\n"@
    } else {
        Seq::empty()
    }
}

/// The MEASUREMENT of a signal, up to its address extension, after its conversion rule
pub open spec fn reg_measurement_head_text(m: RegistryMeasurement, ext: u8, addr: u32) -> Seq<char> {
    reg_conversion_text(m) + reg_measurement_begin_text(m) + reg_measurement_limits_text(m, ext, addr)
}

/// The MEASUREMENT of a signal, up to its conversion rule
pub open spec fn reg_measurement_begin_text(m: RegistryMeasurement) -> Seq<char> {
    "/begin MEASUREMENT "@ + m.name@ + " \""@ + m.comment@ + "\" "@ + crate::reg::type_str_of(m.datatype) + (
    if reg_has_conversion(m) {
        " "@ + m.name@ + ".Conv 0 0 "@
    } else {
        " NO_COMPU_METHOD 0 0 "@
    })
}

/// The limits, unit, address and address extension of a MEASUREMENT
pub open spec fn reg_measurement_limits_text(m: RegistryMeasurement, ext: u8, addr: u32) -> Seq<char> {
    type_min_text(m.datatype) + " "@ + type_max_text(m.datatype) + " PHYS_UNIT \""@ + m.unit@
        + "\" ECU_ADDRESS 0x"@ + hex(addr as nat) + " ECU_ADDRESS_EXTENSION "@ + dec(ext as nat)
}

/// The A2L text of a measurement signal: a dynamic object as an annotated ASCII CHARACTERISTIC,
/// else a MEASUREMENT with its dimensions; with its event
pub open spec fn reg_measurement_text(m: RegistryMeasurement, event_map: Option<Seq<u16>>) -> Seq<char> {
    let a = reg_measurement_addr(m, event_map);
    let event = ifdata_event_text(channel_of(m.xcp_event@.0, event_map));
    if m.datatype == RegistryDataType::Blob {
        reg_blob_text(m, a.0, a.1, m.annotation->0@) + event + " /end CHARACTERISTIC\n"@
    } else {
        reg_measurement_head_text(m, a.0, a.1) + reg_dims_text(m.x_dim, m.y_dim) + event + " /end MEASUREMENT\n"@
    }
}

/// What writing a measurement signal needs: a known type, a dynamic object with a length and an
/// annotation, an event that the event map maps, a 32 bit absolute address
pub open spec fn reg_measurement_writable(m: RegistryMeasurement, event_map: Option<Seq<u16>>) -> bool {
    &&& m.datatype != RegistryDataType::Unknown
    &&& m.datatype == RegistryDataType::Blob ==> m.x_dim > 0 && m.y_dim == 1 && m.annotation is Some
    &&& in_map(m.xcp_event@.0, event_map)
    &&& m.addr <= u32::MAX
}

fn write_reg_dims(s: &mut String, x_dim: u16, y_dim: u16)
    ensures
        final(s)@ == old(s)@ + reg_dims_text(x_dim, y_dim),
{
    let ghost start = s@;
    if x_dim > 1 && y_dim > 1 {
        push_str(s, " MATRIX_DIM ");
        push_dec(s, x_dim as u64);
        push_str(s, " ");
        push_dec(s, y_dim as u64);
    } else if x_dim > 1 {
        push_str(s, " MATRIX_DIM ");
        push_dec(s, x_dim as u64);
    } else if y_dim > 1 {
        push_str(s, " MATRIX_DIM ");
        push_dec(s, y_dim as u64);
    }
    assert(s@ =~= start + reg_dims_text(x_dim, y_dim));
}

impl RegistryMeasurement {
    /// Address extension and address of the signal
    pub fn get_a2l_addr(&self, event_map: Option<&Vec<u16>>) -> (r: (u8, u32))
        requires
            in_map(self.xcp_event@.0, map_view(event_map)),
            self.addr <= u32::MAX,
        ensures
            r == reg_measurement_addr(*self, map_view(event_map)),
    {
        if self.addr == 0 {
            self.xcp_event.get_dyn_ext_addr(self.addr_offset, event_map)
        } else {
            (XCP_ADDR_EXT_ABS, self.addr as u32)
        }
    }

    fn write_blob(&self, ext: u8, addr: u32, annotation: &str, s: &mut String)
        ensures
            final(s)@ == old(s)@ + reg_blob_text(*self, ext, addr, annotation@),
    {
        let ghost start = s@;
        push_str(s, "/begin CHARACTERISTIC ");
        push_str(s, self.name.as_str());
        push_str(s, " \"");
        push_str(s, self.comment);
        push_str(s, "\" ASCII 0x");
        push_hex(s, addr as u64);
        push_str(s, " U8 0 NO_COMPU_METHOD 0 255 READ_ONLY NUMBER ");
        push_dec(s, self.x_dim as u64);
        push_str(s, " ECU_ADDRESS_EXTENSION ");
        push_dec(s, ext as u64);
        push_str(s, " ");
        let ghost head = s@;
        push_str(s, "\n");
        push_str(s, annotation);
        push_str(s, REG_A2L_BLOB_ANNOTATION_LABELS);
        push_dec(s, self.x_dim as u64);
        push_str(s, REG_A2L_BLOB_ANNOTATION_END);
        assert(s@ =~= start + reg_blob_text(*self, ext, addr, annotation@));
    }

    fn has_conversion(&self) -> (b: bool)
        ensures
            b == reg_has_conversion(*self),
    {
        let unit_chars = crate::strings::str_to_chars(self.unit);
        !self.scaling.identity || unit_chars.len() > 0
    }

    fn write_conversion(&self, s: &mut String)
        ensures
            final(s)@ == old(s)@ + reg_conversion_text(*self),
    {
        let ghost start = s@;
        if self.has_conversion() {
            push_str(s, "/begin COMPU_METHOD ");
            push_str(s, self.name.as_str());
            push_str(s, ".Conv \"\" LINEAR \"%6.3\" \"");
            push_str(s, self.unit);
            push_str(s, "\" COEFFS_LINEAR ");
            push_str(s, self.scaling.factor.as_str());
            push_str(s, " ");
            push_str(s, self.scaling.offset.as_str());
            push_str(s, " /end COMPU_METHOD\n");
        }
        assert(s@ =~= start + reg_conversion_text(*self));
    }

    fn write_begin(&self, s: &mut String)
        requires
            self.datatype != RegistryDataType::Unknown,
        ensures
            final(s)@ == old(s)@ + reg_measurement_begin_text(*self),
    {
        let ghost start = s@;
        push_str(s, "/begin MEASUREMENT ");
        push_str(s, self.name.as_str());
        push_str(s, " \"");
        push_str(s, self.comment);
        push_str(s, "\" ");
        push_str(s, self.datatype.get_type_str());
        let ghost mid = s@;
        if self.has_conversion() {
            push_str(s, " ");
            push_str(s, self.name.as_str());
            push_str(s, ".Conv 0 0 ");
        } else {
            push_str(s, " NO_COMPU_METHOD 0 0 ");
        }
        assert(s@ =~= start + reg_measurement_begin_text(*self));
    }

    fn write_limits(&self, ext: u8, addr: u32, s: &mut String)
        requires
            self.datatype != RegistryDataType::Unknown,
        ensures
            final(s)@ == old(s)@ + reg_measurement_limits_text(*self, ext, addr),
    {
        let ghost start = s@;
        push_str(s, self.datatype.get_min_text());
        push_str(s, " ");
        push_str(s, self.datatype.get_max_text());
        push_str(s, " PHYS_UNIT \"");
        push_str(s, self.unit);
        push_str(s, "\" ECU_ADDRESS 0x");
        push_hex(s, addr as u64);
        push_str(s, " ECU_ADDRESS_EXTENSION ");
        push_dec(s, ext as u64);
        assert(s@ =~= start + reg_measurement_limits_text(*self, ext, addr));
    }

    fn write_head(&self, ext: u8, addr: u32, s: &mut String)
        requires
            self.datatype != RegistryDataType::Unknown,
        ensures
            final(s)@ == old(s)@ + reg_measurement_head_text(*self, ext, addr),
    {
        let ghost start = s@;
        self.write_conversion(s);
        self.write_begin(s);
        self.write_limits(ext, addr, s);
        assert(s@ =~= start + reg_measurement_head_text(*self, ext, addr));
    }

    /// Write the A2L text of the signal
    pub fn write_a2l(&self, event_map: Option<&Vec<u16>>, s: &mut String)
        requires
            reg_measurement_writable(*self, map_view(event_map)),
        ensures
            final(s)@ == old(s)@ + reg_measurement_text(*self, map_view(event_map)),
    {
        let ghost start = s@;
        let (ext, addr) = self.get_a2l_addr(event_map);
        let event = self.xcp_event.get_channel(event_map);
        if self.datatype == RegistryDataType::Blob {
            match &self.annotation {
                Some(annotation) => self.write_blob(ext, addr, annotation.as_str(), s),
                None => {},
            }
            write_ifdata_event(event, s);
            push_str(s, " /end CHARACTERISTIC\n");
        } else {
            self.write_head(ext, addr, s);
            write_reg_dims(s, self.x_dim, self.y_dim);
            write_ifdata_event(event, s);
            push_str(s, " /end MEASUREMENT\n");
        }
        assert(s@ =~= start + reg_measurement_text(*self, map_view(event_map)));
    }
}

//-------------------------------------------------------------------------------------------------
// Calibration parameters

/// The first calibration segment of this name, if there is one
pub open spec fn cal_seg_named(segs: Seq<RegistryCalSeg>, name: Seq<char>) -> Option<RegistryCalSeg> {
    if exists|i: int| is_first_cal_seg(segs, i, name) {
        Some(segs[choose|i: int| is_first_cal_seg(segs, i, name)])
    } else {
        None
    }
}

proof fn lemma_cal_seg_named(segs: Seq<RegistryCalSeg>, i: int, name: Seq<char>)
    requires
        is_first_cal_seg(segs, i, name),
    ensures
        cal_seg_named(segs, name) == Some(segs[i]),
{
    let c = choose|c: int| is_first_cal_seg(segs, c, name);
    if c < i {
        assert(segs[c].name@ != name);
    } else if i < c {
        assert(segs[i].name@ != name);
    }
}

/// Address extension and address of a calibration parameter: at its offset in the first
/// calibration segment of its segment name, or its absolute XCP address
pub open spec fn reg_characteristic_addr(c: RegistryCharacteristic, segs: Seq<RegistryCalSeg>) -> (u8, u32) {
    match c.calseg_name {
        Some(n) => match cal_seg_named(segs, n@) {
            Some(seg) => (seg.addr_ext, (seg.addr + c.addr_offset) as u32),
            None => (0, 0),
        },
        None => (XCP_ADDR_EXT_ABS, c.addr_offset as u32),
    }
}

/// A fixed axis 0..d-1
pub open spec fn reg_fix_axis_text(d: usize) -> Seq<char> {
    " /begin AXIS_DESCR FIX_AXIS NO_INPUT_QUANTITY NO_COMPU_METHOD  "@ + dec(d as nat) + " 0 "@ + dec(
        (d - 1) as nat,
    ) + " FIX_AXIS_PAR_DIST 0 1 "@ + dec(d as nat) + " /end AXIS_DESCR"@
}

/// The fixed axes of a MAP (x and y) or a CURVE (the dimension > 1)
pub open spec fn reg_axis_text(x_dim: usize, y_dim: usize) -> Seq<char> {
    if x_dim > 1 && y_dim > 1 {
        reg_fix_axis_text(x_dim) + reg_fix_axis_text(y_dim)
    } else if x_dim > 1 {
        reg_fix_axis_text(x_dim)
    } else if y_dim > 1 {
        reg_fix_axis_text(y_dim)
    } else {
        Seq::empty()
    }
}

/// The CHARACTERISTIC of a calibration parameter, up to its limits
pub open spec fn reg_characteristic_head_text(c: RegistryCharacteristic, addr: u32) -> Seq<char> {
    "\n/begin CHARACTERISTIC "@ + c.name@ + " \""@ + c.comment@ + "\" "@ + characteristic_type_of(c.x_dim, c.y_dim)
        + " 0x"@ + hex(addr as nat) + " "@ + crate::reg::deposit_str_of(c.datatype) + " 0 NO_COMPU_METHOD "@
        + c.min@ + " "@ + c.max@
}

/// The A2L CHARACTERISTIC of a calibration parameter: with its fixed axes, unit, address
/// extension and event where it has them
pub open spec fn reg_characteristic_text(
    c: RegistryCharacteristic,
    segs: Seq<RegistryCalSeg>,
    event_map: Option<Seq<u16>>,
) -> Seq<char> {
    let a = reg_characteristic_addr(c, segs);
    reg_characteristic_head_text(c, a.1) + reg_axis_text(c.x_dim, c.y_dim) + reg_characteristic_tail_text(
        c,
        a.0,
        event_map,
    )
}

/// The unit, address extension and event of a CHARACTERISTIC, where it has them
pub open spec fn reg_characteristic_tail_text(c: RegistryCharacteristic, ext: u8, event_map: Option<Seq<u16>>) -> Seq<
    char,
> {
    (if c.unit@.len() > 0 {
        " PHYS_UNIT \""@ + c.unit@ + "\""@
    } else {
        Seq::empty()
    }) + (if ext != 0 {
        " ECU_ADDRESS_EXTENSION "@ + dec(ext as nat)
    } else {
        Seq::empty()
    }) + (match c.event {
        Some(e) => ifdata_event_text(channel_of(e@.0, event_map)),
        None => Seq::empty(),
    }) + " /end CHARACTERISTIC"@
}

/// What writing a calibration parameter needs: a known type, a 16 bit offset in a calibration
/// segment that exists or a 32 bit absolute address, an event that the event map maps
pub open spec fn reg_characteristic_writable(
    c: RegistryCharacteristic,
    segs: Seq<RegistryCalSeg>,
    event_map: Option<Seq<u16>>,
) -> bool {
    &&& c.datatype != RegistryDataType::Unknown
    &&& match c.calseg_name {
        Some(n) => c.addr_offset <= 0xFFFF && cal_seg_named(segs, n@) is Some
            && cal_seg_named(segs, n@)->0.addr + c.addr_offset <= u32::MAX,
        None => c.addr_offset <= u32::MAX,
    }
    &&& c.event matches Some(e) ==> in_map(e@.0, event_map)
}

fn write_fix_axis(s: &mut String, d: usize)
    requires
        d > 1,
    ensures
        final(s)@ == old(s)@ + reg_fix_axis_text(d),
{
    let ghost start = s@;
    push_str(s, " /begin AXIS_DESCR FIX_AXIS NO_INPUT_QUANTITY NO_COMPU_METHOD  ");
    push_dec(s, d as u64);
    push_str(s, " 0 ");
    push_dec(s, (d - 1) as u64);
    push_str(s, " FIX_AXIS_PAR_DIST 0 1 ");
    push_dec(s, d as u64);
    push_str(s, " /end AXIS_DESCR");
    assert(s@ =~= start + reg_fix_axis_text(d));
}

fn write_reg_axes(s: &mut String, x_dim: usize, y_dim: usize)
    ensures
        final(s)@ == old(s)@ + reg_axis_text(x_dim, y_dim),
{
    let ghost start = s@;
    if x_dim > 1 || y_dim > 1 {
        if x_dim > 1 && y_dim > 1 {
            write_fix_axis(s, x_dim);
            write_fix_axis(s, y_dim);
        } else if x_dim > 1 {
            write_fix_axis(s, x_dim);
        } else {
            write_fix_axis(s, y_dim);
        }
    }
    assert(s@ =~= start + reg_axis_text(x_dim, y_dim));
}

/// The first calibration segment of this name, if there is one
fn find_cal_seg<'a>(segs: &'a [RegistryCalSeg], name: &str) -> (r: Option<&'a RegistryCalSeg>)
    ensures
        match r {
            Some(seg) => cal_seg_named(segs@, name@) == Some(*seg),
            None => cal_seg_named(segs@, name@) is None,
        },
{
    let mut i: usize = 0;
    while i < segs.len()
        invariant
            i <= segs@.len(),
            forall|j: int| 0 <= j < i ==> (#[trigger] segs@[j]).name@ != name@,
        decreases segs@.len() - i,
    {
        if str_eq(segs[i].name, name) {
            proof {
                lemma_cal_seg_named(segs@, i as int, name@);
            }
            return Some(&segs[i]);
        }
        i += 1;
    }
    assert(!exists|k: int| is_first_cal_seg(segs@, k, name@));
    None
}

impl RegistryCharacteristic {
    /// Address extension and address of the calibration parameter
    pub fn get_a2l_addr(&self, segs: &[RegistryCalSeg]) -> (r: (u8, u32))
        requires
            reg_characteristic_writable(*self, segs@, None),
        ensures
            r == reg_characteristic_addr(*self, segs@),
    {
        match self.calseg_name {
            Some(n) => match find_cal_seg(segs, n) {
                Some(seg) => (seg.addr_ext, seg.addr + self.addr_offset as u32),
                None => (0, 0),
            },
            None => (XCP_ADDR_EXT_ABS, self.addr_offset as u32),
        }
    }

    fn write_head(&self, addr: u32, s: &mut String)
        requires
            self.datatype != RegistryDataType::Unknown,
        ensures
            final(s)@ == old(s)@ + reg_characteristic_head_text(*self, addr),
    {
        let ghost start = s@;
        push_str(s, "\n/begin CHARACTERISTIC ");
        push_str(s, self.name.as_str());
        push_str(s, " \"");
        push_str(s, self.comment);
        push_str(s, "\" ");
        push_str(s, self.get_type_str());
        push_str(s, " 0x");
        push_hex(s, addr as u64);
        push_str(s, " ");
        push_str(s, self.datatype.get_deposit_str());
        push_str(s, " 0 NO_COMPU_METHOD ");
        push_str(s, self.min.as_str());
        push_str(s, " ");
        push_str(s, self.max.as_str());
        assert(s@ =~= start + reg_characteristic_head_text(*self, addr));
    }

    fn write_tail(&self, ext: u8, event_map: Option<&Vec<u16>>, s: &mut String)
        requires
            self.event matches Some(e) ==> in_map(e@.0, map_view(event_map)),
        ensures
            final(s)@ == old(s)@ + reg_characteristic_tail_text(*self, ext, map_view(event_map)),
    {
        let ghost start = s@;
        let unit_chars = crate::strings::str_to_chars(self.unit);
        if unit_chars.len() > 0 {
            push_str(s, " PHYS_UNIT \"");
            push_str(s, self.unit);
            push_str(s, "\"");
        }
        let ghost unit = s@;
        if ext != 0 {
            push_str(s, " ECU_ADDRESS_EXTENSION ");
            push_dec(s, ext as u64);
        }
        let ghost ext_end = s@;
        match self.event {
            Some(event) => write_ifdata_event(event.get_channel(event_map), s),
            None => {},
        }
        push_str(s, " /end CHARACTERISTIC");
        assert(s@ =~= start + reg_characteristic_tail_text(*self, ext, map_view(event_map)));
    }

    /// Write the A2L CHARACTERISTIC of the calibration parameter
    pub fn write_a2l(&self, segs: &[RegistryCalSeg], event_map: Option<&Vec<u16>>, s: &mut String)
        requires
            reg_characteristic_writable(*self, segs@, map_view(event_map)),
        ensures
            final(s)@ == old(s)@ + reg_characteristic_text(*self, segs@, map_view(event_map)),
    {
        let ghost start = s@;
        let (a2l_ext, a2l_addr) = self.get_a2l_addr(segs);
        self.write_head(a2l_addr, s);
        write_reg_axes(s, self.x_dim, self.y_dim);
        self.write_tail(a2l_ext, event_map, s);
        assert(s@ =~= start + reg_characteristic_text(*self, segs@, map_view(event_map)));
    }
}

//-------------------------------------------------------------------------------------------------
// Measurement section

/// Event i is the first registered event with this id
pub open spec fn is_first_reg_event(events: Seq<RegistryEvent>, i: int, id: u16) -> bool {
    &&& 0 <= i < events.len()
    &&& events[i].xcp_event@.0 == id
    &&& forall|j: int| 0 <= j < i ==> (#[trigger] events[j]).xcp_event@.0 != id
}

/// An event with this id is registered
pub open spec fn event_registered(events: Seq<RegistryEvent>, id: u16) -> bool {
    exists|i: int| 0 <= i < events.len() && (#[trigger] events[i]).xcp_event@.0 == id
}

/// The name of the first registered event with this id
pub open spec fn reg_event_name(events: Seq<RegistryEvent>, id: u16) -> Seq<char> {
    events[choose|i: int| is_first_reg_event(events, i, id)].name@
}

proof fn lemma_reg_event_name(events: Seq<RegistryEvent>, i: int, id: u16)
    requires
        is_first_reg_event(events, i, id),
    ensures
        reg_event_name(events, id) == events[i].name@,
{
    let c = choose|c: int| is_first_reg_event(events, c, id);
    if c < i {
        assert(events[c].xcp_event@.0 != id);
    } else if i < c {
        assert(events[i].xcp_event@.0 != id);
    }
}

/// The A2L text of the first k measurement signals
pub open spec fn reg_measurements_text(ms: Seq<RegistryMeasurement>, event_map: Option<Seq<u16>>, k: int) -> Seq<
    char,
>
    decreases k,
{
    if k <= 0 {
        Seq::empty()
    } else {
        reg_measurements_text(ms, event_map, k - 1) + reg_measurement_text(ms[k - 1], event_map)
    }
}

/// The signal is measured by an event of this name
pub open spec fn measured_by(events: Seq<RegistryEvent>, m: RegistryMeasurement, name: Seq<char>) -> bool {
    reg_event_name(events, m.xcp_event@.0) == name
}

/// The number of the first k signals measured by an event of this name
pub open spec fn reg_event_count(ms: Seq<RegistryMeasurement>, events: Seq<RegistryEvent>, name: Seq<char>, k: int) -> nat
    decreases k,
{
    if k <= 0 {
        0
    } else {
        reg_event_count(ms, events, name, k - 1) + if measured_by(events, ms[k - 1], name) {
            1nat
        } else {
            0nat
        }
    }
}

/// " name" of the first k signals measured by an event of this name
pub open spec fn reg_event_refs_text(
    ms: Seq<RegistryMeasurement>,
    events: Seq<RegistryEvent>,
    name: Seq<char>,
    k: int,
) -> Seq<char>
    decreases k,
{
    if k <= 0 {
        Seq::empty()
    } else {
        reg_event_refs_text(ms, events, name, k - 1) + if measured_by(events, ms[k - 1], name) {
            seq![' '] + ms[k - 1].name@
        } else {
            Seq::empty()
        }
    }
}

/// The root GROUP of the signals of an event, where the event is the first instance of its
/// name and measures more than one signal
pub open spec fn reg_event_group_text(reg: Registry, e: RegistryEvent) -> Seq<char> {
    let ms = reg.measurement_list@;
    let events = reg.event_list@;
    if e.xcp_event@.1 > 1 || reg_event_count(ms, events, e.name@, ms.len() as int) <= 1 {
        Seq::empty()
    } else {
        "\n/begin GROUP "@ + e.name@ + " \"\" ROOT /begin REF_MEASUREMENT"@ + reg_event_refs_text(
            ms,
            events,
            e.name@,
            ms.len() as int,
        ) + " /end REF_MEASUREMENT /end GROUP"@
    }
}

/// The groups of the first k events
pub open spec fn reg_event_groups_text(reg: Registry, k: int) -> Seq<char>
    decreases k,
{
    if k <= 0 {
        Seq::empty()
    } else {
        reg_event_groups_text(reg, k - 1) + reg_event_group_text(reg, reg.event_list@[k - 1])
    }
}

/// The measurement signals, then the groups of the signals of each event
pub open spec fn reg_measurements_section(reg: Registry, event_map: Option<Seq<u16>>) -> Seq<char> {
    reg_measurements_text(reg.measurement_list@, event_map, reg.measurement_list@.len() as int)
        + reg_event_groups_text(reg, reg.event_list@.len() as int)
}

//-------------------------------------------------------------------------------------------------
// Characteristic section

/// The calibration parameter is in the calibration segment of this name
pub open spec fn in_cal_seg(c: RegistryCharacteristic, name: Seq<char>) -> bool {
    c.calseg_name matches Some(n) && n@ == name
}

/// The CHARACTERISTICs of the calibration parameters without a segment, among the first k
pub open spec fn reg_abs_characteristics_text(reg: Registry, event_map: Option<Seq<u16>>, k: int) -> Seq<char>
    decreases k,
{
    if k <= 0 {
        Seq::empty()
    } else {
        let c = reg.characteristic_list@[k - 1];
        reg_abs_characteristics_text(reg, event_map, k - 1) + if c.calseg_name is None {
            reg_characteristic_text(c, reg.cal_seg_list@, event_map)
        } else {
            Seq::empty()
        }
    }
}

/// The CHARACTERISTICs of the calibration parameters in the segment of this name, among the
/// first k
pub open spec fn reg_seg_characteristics_text(
    reg: Registry,
    event_map: Option<Seq<u16>>,
    name: Seq<char>,
    k: int,
) -> Seq<char>
    decreases k,
{
    if k <= 0 {
        Seq::empty()
    } else {
        let c = reg.characteristic_list@[k - 1];
        reg_seg_characteristics_text(reg, event_map, name, k - 1) + if in_cal_seg(c, name) {
            reg_characteristic_text(c, reg.cal_seg_list@, event_map)
        } else {
            Seq::empty()
        }
    }
}

/// " name " of the calibration parameters in the segment of this name, among the first k
pub open spec fn reg_seg_refs_text(cs: Seq<RegistryCharacteristic>, name: Seq<char>, k: int) -> Seq<char>
    decreases k,
{
    if k <= 0 {
        Seq::empty()
    } else {
        reg_seg_refs_text(cs, name, k - 1) + if in_cal_seg(cs[k - 1], name) {
            seq![' '] + cs[k - 1].name@ + seq![' ']
        } else {
            Seq::empty()
        }
    }
}

/// The calibration parameters of a calibration segment, then their root GROUP
pub open spec fn reg_seg_text(reg: Registry, event_map: Option<Seq<u16>>, seg: RegistryCalSeg) -> Seq<char> {
    let n = reg.characteristic_list@.len() as int;
    reg_seg_characteristics_text(reg, event_map, seg.name@, n) + "\n/begin GROUP "@ + seg.name@
        + " \"\" ROOT /begin REF_CHARACTERISTIC "@ + reg_seg_refs_text(reg.characteristic_list@, seg.name@, n)
        + "/end REF_CHARACTERISTIC /end GROUP\n"@ + "\n"@
}

/// The calibration parameters and groups of the first k calibration segments
pub open spec fn reg_segs_text(reg: Registry, event_map: Option<Seq<u16>>, k: int) -> Seq<char>
    decreases k,
{
    if k <= 0 {
        Seq::empty()
    } else {
        reg_segs_text(reg, event_map, k - 1) + reg_seg_text(reg, event_map, reg.cal_seg_list@[k - 1])
    }
}

/// The calibration parameters without a segment, then those of each segment with their group
pub open spec fn reg_characteristics_section(reg: Registry, event_map: Option<Seq<u16>>) -> Seq<char> {
    reg_abs_characteristics_text(reg, event_map, reg.characteristic_list@.len() as int) + reg_segs_text(
        reg,
        event_map,
        reg.cal_seg_list@.len() as int,
    )
}

//-------------------------------------------------------------------------------------------------
// The A2L file

/// The A2L text of the registry: head, module parameters, IF_DATA, measurements,
/// characteristics and tail
pub open spec fn reg_a2l_text(
    reg: Registry,
    event_map: Option<Seq<u16>>,
    project_name: Seq<char>,
    module_name: Seq<char>,
) -> Seq<char> {
    reg_head_text(project_name, module_name) + reg_modpar_text(reg) + reg_if_data_text(reg, event_map)
        + reg_measurements_section(reg, event_map) + reg_characteristics_section(reg, event_map)
        + REG_A2L_TAIL@
}

/// What writing the registry needs: events that the event map maps, signals that can be written
/// with registered events, calibration parameters that can be written
pub open spec fn reg_writable(reg: Registry, event_map: Option<Seq<u16>>) -> bool {
    &&& forall|k: int|
        0 <= k < reg.event_list@.len() ==> in_map((#[trigger] reg.event_list@[k]).xcp_event@.0, event_map)
    &&& forall|k: int|
        0 <= k < reg.measurement_list@.len() ==> reg_measurement_ok(
            #[trigger] reg.measurement_list@[k],
            reg.event_list@,
            event_map,
        )
    &&& forall|k: int|
        0 <= k < reg.characteristic_list@.len() ==> reg_characteristic_writable(
            #[trigger] reg.characteristic_list@[k],
            reg.cal_seg_list@,
            event_map,
        )
}

/// A signal can be written and its event is registered
pub open spec fn reg_measurement_ok(
    m: RegistryMeasurement,
    events: Seq<RegistryEvent>,
    event_map: Option<Seq<u16>>,
) -> bool {
    reg_measurement_writable(m, event_map) && event_registered(events, m.xcp_event@.0)
}

//-------------------------------------------------------------------------------------------------
// A2lWriter

/// Writes the A2L text of a registry
pub struct A2lWriter {
    text: String,
}

impl A2lWriter {
    /// The text written so far
    pub closed spec fn output(&self) -> Seq<char> {
        self.text@
    }

    /// A writer with no text written
    pub fn new() -> (w: A2lWriter)
        ensures
            w.output() == Seq::<char>::empty(),
    {
        A2lWriter { text: String::new() }
    }

    /// The text written
    pub fn into_text(self) -> (s: String)
        ensures
            s@ == self.output(),
    {
        self.text
    }

    fn write_a2l_head(&mut self, project_name: &str, module_name: &str)
        ensures
            final(self).output() == old(self).output() + reg_head_text(project_name@, module_name@),
    {
        push_str(&mut self.text, REG_A2L_HEAD_BEGIN);
        push_str(&mut self.text, project_name);
        push_str(&mut self.text, REG_A2L_HEAD_PROJECT);
        push_str(&mut self.text, module_name);
        push_str(&mut self.text, REG_A2L_HEAD_MODULE);
        assert(self.text@ =~= old(self).output() + reg_head_text(project_name@, module_name@));
    }

    fn write_a2l_modpar(&mut self, registry: &Registry)
        ensures
            final(self).output() == old(self).output() + reg_modpar_text(*registry),
    {
        let ghost start = self.text@;
        push_str(&mut self.text, "\n\t\t/begin MOD_PAR \"\"");
        registry.mod_par.write_a2l(&mut self.text);
        let ghost head = self.text@;
        let segs = registry.cal_seg_list.iter();
        let mut k: usize = 0;
        while k < segs.len()
            invariant
                segs@ == registry.cal_seg_list@,
                k <= segs@.len(),
                self.text@ == head + reg_calsegs_text(segs@, k as int),
            decreases segs@.len() - k,
        {
            segs[k].write_a2l(k, &mut self.text);
            k += 1;
        }
        push_str(&mut self.text, "\n\t\t/end MOD_PAR\n");
        assert(self.text@ =~= start + reg_modpar_text(*registry));
    }

    fn write_a2l_if_data(&mut self, registry: &Registry, event_map: Option<&Vec<u16>>)
        requires
            forall|k: int|
                0 <= k < registry.event_list@.len() ==> in_map(
                    (#[trigger] registry.event_list@[k]).xcp_event@.0,
                    map_view(event_map),
                ),
        ensures
            final(self).output() == old(self).output() + reg_if_data_text(*registry, map_view(event_map)),
    {
        let ghost start = self.text@;
        push_str(&mut self.text, REG_A2L_PROTOCOL_LAYER);
        push_str(&mut self.text, REG_A2L_DAQ_BEGIN);
        let events = registry.event_list.iter();
        push_dec(&mut self.text, events.len() as u64);
        push_str(&mut self.text, REG_A2L_DAQ_TIMESTAMP);
        let ghost head = self.text@;
        let mut k: usize = 0;
        while k < events.len()
            invariant
                events@ == registry.event_list@,
                k <= events@.len(),
                forall|j: int| 0 <= j < events@.len() ==> in_map((#[trigger] events@[j]).xcp_event@.0, map_view(event_map)),
                self.text@ == head + reg_events_text(events@, map_view(event_map), k as int),
            decreases events@.len() - k,
        {
            events[k].write_a2l(event_map, &mut self.text);
            k += 1;
        }
        push_str(&mut self.text, "\n\t\t\t/end DAQ\n");
        match &registry.tl_params {
            Some(tl) => tl.write_a2l(&mut self.text),
            None => {},
        }
        push_str(&mut self.text, "\n\t\t/end IF_DATA\n");
        assert(self.text@ =~= start + reg_if_data_text(*registry, map_view(event_map)));
    }

    /// Write the group of the signals of an event, as `reg_event_group_text` says
    fn write_event_group(&mut self, registry: &Registry, e: &RegistryEvent)
        requires
            forall|k: int|
                0 <= k < registry.measurement_list@.len() ==> event_registered(
                    registry.event_list@,
                    (#[trigger] registry.measurement_list@[k]).xcp_event@.0,
                ),
        ensures
            final(self).output() == old(self).output() + reg_event_group_text(*registry, *e),
    {
        let ghost start = self.text@;
        let ghost events = registry.event_list@;
        let ms = registry.measurement_list.iter();
        let mut refs = String::new();
        let mut count: usize = 0;
        let mut k: usize = 0;
        while k < ms.len()
            invariant
                ms@ == registry.measurement_list@,
                events == registry.event_list@,
                k <= ms@.len(),
                forall|j: int| 0 <= j < ms@.len() ==> event_registered(events, (#[trigger] ms@[j]).xcp_event@.0),
                count == reg_event_count(ms@, events, e.name@, k as int),
                count <= k,
                refs@ == reg_event_refs_text(ms@, events, e.name@, k as int),
            decreases ms@.len() - k,
        {
            let m = &ms[k];
            assert(event_registered(events, m.xcp_event@.0));
            let name = registry.event_list.get_name(m.xcp_event);
            proof {
                let i = choose|i: int|
                    0 <= i < events.len() && (#[trigger] events[i]).xcp_event@.0 == m.xcp_event@.0 && name
                        == events[i].name && forall|j: int|
                        0 <= j < i ==> (#[trigger] events[j]).xcp_event@.0 != m.xcp_event@.0;
                lemma_reg_event_name(events, i, m.xcp_event@.0);
            }
            if str_eq(name, e.name) {
                count += 1;
                push_char(&mut refs, ' ');
                push_str(&mut refs, m.name.as_str());
            }
            k += 1;
            assert(refs@ =~= reg_event_refs_text(ms@, events, e.name@, k as int));
        }
        if e.xcp_event.get_index() <= 1 && count > 1 {
            push_str(&mut self.text, "\n/begin GROUP ");
            push_str(&mut self.text, e.name);
            push_str(&mut self.text, " \"\" ROOT /begin REF_MEASUREMENT");
            push_str(&mut self.text, refs.as_str());
            push_str(&mut self.text, " /end REF_MEASUREMENT /end GROUP");
        }
        assert(self.text@ =~= start + reg_event_group_text(*registry, *e));
    }

    fn write_a2l_measurements(&mut self, registry: &Registry, event_map: Option<&Vec<u16>>)
        requires
            reg_writable(*registry, map_view(event_map)),
        ensures
            final(self).output() == old(self).output() + reg_measurements_section(*registry, map_view(event_map)),
    {
        let ghost start = self.text@;
        let ghost map = map_view(event_map);
        let ms = registry.measurement_list.iter();
        let mut k: usize = 0;
        while k < ms.len()
            invariant
                ms@ == registry.measurement_list@,
                k <= ms@.len(),
                reg_writable(*registry, map),
                map == map_view(event_map),
                self.text@ == start + reg_measurements_text(ms@, map, k as int),
            decreases ms@.len() - k,
        {
            assert(reg_measurement_ok(ms@[k as int], registry.event_list@, map));
            ms[k].write_a2l(event_map, &mut self.text);
            k += 1;
        }
        let ghost groups_start = self.text@;
        assert forall|j: int| 0 <= j < registry.measurement_list@.len() implies event_registered(
            registry.event_list@,
            (#[trigger] registry.measurement_list@[j]).xcp_event@.0,
        ) by {
            assert(reg_measurement_ok(registry.measurement_list@[j], registry.event_list@, map));
        }
        let events = registry.event_list.iter();
        let mut k: usize = 0;
        while k < events.len()
            invariant
                events@ == registry.event_list@,
                k <= events@.len(),
                forall|j: int|
                    0 <= j < registry.measurement_list@.len() ==> event_registered(
                        registry.event_list@,
                        (#[trigger] registry.measurement_list@[j]).xcp_event@.0,
                    ),
                self.text@ == groups_start + reg_event_groups_text(*registry, k as int),
            decreases events@.len() - k,
        {
            self.write_event_group(registry, &events[k]);
            k += 1;
        }
        assert(self.text@ =~= start + reg_measurements_section(*registry, map));
    }

    /// Write the calibration parameters of a segment, then their group
    fn write_seg(&mut self, registry: &Registry, event_map: Option<&Vec<u16>>, seg: &RegistryCalSeg)
        requires
            reg_writable(*registry, map_view(event_map)),
        ensures
            final(self).output() == old(self).output() + reg_seg_text(*registry, map_view(event_map), *seg),
    {
        let ghost start = self.text@;
        let ghost map = map_view(event_map);
        let cs = registry.characteristic_list.iter();
        let segs = registry.cal_seg_list.iter();
        let mut k: usize = 0;
        while k < cs.len()
            invariant
                cs@ == registry.characteristic_list@,
                segs@ == registry.cal_seg_list@,
                k <= cs@.len(),
                reg_writable(*registry, map),
                map == map_view(event_map),
                self.text@ == start + reg_seg_characteristics_text(*registry, map, seg.name@, k as int),
            decreases cs@.len() - k,
        {
            let c = &cs[k];
            assert(reg_characteristic_writable(cs@[k as int], segs@, map));
            match c.calseg_name {
                Some(n) => {
                    if str_eq(seg.name, n) {
                        c.write_a2l(segs, event_map, &mut self.text);
                    }
                },
                None => {},
            }
            k += 1;
        }
        push_str(&mut self.text, "\n/begin GROUP ");
        push_str(&mut self.text, seg.name);
        push_str(&mut self.text, " \"\" ROOT /begin REF_CHARACTERISTIC ");
        let ghost refs_start = self.text@;
        let mut k: usize = 0;
        while k < cs.len()
            invariant
                cs@ == registry.characteristic_list@,
                k <= cs@.len(),
                self.text@ == refs_start + reg_seg_refs_text(cs@, seg.name@, k as int),
            decreases cs@.len() - k,
        {
            let c = &cs[k];
            match c.calseg_name {
                Some(n) => {
                    if str_eq(seg.name, n) {
                        push_char(&mut self.text, ' ');
                        push_str(&mut self.text, c.name.as_str());
                        push_char(&mut self.text, ' ');
                    }
                },
                None => {},
            }
            k += 1;
            assert(self.text@ =~= refs_start + reg_seg_refs_text(cs@, seg.name@, k as int));
        }
        push_str(&mut self.text, "/end REF_CHARACTERISTIC /end GROUP\n");
        push_str(&mut self.text, "\n");
        assert(self.text@ =~= start + reg_seg_text(*registry, map, *seg));
    }

    fn write_a2l_characteristics(&mut self, registry: &Registry, event_map: Option<&Vec<u16>>)
        requires
            reg_writable(*registry, map_view(event_map)),
        ensures
            final(self).output() == old(self).output() + reg_characteristics_section(*registry, map_view(event_map)),
    {
        let ghost start = self.text@;
        let ghost map = map_view(event_map);
        let cs = registry.characteristic_list.iter();
        let segs = registry.cal_seg_list.iter();
        let mut k: usize = 0;
        while k < cs.len()
            invariant
                cs@ == registry.characteristic_list@,
                segs@ == registry.cal_seg_list@,
                k <= cs@.len(),
                reg_writable(*registry, map),
                map == map_view(event_map),
                self.text@ == start + reg_abs_characteristics_text(*registry, map, k as int),
            decreases cs@.len() - k,
        {
            let c = &cs[k];
            assert(reg_characteristic_writable(cs@[k as int], segs@, map));
            if c.calseg_name.is_none() {
                c.write_a2l(segs, event_map, &mut self.text);
            }
            k += 1;
        }
        let ghost segs_start = self.text@;
        let mut k: usize = 0;
        while k < segs.len()
            invariant
                segs@ == registry.cal_seg_list@,
                k <= segs@.len(),
                reg_writable(*registry, map),
                map == map_view(event_map),
                self.text@ == segs_start + reg_segs_text(*registry, map, k as int),
            decreases segs@.len() - k,
        {
            self.write_seg(registry, event_map, &segs[k]);
            k += 1;
        }
        assert(self.text@ =~= start + reg_characteristics_section(*registry, map));
    }

    /// Write the A2L text of the registry, with project and module name
    pub fn write_a2l(&mut self, project_name: &str, module_name: &str, registry: &Registry, event_map: Option<&Vec<u16>>)
        requires
            reg_writable(*registry, map_view(event_map)),
        ensures
            final(self).output() == old(self).output() + reg_a2l_text(
                *registry,
                map_view(event_map),
                project_name@,
                module_name@,
            ),
    {
        let ghost start = self.text@;
        self.write_a2l_head(project_name, module_name);
        self.write_a2l_modpar(registry);
        self.write_a2l_if_data(registry, event_map);
        self.write_a2l_measurements(registry, event_map);
        self.write_a2l_characteristics(registry, event_map);
        push_str(&mut self.text, REG_A2L_TAIL);
        assert(self.text@ =~= start + reg_a2l_text(*registry, map_view(event_map), project_name@, module_name@));
    }
}

/// Every element of a rearranged sequence has a property that every element of the sequence has
proof fn lemma_permuted_all<T>(s: Seq<T>, t: Seq<T>, p: spec_fn(T) -> bool)
    requires
        s.to_multiset() == t.to_multiset(),
        forall|i: int| 0 <= i < s.len() ==> #[trigger] p(s[i]),
    ensures
        forall|i: int| 0 <= i < t.len() ==> #[trigger] p(t[i]),
{
    broadcast use vstd::seq_lib::group_to_multiset_ensures;

    assert forall|i: int| 0 <= i < t.len() implies #[trigger] p(t[i]) by {
        let x = t[i];
        assert(t.contains(x));
        assert(t.to_multiset().count(x) > 0);
        assert(s.to_multiset().count(x) > 0);
        assert(s.contains(x));
        let j = choose|j: int| 0 <= j < s.len() && s[j] == x;
        assert(p(s[j]));
    }
}

impl Registry {
    /// Generate the A2L text of the registry, named after it, with the events mapped to their
    /// channels by the event map; the measurement signals and calibration parameters are sorted
    /// by name first, events and segments keep their order
    /// Err("Registry is closed") and no change when the registry is frozen
    pub fn write_a2l(&mut self, event_map: Option<&Vec<u16>>) -> (r: Result<String, String>)
        requires
            !old(self).freeze ==> old(self).name is Some && reg_writable(*old(self), map_view(event_map)),
        ensures
            old(self).freeze ==> (r matches Err(e) && e@ == "Registry is closed"@) && *final(self) == *old(self),
            !old(self).freeze ==> (r matches Ok(t) && t@ == reg_a2l_text(
                *final(self),
                map_view(event_map),
                old(self).name->0@,
                old(self).name->0@,
            )),
            !old(self).freeze ==> final(self).measurement_list@.to_multiset() == old(
                self,
            ).measurement_list@.to_multiset() && sorted_by(
                final(self).measurement_list@,
                |a: RegistryMeasurement, b: RegistryMeasurement| measurement_name_le(a, b),
            ),
            !old(self).freeze ==> final(self).characteristic_list@.to_multiset() == old(
                self,
            ).characteristic_list@.to_multiset() && sorted_by(
                final(self).characteristic_list@,
                |a: RegistryCharacteristic, b: RegistryCharacteristic| characteristic_name_le(a, b),
            ),
            final(self).freeze == old(self).freeze,
            final(self).name == old(self).name,
            final(self).tl_params == old(self).tl_params,
            final(self).mod_par == old(self).mod_par,
            final(self).cal_seg_list@ == old(self).cal_seg_list@,
            final(self).event_list@ == old(self).event_list@,
    {
        if self.is_frozen() {
            return Err(str_to_string("Registry is closed"));
        }
        let ghost map = map_view(event_map);
        let ghost events = self.event_list@;
        let ghost segs = self.cal_seg_list@;
        self.measurement_list.sort();
        self.characteristic_list.sort();
        proof {
            let pm = |m: RegistryMeasurement| reg_measurement_ok(m, events, map);
            let ms0 = old(self).measurement_list@;
            assert forall|i: int| 0 <= i < ms0.len() implies #[trigger] pm(ms0[i]) by {
                assert(reg_measurement_ok(ms0[i], events, map));
            }
            lemma_permuted_all(ms0, self.measurement_list@, pm);
            let ms = self.measurement_list@;
            assert forall|i: int| 0 <= i < ms.len() implies reg_measurement_ok(#[trigger] ms[i], events, map) by {
                assert(pm(ms[i]));
            }
            let pc = |c: RegistryCharacteristic| reg_characteristic_writable(c, segs, map);
            let cs0 = old(self).characteristic_list@;
            assert forall|i: int| 0 <= i < cs0.len() implies #[trigger] pc(cs0[i]) by {
                assert(reg_characteristic_writable(cs0[i], segs, map));
            }
            lemma_permuted_all(cs0, self.characteristic_list@, pc);
            let cs = self.characteristic_list@;
            assert forall|i: int| 0 <= i < cs.len() implies reg_characteristic_writable(#[trigger] cs[i], segs, map) by {
                assert(pc(cs[i]));
            }
            assert(reg_writable(*self, map));
        }
        let a2l_name = self.name.unwrap();
        let mut writer = A2lWriter::new();
        writer.write_a2l(a2l_name, a2l_name, self, event_map);
        Ok(writer.into_text())
    }
}

//-------------------------------------------------------------------------------------------------
// Checks

fn check_in_map(id: u16, event_map: Option<&Vec<u16>>) -> (b: bool)
    ensures
        b == in_map(id, map_view(event_map)),
{
    match event_map {
        Some(m) => (id as usize) < m.len(),
        None => true,
    }
}

fn check_event_registered(events: &[RegistryEvent], id: u16) -> (b: bool)
    ensures
        b == event_registered(events@, id),
{
    let mut i: usize = 0;
    while i < events.len()
        invariant
            i <= events@.len(),
            forall|j: int| 0 <= j < i ==> (#[trigger] events@[j]).xcp_event@.0 != id,
        decreases events@.len() - i,
    {
        if events[i].xcp_event.get_id() == id {
            return true;
        }
        i += 1;
    }
    false
}

fn check_measurement(m: &RegistryMeasurement, events: &[RegistryEvent], event_map: Option<&Vec<u16>>) -> (b: bool)
    ensures
        b == reg_measurement_ok(*m, events@, map_view(event_map)),
{
    let known = m.datatype != RegistryDataType::Unknown;
    let blob_ok = m.datatype != RegistryDataType::Blob || (m.x_dim > 0 && m.y_dim == 1 && m.annotation.is_some());
    known && blob_ok && check_in_map(m.xcp_event.get_id(), event_map) && m.addr <= u32::MAX as u64
        && check_event_registered(events, m.xcp_event.get_id())
}

fn check_characteristic(c: &RegistryCharacteristic, segs: &[RegistryCalSeg], event_map: Option<&Vec<u16>>) -> (b:
    bool)
    ensures
        b == reg_characteristic_writable(*c, segs@, map_view(event_map)),
{
    let known = c.datatype != RegistryDataType::Unknown;
    let addr_ok = match c.calseg_name {
        Some(n) => c.addr_offset <= 0xFFFF && match find_cal_seg(segs, n) {
            Some(seg) => seg.addr as u64 + c.addr_offset <= u32::MAX as u64,
            None => false,
        },
        None => c.addr_offset <= u32::MAX as u64,
    };
    let event_ok = match c.event {
        Some(e) => check_in_map(e.get_id(), event_map),
        None => true,
    };
    known && addr_ok && event_ok
}

/// Whether the registry can be written with this event map, as `reg_writable` says
pub fn check_reg_writable(registry: &Registry, event_map: Option<&Vec<u16>>) -> (b: bool)
    ensures
        b == reg_writable(*registry, map_view(event_map)),
{
    let ghost map = map_view(event_map);
    let events = registry.event_list.iter();
    let mut k: usize = 0;
    while k < events.len()
        invariant
            events@ == registry.event_list@,
            k <= events@.len(),
            forall|j: int| 0 <= j < k ==> in_map((#[trigger] events@[j]).xcp_event@.0, map),
            map == map_view(event_map),
        decreases events@.len() - k,
    {
        if !check_in_map(events[k].xcp_event.get_id(), event_map) {
            return false;
        }
        k += 1;
    }
    let ms = registry.measurement_list.iter();
    let mut k: usize = 0;
    while k < ms.len()
        invariant
            ms@ == registry.measurement_list@,
            events@ == registry.event_list@,
            k <= ms@.len(),
            forall|j: int| 0 <= j < k ==> reg_measurement_ok(#[trigger] ms@[j], events@, map),
            map == map_view(event_map),
        decreases ms@.len() - k,
    {
        if !check_measurement(&ms[k], events, event_map) {
            return false;
        }
        k += 1;
    }
    let cs = registry.characteristic_list.iter();
    let segs = registry.cal_seg_list.iter();
    let mut k: usize = 0;
    while k < cs.len()
        invariant
            cs@ == registry.characteristic_list@,
            segs@ == registry.cal_seg_list@,
            k <= cs@.len(),
            forall|j: int| 0 <= j < k ==> reg_characteristic_writable(#[trigger] cs@[j], segs@, map),
            map == map_view(event_map),
        decreases cs@.len() - k,
    {
        if !check_characteristic(&cs[k], segs, event_map) {
            return false;
        }
        k += 1;
    }
    true
}

} // verus!
