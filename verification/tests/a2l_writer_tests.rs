use xcp_lite::a2l_writer::{write_axis_descr, write_dimensions, write_ifdata_event};
use xcp_lite::mc_calseg::McCalibrationSegment;
use xcp_lite::mc_event::McEvent;
use xcp_lite::mc_support::{McObjectType, McSupportData};
use xcp_lite::mc_text::McIdentifier;
use xcp_lite::mc_type::{McDimType, McValueType};

fn dim(x: u16, y: u16, m: McSupportData) -> McDimType {
    McDimType::new(McValueType::Ubyte, x, y, m)
}

#[test]
fn a2l_dimensions() {
    let m = McSupportData::new(McObjectType::Characteristic);
    let mut s = String::new();
    write_dimensions(&dim(4, 2, m), &mut s);
    assert_eq!(s, " MATRIX_DIM 4 2");
    let mut s = String::new();
    write_dimensions(&dim(8, 1, m), &mut s);
    assert_eq!(s, " MATRIX_DIM 8");
    let mut s = String::from("x");
    write_dimensions(&dim(1, 5, m), &mut s);
    assert_eq!(s, "x");
}

#[test]
fn a2l_axis_descr() {
    let m = McSupportData::new(McObjectType::Characteristic);
    let mut s = String::new();
    write_axis_descr("c", &dim(3, 2, m), &mut s);
    assert_eq!(
        s,
        " /begin AXIS_DESCR FIX_AXIS NO_INPUT_QUANTITY NO_COMPU_METHOD 3 0 2 FIX_AXIS_PAR_DIST 0 1 3 /end AXIS_DESCR /begin AXIS_DESCR FIX_AXIS NO_INPUT_QUANTITY NO_COMPU_METHOD 2 0 1 FIX_AXIS_PAR_DIST 0 1 2 /end AXIS_DESCR"
    );

    let with_ref = m.set_x_axis_ref(Some(McIdentifier::new("axis_1")));
    let mut s = String::new();
    write_axis_descr("c", &dim(8, 0, with_ref), &mut s);
    assert_eq!(s, " /begin AXIS_DESCR COM_AXIS NO_INPUT_QUANTITY NO_COMPU_METHOD 8 0.0 0.0 AXIS_PTS_REF axis_1 /end AXIS_DESCR");

    let with_conv = with_ref.set_x_axis_conv(Some(McIdentifier::new("h.step_us")));
    let mut s = String::new();
    write_axis_descr("c", &dim(10, 1, with_conv), &mut s);
    assert_eq!(s, " /begin AXIS_DESCR FIX_AXIS NO_INPUT_QUANTITY h.step_us 10 0 9 FIX_AXIS_PAR_DIST 0 1 10 /end AXIS_DESCR");

    let mut s = String::new();
    write_axis_descr("c", &dim(1, 1, m), &mut s);
    assert_eq!(s, "");
}

#[test]
fn a2l_ifdata_event() {
    let mut s = String::new();
    write_ifdata_event(7, &mut s);
    assert_eq!(s, " /begin IF_DATA XCP /begin DAQ_EVENT FIXED_EVENT_LIST EVENT 7 /end DAQ_EVENT /end IF_DATA");
}

#[test]
fn a2l_event() {
    let mut s = String::new();
    McEvent::new(McIdentifier::new("event1"), 0, 3, 1_000_000).write_a2l(&mut s);
    assert_eq!(s, "/begin EVENT \"event1\" \"event1\" 3 DAQ 0xFF 100 4 0 CONSISTENCY DAQ /end EVENT\n");

    let mut s = String::new();
    McEvent::new(McIdentifier::new("task_with_long_name"), 2, 5, 255).write_a2l(&mut s);
    assert_eq!(s, "/begin EVENT \"task_with_long_name_2\" \"task_w_2\" 5 DAQ 0xFF 255 0 0 CONSISTENCY DAQ /end EVENT\n");

    let mut s = String::new();
    McEvent::new(McIdentifier::new("slow"), 0, 0, u32::MAX).write_a2l(&mut s);
    assert_eq!(s, "/begin EVENT \"slow\" \"slow\" 0 DAQ 0xFF 42 8 0 CONSISTENCY DAQ /end EVENT\n");
}

#[test]
fn a2l_memory_segment() {
    let mut s = String::new();
    McCalibrationSegment::new(McIdentifier::new("calseg_1"), 0, 0, 0x8001ABCD, 4).write_a2l(&mut s);
    assert_eq!(
        s,
        "/begin MEMORY_SEGMENT calseg_1 \"\" DATA FLASH INTERN 0x8001ABCD 4 -1 -1 -1 -1 -1\n\
/begin IF_DATA XCP\n    /begin SEGMENT 1 2 0 0 0\n    /begin CHECKSUM XCP_ADD_44 MAX_BLOCK_SIZE 0xFFFF EXTERNAL_FUNCTION \"\" /end CHECKSUM\n    \
/begin PAGE 0x0 ECU_ACCESS_DONT_CARE XCP_READ_ACCESS_DONT_CARE XCP_WRITE_ACCESS_DONT_CARE /end PAGE\n    \
/begin PAGE 0x1 ECU_ACCESS_DONT_CARE XCP_READ_ACCESS_DONT_CARE XCP_WRITE_ACCESS_NOT_ALLOWED /end PAGE\n    /end SEGMENT\n/end IF_DATA\n/end MEMORY_SEGMENT\n"
    );
}


use xcp_lite::a2l_writer::{A2lConversion, A2lLimits};
use xcp_lite::mc_address::McAddress;
use xcp_lite::mc_instance::McInstance;
use xcp_lite::mc_text::McText;
use xcp_lite::registry::Registry;

fn limits(min: &str, max: &str, step: Option<&str>, conversion: Option<(&str, &str, u8)>) -> A2lLimits {
    A2lLimits {
        min: min.to_string(),
        max: max.to_string(),
        step: step.map(|s| s.to_string()),
        conversion: conversion.map(|(factor, offset, factor_decimals)| A2lConversion {
            factor: factor.to_string(),
            offset: offset.to_string(),
            factor_decimals,
        }),
    }
}

fn registry_with_segment() -> Registry {
    let mut reg = Registry::new();
    reg.cal_seg_list.add_a2l_cal_seg(McIdentifier::new("seg"), 0, 0, 0x80000000, 0x100).unwrap();
    reg
}

#[test]
fn a2l_measurement_texts() {
    let reg = registry_with_segment();
    let m = McSupportData::new(McObjectType::Measurement);
    let speed = McInstance::new(McIdentifier::new("speed"), McDimType::new(McValueType::Ubyte, 1, 1, m), McAddress::new_event_dyn(0, 1, 4));
    let mut s = String::new();
    speed.write_measurement(&reg, &limits("0", "255", None, None), &mut s);
    assert_eq!(
        s,
        "/begin MEASUREMENT speed \"\" UBYTE IDENTITY 0 0 0 255 ECU_ADDRESS 0x10004 ECU_ADDRESS_EXTENSION 2 READ_WRITE /begin IF_DATA XCP /begin DAQ_EVENT FIXED_EVENT_LIST EVENT 1 /end DAQ_EVENT /end IF_DATA /end MEASUREMENT\n"
    );

    let volts = McInstance::new(
        McIdentifier::new("volts"),
        McDimType::new(McValueType::Float32Ieee, 4, 1, m.set_unit(McText::new("V")).set_comment(McText::new("Voltage"))),
        McAddress::new_event_dyn(0, 2, 8),
    );
    let mut s = String::new();
    volts.write_measurement(&reg, &limits("-10", "10", Some("0.5"), Some(("2", "1", 0))), &mut s);
    assert_eq!(
        s,
        "/begin COMPU_METHOD volts \"\" LINEAR \"%.6\" \"V\" COEFFS_LINEAR 2 1 /end COMPU_METHOD\n/begin MEASUREMENT volts \"Voltage\" FLOAT32_IEEE volts 0 0 -10 10 ECU_ADDRESS 0x20008 ECU_ADDRESS_EXTENSION 2 READ_WRITE PHYS_UNIT \"V\" STEP_SIZE 0.5 MATRIX_DIM 4 /begin IF_DATA XCP /begin DAQ_EVENT FIXED_EVENT_LIST EVENT 2 /end DAQ_EVENT /end IF_DATA /end MEASUREMENT\n"
    );

    let inst = McInstance::new(
        McIdentifier::new("inst"),
        McDimType::new(McValueType::new_typedef(McIdentifier::new("T")), 1, 1, m),
        McAddress::new_event_dyn(0, 3, 0),
    );
    let mut s = String::new();
    inst.write_measurement(&reg, &limits("0", "0", None, None), &mut s);
    assert_eq!(
        s,
        "/begin INSTANCE inst \"\" T 0x30000 ECU_ADDRESS_EXTENSION 2 /begin IF_DATA XCP /begin DAQ_EVENT FIXED_EVENT_LIST EVENT 3 /end DAQ_EVENT /end IF_DATA /end INSTANCE\n"
    );

    let hist = McInstance::new(
        McIdentifier::new("hist"),
        McDimType::new(McValueType::Ulong, 3, 1, m.set_x_axis_conv(Some(McIdentifier::new("hist.step_us")))),
        McAddress::new_event_dyn(0, 1, 0),
    );
    let mut s = String::new();
    hist.write_measurement(&reg, &limits("0", "4294967295", None, None), &mut s);
    assert_eq!(
        s,
        "/begin CHARACTERISTIC hist \"\" CURVE 0x10000 U32 0 IDENTITY 0 4294967295 READ_ONLY /begin AXIS_DESCR FIX_AXIS NO_INPUT_QUANTITY hist.step_us 3 0 2 FIX_AXIS_PAR_DIST 0 1 3 /end AXIS_DESCR ECU_ADDRESS_EXTENSION 2 /begin IF_DATA XCP /begin DAQ_EVENT FIXED_EVENT_LIST EVENT 1 /end DAQ_EVENT /end IF_DATA /end CHARACTERISTIC\n"
    );

    let blob = McInstance::new(
        McIdentifier::new("points"),
        McDimType::new(McValueType::Blob(McText::new("ANNOTATION")), 16, 1, m),
        McAddress::new_a2l(0x100, 5),
    );
    let mut s = String::new();
    blob.write_measurement(&reg, &limits("0", "0", None, None), &mut s);
    assert_eq!(
        s,
        "/begin BLOB points \"\" 0x100 16 ECU_ADDRESS_EXTENSION 5 \nANNOTATION\n/begin ANNOTATION ANNOTATION_LABEL \"IsVlsd\" ANNOTATION_ORIGIN \"\" /begin ANNOTATION_TEXT  \"true\" /end ANNOTATION_TEXT /end ANNOTATION\n/begin ANNOTATION ANNOTATION_LABEL \"MaxBufferNeeded\" ANNOTATION_ORIGIN \"\" /begin ANNOTATION_TEXT \"16\" /end ANNOTATION_TEXT /end ANNOTATION\n  /end BLOB\n"
    );
}

#[test]
fn a2l_characteristic_and_axis_texts() {
    let reg = registry_with_segment();
    let c = McSupportData::new(McObjectType::Characteristic);
    let gain = McInstance::new(
        McIdentifier::new("gain"),
        McDimType::new(McValueType::Sword, 1, 1, c.set_unit(McText::new("V"))),
        McAddress::new_calseg_rel(McIdentifier::new("seg"), 2),
    );
    let mut s = String::new();
    gain.write_characteristic(&reg, &limits("-10", "10", None, None), &mut s);
    assert_eq!(s, "/begin CHARACTERISTIC gain \"\" VALUE 0x80000002 I16 0 IDENTITY -10 10 PHYS_UNIT \"V\" /end CHARACTERISTIC\n");

    let flag = McInstance::new(
        McIdentifier::new("flag"),
        McDimType::new(McValueType::Bool, 1, 1, c),
        McAddress::new_calseg_rel(McIdentifier::new("seg"), 0),
    );
    let mut s = String::new();
    flag.write_characteristic(&reg, &limits("0", "1", None, None), &mut s);
    assert_eq!(s, "/begin CHARACTERISTIC flag \"\" VALUE 0x80000000 BOOL 0 BOOL 0 1 /end CHARACTERISTIC\n");

    let block = McInstance::new(
        McIdentifier::new("block"),
        McDimType::new(McValueType::Ubyte, 4, 2, c),
        McAddress::new_calseg_rel(McIdentifier::new("seg"), 4),
    );
    let mut s = String::new();
    block.write_characteristic(&reg, &limits("0", "255", Some("1"), None), &mut s);
    assert_eq!(s, "/begin CHARACTERISTIC block \"\" VAL_BLK 0x80000004 U8 0 IDENTITY 0 255 MATRIX_DIM 4 2 STEP_SIZE 1 /end CHARACTERISTIC\n");

    let inst = McInstance::new(
        McIdentifier::new("params"),
        McDimType::new(McValueType::new_typedef(McIdentifier::new("P")), 1, 1, c),
        McAddress::new_calseg_rel(McIdentifier::new("seg"), 32),
    );
    let mut s = String::new();
    inst.write_characteristic(&reg, &limits("0", "0", None, None), &mut s);
    assert_eq!(s, "/begin INSTANCE params \"\" P 0x80000020 /end INSTANCE\n");

    let ax = McInstance::new(
        McIdentifier::new("ax"),
        McDimType::new(McValueType::Float32Ieee, 8, 0, McSupportData::new(McObjectType::Axis)),
        McAddress::new_calseg_rel(McIdentifier::new("seg"), 16),
    );
    let mut s = String::new();
    ax.write_axis(&reg, &limits("0", "1", Some("0.1"), None), &mut s);
    assert_eq!(s, "/begin AXIS_PTS ax \"\" 0x80000010 NO_INPUT_QUANTITY A_F32 0 NO_COMPU_METHOD 8 0 1 STEP_SIZE 0.1 /end AXIS_PTS\n");
}

#[test]
fn a2l_conversion_texts() {
    let reg = registry_with_segment();
    let c = McSupportData::new(McObjectType::Characteristic).set_unit(McText::new("mV"));
    let gain = McInstance::new(
        McIdentifier::new("gain"),
        McDimType::new(McValueType::Sword, 1, 1, c),
        McAddress::new_calseg_rel(McIdentifier::new("seg"), 2),
    );
    let mut s = String::new();
    gain.write_characteristic(&reg, &limits("-5", "5", None, Some(("0.1", "0", 3))), &mut s);
    assert_eq!(
        s,
        "/begin COMPU_METHOD gain \"\" LINEAR \"%.3\" \"mV\" COEFFS_LINEAR 0.1 0 /end COMPU_METHOD\n\
/begin CHARACTERISTIC gain \"\" VALUE 0x80000002 I16 0 gain -5 5 PHYS_UNIT \"mV\" /end CHARACTERISTIC\n"
    );

    // A boolean has no conversion of its own
    let flag = McInstance::new(
        McIdentifier::new("flag"),
        McDimType::new(McValueType::Bool, 1, 1, c),
        McAddress::new_calseg_rel(McIdentifier::new("seg"), 0),
    );
    let mut s = String::new();
    flag.write_characteristic(&reg, &limits("0", "1", None, Some(("2", "0", 0))), &mut s);
    assert_eq!(s, "/begin CHARACTERISTIC flag \"\" VALUE 0x80000000 BOOL 0 BOOL 0 1 PHYS_UNIT \"mV\" /end CHARACTERISTIC\n");
}

#[test]
fn a2l_conversion_written_for_first_event_instance_only() {
    let mut reg = registry_with_segment();
    reg.event_list.add_event(McEvent::new(McIdentifier::new("task"), 1, 0, 0)).unwrap();
    reg.event_list.add_event(McEvent::new(McIdentifier::new("task"), 2, 1, 0)).unwrap();
    let m = McSupportData::new(McObjectType::Measurement);
    let l = limits("0", "100", None, Some(("0.5", "0", 3)));

    let first = McInstance::new(McIdentifier::new("temp"), McDimType::new(McValueType::Ubyte, 1, 1, m), McAddress::new_event_dyn(0, 0, 0));
    let mut s = String::new();
    first.write_measurement(&reg, &l, &mut s);
    assert!(s.starts_with("/begin COMPU_METHOD temp \"\" LINEAR \"%.3\" \"\" COEFFS_LINEAR 0.5 0 /end COMPU_METHOD\n/begin MEASUREMENT temp_1 "));

    let second = McInstance::new(McIdentifier::new("temp"), McDimType::new(McValueType::Ubyte, 1, 1, m), McAddress::new_event_dyn(0, 1, 0));
    let mut s = String::new();
    second.write_measurement(&reg, &l, &mut s);
    assert!(s.starts_with("/begin MEASUREMENT temp_2 \"\" UBYTE temp 0 0 0 100 "));
}
