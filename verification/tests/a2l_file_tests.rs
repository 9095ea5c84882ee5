use xcp_lite::a2l_file::{check_a2l_writable, A2lWriter};
use xcp_lite::a2l_writer::{A2lConversion, A2lLimits};
use xcp_lite::mc_address::McAddress;
use xcp_lite::mc_event::McEvent;
use xcp_lite::mc_support::{McObjectType, McSupportData};
use xcp_lite::mc_text::{McIdentifier, McText};
use xcp_lite::mc_type::{McDimType, McValueType};
use xcp_lite::registry::{McXcpTransportLayer, Registry};
use xcp_lite::xcp::XcpEvent;

fn lim(min: &str, max: &str, conversion: Option<(&str, &str, u8)>) -> A2lLimits {
    A2lLimits {
        min: min.to_string(),
        max: max.to_string(),
        step: None,
        conversion: conversion.map(|(factor, offset, factor_decimals)| A2lConversion {
            factor: factor.to_string(),
            offset: offset.to_string(),
            factor_decimals,
        }),
    }
}

// The registry of the first registry test: two calibration segments with a characteristic
// each, one event with a measurement
fn registry_1() -> Registry {
    let mut reg = Registry::new();
    reg.set_app_info("test_registry_1", "created by test_registry_1", 0);
    reg.set_app_version("EPK1.0.0", 0x80000000);
    reg.set_xcp_params("UDP", [127, 0, 0, 1], 5555);

    reg.cal_seg_list.add_cal_seg(McIdentifier::new("test_cal_seg_1"), 0, 4).unwrap();
    reg.cal_seg_list.add_cal_seg(McIdentifier::new("test_cal_seg_2"), 1, 4).unwrap();

    let mc_support_data = McSupportData::new(McObjectType::Characteristic)
        .set_unit(McText::new("Deg"))
        .set_comment(McText::new("comment"));
    reg.instance_list
        .add_instance(
            McIdentifier::new("test_characteristic_1"),
            McDimType::new(McValueType::Ubyte, 1, 1, mc_support_data),
            McAddress::new_calseg_rel(McIdentifier::new("test_cal_seg_1"), 0),
        )
        .unwrap();
    reg.instance_list
        .add_instance(
            McIdentifier::new("test_characteristic_2"),
            McDimType::new(McValueType::Sbyte, 1, 1, mc_support_data),
            McAddress::new_calseg_rel(McIdentifier::new("test_cal_seg_2"), 0),
        )
        .unwrap();

    let event1 = XcpEvent::new(0, 1);
    reg.event_list
        .add_event(McEvent::new(McIdentifier::new("event1"), event1.get_index(), event1.get_id(), 0))
        .unwrap();

    let mc_support_data = McSupportData::new(McObjectType::Measurement).set_comment(McText::new("comment"));
    reg.instance_list
        .add_instance(
            McIdentifier::new("test_measurement"),
            McDimType::new(McValueType::Ubyte, 1, 1, mc_support_data),
            McAddress::new_event_dyn(0, event1.get_id(), 8),
        )
        .unwrap();
    reg
}

fn registry_1_limits() -> Vec<A2lLimits> {
    vec![
        lim("1", "255", Some(("2", "1", 0))),
        lim("-255", "255", Some(("2", "1", 0))),
        lim("0", "255", None),
    ]
}

#[test]
fn mod_test_registry_1() {
    let reg = registry_1();
    assert!(check_a2l_writable(&reg, &registry_1_limits()));
    let a2l = reg.to_a2l(registry_1_limits(), vec![]);

    assert!(a2l.starts_with("\n    ASAP2_VERSION 1 71\n    /begin PROJECT test_registry_1 \"\"\n"));
    assert!(a2l.contains("    /begin MODULE test_registry_1 \"\"\n"));
    assert!(a2l.contains(
        "/begin MOD_PAR \"\" EPK \"EPK1.0.0\" ADDR_EPK 0x80000000\n/begin MEMORY_SEGMENT epk \"\" DATA FLASH INTERN 0x80000000 8 -1 -1 -1 -1 -1 /end MEMORY_SEGMENT\n/begin MEMORY_SEGMENT test_cal_seg_1 \"\" DATA FLASH INTERN 0x80000000 4 -1 -1 -1 -1 -1\n"
    ));
    assert!(a2l.contains("/begin MEMORY_SEGMENT test_cal_seg_2 \"\" DATA FLASH INTERN 0x80010000 4 -1 -1 -1 -1 -1\n"));
    assert!(a2l.contains("/end MEMORY_SEGMENT\n /end MOD_PAR\n"));
    assert!(a2l.contains("DYNAMIC 0 1 0 OPTIMISATION_TYPE_DEFAULT"));
    assert!(a2l.contains("/begin EVENT \"event1_1\" \"event1_1\" 0 DAQ 0xFF 0 0 0 CONSISTENCY DAQ /end EVENT\n\n\t\t\t/end DAQ\n"));
    assert!(a2l.contains("\n\t\t\t/begin XCP_ON_UDP_IP 0x104 5555 ADDRESS \"127.0.0.1\" /end XCP_ON_UDP_IP\n\n/end IF_DATA\n\n"));
    assert!(a2l.contains("\n/* TypeDefs */\n\n\n/* Measurements */\n"));
    assert!(a2l.contains(
        "/begin MEASUREMENT test_measurement_1 \"comment\" UBYTE IDENTITY 0 0 0 255 ECU_ADDRESS 0x8 ECU_ADDRESS_EXTENSION 2 READ_WRITE /begin IF_DATA XCP /begin DAQ_EVENT FIXED_EVENT_LIST EVENT 0 /end DAQ_EVENT /end IF_DATA /end MEASUREMENT\n"
    ));
    assert!(a2l.contains(
        "/begin GROUP Measurements \"\" ROOT /begin SUB_GROUP event1 /end SUB_GROUP /end GROUP\n/begin GROUP event1 \"\" /begin REF_MEASUREMENT test_measurement_1 /end REF_MEASUREMENT /end GROUP\n"
    ));
    assert!(a2l.contains(
        "\n/* Axis */\n\n/* Characteristics */\n/begin COMPU_METHOD test_characteristic_1 \"\" LINEAR \"%.0\" \"Deg\" COEFFS_LINEAR 2 1 /end COMPU_METHOD\n/begin CHARACTERISTIC test_characteristic_1 \"comment\" VALUE 0x80000000 U8 0 test_characteristic_1 1 255 PHYS_UNIT \"Deg\" /end CHARACTERISTIC\n"
    ));
    assert!(a2l.contains(
        "/begin CHARACTERISTIC test_characteristic_2 \"comment\" VALUE 0x80010000 I8 0 test_characteristic_2 -255 255 PHYS_UNIT \"Deg\" /end CHARACTERISTIC\n"
    ));
    assert!(a2l.contains(
        "\n/* Characteristic and Axis Groups */\n/begin GROUP Characteristics \"\" ROOT /begin SUB_GROUP test_cal_seg_1 test_cal_seg_2 /end SUB_GROUP /end GROUP\n/begin GROUP test_cal_seg_1 \"\" /begin REF_CHARACTERISTIC  test_characteristic_1 /end REF_CHARACTERISTIC /end GROUP\n/begin GROUP test_cal_seg_2 \"\" /begin REF_CHARACTERISTIC  test_characteristic_2 /end REF_CHARACTERISTIC /end GROUP\n"
    ));
    assert!(a2l.ends_with("/end REF_CHARACTERISTIC /end GROUP\n\n/end MODULE\n/end PROJECT\n"));
}

#[test]
fn a2l_without_transport_layer_has_no_if_data() {
    let mut reg = Registry::new();
    reg.set_app_info("app", "", 0);
    let a2l = reg.to_a2l(vec![], vec![]);
    assert!(!a2l.contains("IF_DATA"));
    assert!(a2l.contains(
        "/begin MOD_PAR \"\" EPK \"\" ADDR_EPK 0x00000000\n/begin MEMORY_SEGMENT epk \"\" DATA FLASH INTERN 0x00000000 0 -1 -1 -1 -1 -1 /end MEMORY_SEGMENT\n /end MOD_PAR\n\n/* TypeDefs */\n\n\n/* Measurements */\n/begin GROUP Measurements \"\" ROOT /begin SUB_GROUP /end SUB_GROUP /end GROUP\n\n/* Axis */\n\n/* Characteristics */\n\n/* Characteristic and Axis Groups */\n/begin GROUP Characteristics \"\" ROOT /begin SUB_GROUP /end SUB_GROUP /end GROUP\n\n/end MODULE\n/end PROJECT\n"
    ));
}

#[test]
fn a2l_transport_layer_protocol_in_upper_case() {
    let t = McXcpTransportLayer { protocol_name: "tcp", addr: [192, 168, 0, 10], port: 5556 };
    let mut s = String::new();
    t.write_a2l(&mut s);
    assert_eq!(s, "\n\t\t\t/begin XCP_ON_TCP_IP 0x104 5556 ADDRESS \"192.168.0.10\" /end XCP_ON_TCP_IP\n");
    let d = McXcpTransportLayer::default();
    assert_eq!(d.protocol_name, "UDP");
    assert_eq!(d.addr, [127, 0, 0, 1]);
    assert_eq!(d.port, 5555);
}

#[test]
fn a2l_epk_length_in_bytes() {
    let mut reg = Registry::new();
    reg.set_app_info("app", "", 0);
    reg.set_app_version("V\u{e4}1", 0x1234);
    let a2l = reg.to_a2l(vec![], vec![]);
    assert!(a2l.contains("EPK \"V\u{e4}1\" ADDR_EPK 0x00001234\n/begin MEMORY_SEGMENT epk \"\" DATA FLASH INTERN 0x00001234 4 -1"));
}

#[test]
fn a2l_writer_refuses_what_it_cannot_write() {
    let reg = registry_1();
    // One entry of limits per instance is needed
    assert!(!check_a2l_writable(&reg, &vec![]));
    let w = A2lWriter::new(&reg, vec![], vec![]);
    assert!(!w.can_write());
    let w = A2lWriter::new(&reg, registry_1_limits(), vec![]);
    assert!(w.can_write());

    // A characteristic in a segment that does not exist
    let mut reg = registry_1();
    reg.instance_list
        .add_instance(
            McIdentifier::new("lost"),
            McDimType::new(McValueType::Ubyte, 1, 1, McSupportData::new(McObjectType::Characteristic)),
            McAddress::new_calseg_rel(McIdentifier::new("no_such_segment"), 0),
        )
        .unwrap();
    let mut limits = registry_1_limits();
    limits.push(lim("0", "255", None));
    assert!(!check_a2l_writable(&reg, &limits));

    // Typedefs on a cycle
    let mut reg = Registry::new();
    reg.add_typedef(McIdentifier::new("a"), 4).unwrap();
    reg.add_typedef(McIdentifier::new("b"), 4).unwrap();
    let c = McSupportData::new(McObjectType::Characteristic);
    reg.add_typedef_component("a", McIdentifier::new("x"), McDimType::new(McValueType::new_typedef(McIdentifier::new("b")), 1, 1, c), 0)
        .unwrap();
    reg.add_typedef_component("b", McIdentifier::new("y"), McDimType::new(McValueType::new_typedef(McIdentifier::new("a")), 1, 1, c), 0)
        .unwrap();
    let w = A2lWriter::new(&reg, vec![], vec![vec![lim("0", "0", None)], vec![lim("0", "0", None)]]);
    assert!(!w.can_write());
}

// The registry of the registry API test: segments, events, measurements, nested typedefs and
// their instances, axis points and a curve with a common axis
fn registry_api() -> Registry {
    let mut reg = Registry::new();
    reg.set_app_info("test_registry_api", "created by test_registry_api", 0);
    reg.set_app_version("V1.0.0", 0);

    reg.cal_seg_list.add_cal_seg(McIdentifier::new("calseg_1"), 0, 4).unwrap();
    reg.cal_seg_list.add_cal_seg(McIdentifier::new("calseg_2"), 1, 16).unwrap();

    let xcp_event_1 = XcpEvent::new(0, 0);
    reg.event_list
        .add_event(McEvent::new(McIdentifier::new("event_1"), xcp_event_1.get_index(), xcp_event_1.get_id(), 100))
        .unwrap();
    let xcp_event_2 = XcpEvent::new(1, 0);
    reg.event_list
        .add_event(McEvent::new(McIdentifier::new("event_2"), xcp_event_2.get_index(), xcp_event_2.get_id(), 1000))
        .unwrap();

    let m = McSupportData::new(McObjectType::Measurement).set_comment(McText::new("Measurement value u8"));
    reg.instance_list
        .add_instance(
            McIdentifier::new("mea_u8"),
            McDimType::new(McValueType::Ubyte, 1, 1, m),
            McAddress::new_event_dyn(0, xcp_event_1.get_id(), 0),
        )
        .unwrap();
    let m = McSupportData::new(McObjectType::Measurement).set_comment(McText::new("Measurement value f64"));
    reg.instance_list
        .add_instance(
            McIdentifier::new("mea_f64"),
            McDimType::new(McValueType::Float32Ieee, 1, 1, m),
            McAddress::new_event_dyn(0, xcp_event_2.get_id(), 0),
        )
        .unwrap();

    let c = McSupportData::new(McObjectType::Characteristic);
    reg.add_typedef(McIdentifier::new("typedef_characteristic_1"), 8).unwrap();
    reg.add_typedef_component(
        "typedef_characteristic_1",
        McIdentifier::new("field1_typedef_characteristic_2"),
        McDimType::new(McValueType::new_typedef(McIdentifier::new("typedef_characteristic_2")), 1, 1, c),
        0,
    )
    .unwrap();
    reg.add_typedef_component(
        "typedef_characteristic_1",
        McIdentifier::new("field2_f64"),
        McDimType::new(McValueType::Float64Ieee, 1, 1, c),
        0,
    )
    .unwrap();
    reg.add_typedef_component(
        "typedef_characteristic_1",
        McIdentifier::new("field3_axis_8_f64"),
        McDimType::new(McValueType::Float64Ieee, 8, 0, McSupportData::new(McObjectType::Axis)),
        0,
    )
    .unwrap();
    reg.add_typedef(McIdentifier::new("typedef_characteristic_2"), 8).unwrap();
    reg.add_typedef_component("typedef_characteristic_2", McIdentifier::new("field1_i8"), McDimType::new(McValueType::Sbyte, 1, 1, c), 0)
        .unwrap();

    let c1 = McSupportData::new(McObjectType::Characteristic)
        .set_comment(McText::new("Characteristic value in calseg_1 with type typedef_characteristic_1"));
    reg.instance_list
        .add_instance(
            McIdentifier::new("characteristic_1"),
            McDimType::new(McValueType::new_typedef(McIdentifier::new("typedef_characteristic_1")), 4, 2, c1),
            McAddress::new_calseg_rel(McIdentifier::new("calseg_1"), 0),
        )
        .unwrap();
    let c2 = McSupportData::new(McObjectType::Characteristic)
        .set_comment(McText::new("Characteristic value in calseg_1 with type typedef_characteristic_2"));
    reg.instance_list
        .add_instance(
            McIdentifier::new("characteristic_2"),
            McDimType::new(McValueType::new_typedef(McIdentifier::new("typedef_characteristic_2")), 4, 2, c2),
            McAddress::new_calseg_rel(McIdentifier::new("calseg_2"), 0),
        )
        .unwrap();
    let a = McSupportData::new(McObjectType::Axis).set_comment(McText::new("Axis value"));
    reg.instance_list
        .add_instance(
            McIdentifier::new("axis_1"),
            McDimType::new(McValueType::Float32Ieee, 8, 0, a),
            McAddress::new_calseg_rel(McIdentifier::new("calseg_1"), 0),
        )
        .unwrap();
    let c3 = McSupportData::new(McObjectType::Characteristic)
        .set_comment(McText::new("Characteristic curve 8.1 in calseg_1 with axis_1"))
        .set_x_axis_ref(Some(McIdentifier::new("axis_1")));
    reg.instance_list
        .add_instance(
            McIdentifier::new("characteristic_3"),
            McDimType::new(McValueType::Slonglong, 8, 1, c3),
            McAddress::new_calseg_rel(McIdentifier::new("calseg_1"), 0),
        )
        .unwrap();
    reg
}

#[test]
fn test_registry_api() {
    let reg = registry_api();
    let limits = vec![
        lim("0", "255", None),
        lim("-1e12", "1e12", None),
        lim("0", "127", None),
        lim("0", "127", None),
        lim("-1e12", "8", None),
        lim("0", "1", None),
    ];
    let typedef_limits = vec![
        vec![lim("0", "0", None), lim("-1e12", "1e12", None), lim("-1e12", "1e12", None)],
        vec![lim("-128", "127", None)],
    ];
    let w = A2lWriter::new(&reg, limits.clone(), typedef_limits.clone());
    assert!(w.can_write());
    let a2l = reg.to_a2l(limits, typedef_limits);

    // The nested typedef is written once, before the typedef that refers to it
    assert!(a2l.contains(
        "\n/* TypeDefs */\n\
/begin TYPEDEF_CHARACTERISTIC field1_i8 \"\" VALUE I8 0 IDENTITY -128 127 /end TYPEDEF_CHARACTERISTIC\n\
/begin TYPEDEF_STRUCTURE typedef_characteristic_2 \"\" 8\n\
\t/begin STRUCTURE_COMPONENT field1_i8 field1_i8 0 /end STRUCTURE_COMPONENT\n\
/end TYPEDEF_STRUCTURE\n\
/begin TYPEDEF_CHARACTERISTIC field2_f64 \"\" VALUE F64 0 NO_COMPU_METHOD -1e12 1e12 /end TYPEDEF_CHARACTERISTIC\n\
/begin TYPEDEF_AXIS field3_axis_8_f64 \"\" NO_INPUT_QUANTITY A_F64 0 NO_COMPU_METHOD 8 -1e12 1e12 /end TYPEDEF_AXIS\n\
/begin TYPEDEF_STRUCTURE typedef_characteristic_1 \"\" 8\n\
\t/begin STRUCTURE_COMPONENT field1_typedef_characteristic_2 typedef_characteristic_2 0 /end STRUCTURE_COMPONENT\n\
\t/begin STRUCTURE_COMPONENT field2_f64 field2_f64 0 /end STRUCTURE_COMPONENT\n\
\t/begin STRUCTURE_COMPONENT field3_axis_8_f64 field3_axis_8_f64 0 /end STRUCTURE_COMPONENT\n\
/end TYPEDEF_STRUCTURE\n\
\n\n/* Measurements */\n"
    ));
    assert!(a2l.contains(
        "/begin GROUP Measurements \"\" ROOT /begin SUB_GROUP event_1 event_2 /end SUB_GROUP /end GROUP\n\
/begin GROUP event_1 \"\" /begin REF_MEASUREMENT mea_u8 /end REF_MEASUREMENT /end GROUP\n\
/begin GROUP event_2 \"\" /begin REF_MEASUREMENT mea_f64 /end REF_MEASUREMENT /end GROUP\n"
    ));
    assert!(a2l.contains(
        "\n/* Axis */\n/begin AXIS_PTS axis_1 \"Axis value\" 0x80000000 NO_INPUT_QUANTITY A_F32 0 NO_COMPU_METHOD 8 -1e12 8 /end AXIS_PTS\n"
    ));
    assert!(a2l.contains(
        "/begin INSTANCE characteristic_1 \"Characteristic value in calseg_1 with type typedef_characteristic_1\" typedef_characteristic_1 0x80000000 /end INSTANCE\n"
    ));
    assert!(a2l.contains(
        "/begin CHARACTERISTIC characteristic_3 \"Characteristic curve 8.1 in calseg_1 with axis_1\" CURVE 0x80000000 I64 0 IDENTITY 0 1 /begin AXIS_DESCR COM_AXIS NO_INPUT_QUANTITY NO_COMPU_METHOD 8 0.0 0.0 AXIS_PTS_REF axis_1 /end AXIS_DESCR /end CHARACTERISTIC\n"
    ));
    assert!(a2l.contains(
        "/begin GROUP calseg_1 \"\" /begin REF_CHARACTERISTIC  characteristic_1  axis_1  characteristic_3 /end REF_CHARACTERISTIC /end GROUP\n\
/begin GROUP calseg_2 \"\" /begin REF_CHARACTERISTIC  characteristic_2 /end REF_CHARACTERISTIC /end GROUP\n"
    ));
    // No transport layer parameters: no IF_DATA with the events
    assert!(!a2l.contains("/begin EVENT"));
}

// A typedef field of a typedef that does not exist is skipped, not refused; nested typedefs
// without a cycle are written
#[test]
fn a2l_writer_accepts_nested_and_missing_typedefs() {
    let c = McSupportData::new(McObjectType::Characteristic);
    let mut reg = Registry::new();
    reg.set_app_info("nested", "", 0);
    reg.add_typedef(McIdentifier::new("outer"), 8).unwrap();
    reg.add_typedef(McIdentifier::new("inner"), 4).unwrap();
    reg.add_typedef_component("outer", McIdentifier::new("i"), McDimType::new(McValueType::new_typedef(McIdentifier::new("inner")), 1, 1, c), 0)
        .unwrap();
    reg.add_typedef_component("inner", McIdentifier::new("m"), McDimType::new(McValueType::new_typedef(McIdentifier::new("missing")), 1, 1, c), 0)
        .unwrap();
    reg.add_typedef_component("inner", McIdentifier::new("v"), McDimType::new(McValueType::Ulong, 1, 1, c), 0)
        .unwrap();
    let w = A2lWriter::new(&reg, vec![], vec![vec![lim("0", "0", None)], vec![lim("0", "0", None), lim("0", "100", None)]]);
    assert!(w.can_write());
    let text = reg.to_a2l(vec![], vec![vec![lim("0", "0", None)], vec![lim("0", "0", None), lim("0", "100", None)]]);
    assert!(text.contains("/begin TYPEDEF_STRUCTURE outer"));
    assert!(text.contains("/begin TYPEDEF_STRUCTURE inner"));
    assert!(text.find("TYPEDEF_STRUCTURE inner").unwrap() < text.find("TYPEDEF_STRUCTURE outer").unwrap());
}

// Measurement names need not be unique: instances of one name on the instances of an event
// are told apart by the event index
#[test]
fn mod_test_registry_2() {
    let mut reg = Registry::new();
    reg.set_app_info("test_registry_2", "created by test_registry_2", 0);
    reg.set_app_version("EPK2.0.0", 0x80000000);
    reg.set_xcp_params("UDP", [127, 0, 0, 1], 5555);

    // The calibration page of the segment: two i8 and one i16 parameters
    reg.cal_seg_list.add_cal_seg(McIdentifier::new("test_cal_seg_1"), 0, 4).unwrap();
    let c = McSupportData::new(McObjectType::Characteristic).set_unit(McText::new("unit")).set_comment(McText::new("comment"));
    for (name, t, offset) in [("test_characteristic_1", McValueType::Sbyte, 0), ("test_characteristic_2", McValueType::Sbyte, 1), ("test_characteristic_3", McValueType::Sword, 2)] {
        reg.instance_list
            .add_instance(McIdentifier::new(name), McDimType::new(t, 1, 1, c), McAddress::new_calseg_rel(McIdentifier::new("test_cal_seg_1"), offset))
            .unwrap();
    }

    let mut events = xcp_lite::xcp::EventList::new();
    let event1_1 = events.create_event_ext("event1", true);
    let event1_2 = events.create_event_ext("event1", true);
    let event2 = events.create_event_ext("event2", false);
    events.register(&mut reg.event_list);
    assert_eq!(reg.event_list.len(), 3);

    let m1 = McSupportData::new(McObjectType::Measurement).set_comment(McText::new("instance 1 of test_measurement_1"));
    reg.instance_list
        .add_instance(McIdentifier::new("test_measurement_1"), McDimType::new(McValueType::Ubyte, 1, 1, m1), McAddress::new_event_dyn(0, event1_1.get_id(), 0))
        .unwrap();
    let m2 = McSupportData::new(McObjectType::Measurement).set_comment(McText::new("instance 2 of test_measurement_1"));
    reg.instance_list
        .add_instance(McIdentifier::new("test_measurement_1"), McDimType::new(McValueType::Ubyte, 1, 1, m2), McAddress::new_event_dyn(0, event1_2.get_id(), 0))
        .unwrap();
    let m3 = McSupportData::new(McObjectType::Measurement);
    reg.instance_list
        .add_instance(McIdentifier::new("test_measurement_2"), McDimType::new(McValueType::Ubyte, 1, 1, m3), McAddress::new_event_dyn(0, event2.get_id(), 0))
        .unwrap();

    let limits = vec![
        lim("-128", "127", None),
        lim("-128", "127", None),
        lim("-32768", "32767", None),
        lim("0", "255", None),
        lim("0", "255", None),
        lim("0", "255", None),
    ];
    assert!(check_a2l_writable(&reg, &limits));
    let a2l = reg.to_a2l(limits, vec![]);
    assert!(a2l.starts_with("\n    ASAP2_VERSION 1 71\n    /begin PROJECT test_registry_2 \"\"\n"));
    assert!(a2l.contains("EPK \"EPK2.0.0\" ADDR_EPK 0x80000000"));
    assert!(a2l.contains("/begin MEASUREMENT test_measurement_1_1 \"instance 1 of test_measurement_1\" UBYTE"));
    assert!(a2l.contains("/begin MEASUREMENT test_measurement_1_2 \"instance 2 of test_measurement_1\" UBYTE"));
    assert!(a2l.contains("/begin MEASUREMENT test_measurement_2 \"\" UBYTE"));
    assert!(a2l.contains("/begin CHARACTERISTIC test_characteristic_3 \"comment\" VALUE 0x80000002 I16 0 IDENTITY -32768 32767 PHYS_UNIT \"unit\" /end CHARACTERISTIC\n"));
}
