use xcp_lite::reg::RegistryDataType;
use xcp_lite::reg_a2l_writer::check_reg_writable;
use xcp_lite::reg_registry::{Registry, RegistryCharacteristic, RegistryMeasurement, RegistryScaling};
use xcp_lite::xcp::{EventList, XcpEvent};

fn scaling(factor: &str, offset: &str, identity: bool) -> RegistryScaling {
    RegistryScaling { factor: factor.to_string(), offset: offset.to_string(), identity }
}

fn measurement(name: &str, event: XcpEvent, unit: &'static str, s: RegistryScaling) -> RegistryMeasurement {
    RegistryMeasurement::new(name.to_string(), RegistryDataType::Ubyte, 1, 1, event, 0, 0, s, "comment", unit, None)
}

fn characteristic(seg: &'static str, name: &str, offset: u64) -> RegistryCharacteristic {
    RegistryCharacteristic::new(
        Some(seg),
        name.to_string(),
        RegistryDataType::Sbyte,
        "comment",
        "-128".to_string(),
        "127".to_string(),
        "",
        1,
        1,
        offset,
    )
}

#[test]
fn reg_test_registry_1() {
    let mut reg = Registry::new();
    reg.set_name("test_registry_1");
    reg.set_epk("TEST_EPK", 0x80000000);
    reg.set_tl_params("UDP", [127, 0, 0, 1], 5555);

    // A calibration segment of a page with two i8 parameters
    reg.add_cal_seg("test_cal_seg_1", 0, 2);
    reg.add_characteristic(characteristic("test_cal_seg_1", "test_characteristic_1", 0));
    reg.add_characteristic(characteristic("test_cal_seg_1", "test_characteristic_2", 1));

    let mut events = EventList::new();
    let event1_1 = events.create_event_ext("event1", true);
    let event1_2 = events.create_event_ext("event1", true);
    let event2 = events.create_event_ext("event2", false);
    assert_eq!((event1_1.get_id(), event1_1.get_index()), (0, 1));
    assert_eq!((event1_2.get_id(), event1_2.get_index()), (1, 2));
    assert_eq!((event2.get_id(), event2.get_index()), (2, 0));
    for e in events.iter() {
        reg.add_event(e.name, e.event);
    }

    reg.add_measurement(measurement("test_measurement_1", event1_1, "unit", scaling("1", "1", false)));
    reg.add_measurement(measurement("test_measurement_1", event1_2, "unit", scaling("1", "1", false)));
    reg.add_measurement(measurement("test_measurement_2", event2, "unit", scaling("1", "1", false)));

    assert!(check_reg_writable(&reg, None));
    let a2l = reg.write_a2l(None).unwrap();
    assert!(a2l.starts_with("\n    ASAP2_VERSION 1 71\n    /begin PROJECT test_registry_1 \"\"\n"));
    assert!(a2l.contains("/begin MEASUREMENT test_measurement_1_1 \"comment\" UBYTE test_measurement_1_1.Conv 0 0 0 255 PHYS_UNIT \"unit\" ECU_ADDRESS 0x0 "));
    assert!(a2l.contains("/begin MEASUREMENT test_measurement_1_2 \"comment\" UBYTE test_measurement_1_2.Conv 0 0 0 255 PHYS_UNIT \"unit\" ECU_ADDRESS 0x10000 "));
    assert!(a2l.contains("/begin MEASUREMENT test_measurement_2 \"comment\" UBYTE test_measurement_2.Conv"));
    assert!(a2l.contains("/begin CHARACTERISTIC test_characteristic_1 \"comment\" VALUE 0x80010000 S8 0 NO_COMPU_METHOD -128 127 /end CHARACTERISTIC\n"));
    assert!(a2l.contains("/begin CHARACTERISTIC test_characteristic_2 \"comment\" VALUE 0x80010001 S8 0 NO_COMPU_METHOD -128 127 /end CHARACTERISTIC\n"));
    assert!(a2l.ends_with("/end GROUP\n\n\n    /end MODULE \n    /end PROJECT\n    "));
}

#[test]
fn reg_test_registry_2() {
    let mut reg = Registry::new();
    reg.set_name("test_registry_2");
    reg.set_epk("TEST_EPK", 0x80000000);
    reg.set_tl_params("UDP", [127, 0, 0, 1], 5555);

    reg.add_cal_seg("test_cal_seg_1", 0, 2);
    reg.add_cal_seg("test_cal_seg_2", 1, 2);

    let event1_1 = XcpEvent::new(0, 1);
    reg.add_event("event1", event1_1);
    let event1_2 = XcpEvent::new(1, 2);
    reg.add_event("event1", event1_2);
    let event2 = XcpEvent::new(2, 0);
    reg.add_event("event2", event2);

    reg.add_characteristic(characteristic("test_cal_seg_1", "test_characteristic_1", 0));
    reg.add_characteristic(characteristic("test_cal_seg_1", "test_characteristic_2", 1));

    reg.add_measurement(measurement("test_measurement_1", event1_1, "unit", scaling("1", "1", false)));
    reg.add_measurement(measurement("test_measurement_1", event1_2, "unit", scaling("1", "1", false)));
    reg.add_measurement(measurement("test_measurement_2", event2, "unit", scaling("1", "1", false)));

    assert!(check_reg_writable(&reg, None));
    let a2l = reg.write_a2l(None).unwrap();

    assert!(a2l.starts_with("\n    ASAP2_VERSION 1 71\n    /begin PROJECT test_registry_2 \"\"\n"));
    assert!(a2l.contains(
        "\n\t\t/begin MOD_PAR \"\"\n\t\t\tEPK \"TEST_EPK\" ADDR_EPK 0x80000000\n\n\t\t\t/begin MEMORY_SEGMENT epk \"\" DATA FLASH INTERN 0x80000000 8 -1 -1 -1 -1 -1 /end MEMORY_SEGMENT\n \n            /begin MEMORY_SEGMENT\n                test_cal_seg_1 \"\" DATA FLASH INTERN 0x80010000 2 -1 -1 -1 -1 -1\n"
    ));
    assert!(a2l.contains("/begin SEGMENT 2 2 0 0 0\n"));
    assert!(a2l.contains(
        "/begin EVENT \"event1_1\" \"event1_1\" 0 DAQ 0xFF 0 0 0 CONSISTENCY DAQ /end EVENT\n/begin EVENT \"event1_2\" \"event1_2\" 1 DAQ 0xFF 0 0 0 CONSISTENCY DAQ /end EVENT\n/begin EVENT \"event2\" \"event2\" 2 DAQ 0xFF 0 0 0 CONSISTENCY DAQ /end EVENT\n\n\t\t\t/end DAQ\n"
    ));
    assert!(a2l.contains("\n\t\t\t/begin XCP_ON_UDP_IP 0x104 5555 ADDRESS \"127.0.0.1\" /end XCP_ON_UDP_IP\n\n\t\t/end IF_DATA\n"));
    assert!(a2l.contains(
        "/begin COMPU_METHOD test_measurement_1_1.Conv \"\" LINEAR \"%6.3\" \"unit\" COEFFS_LINEAR 1 1 /end COMPU_METHOD\n/begin MEASUREMENT test_measurement_1_1 \"comment\" UBYTE test_measurement_1_1.Conv 0 0 0 255 PHYS_UNIT \"unit\" ECU_ADDRESS 0x0 ECU_ADDRESS_EXTENSION 2 /begin IF_DATA XCP /begin DAQ_EVENT FIXED_EVENT_LIST EVENT 0 /end DAQ_EVENT /end IF_DATA /end MEASUREMENT\n"
    ));
    assert!(a2l.contains("/begin MEASUREMENT test_measurement_1_2 \"comment\" UBYTE test_measurement_1_2.Conv 0 0 0 255 PHYS_UNIT \"unit\" ECU_ADDRESS 0x10000 "));
    assert!(a2l.contains("/begin MEASUREMENT test_measurement_2 \"comment\" UBYTE test_measurement_2.Conv"));
    assert!(a2l.contains(
        "\n/begin GROUP event1 \"\" ROOT /begin REF_MEASUREMENT test_measurement_1_1 test_measurement_1_2 /end REF_MEASUREMENT /end GROUP"
    ));
    assert!(!a2l.contains("/begin GROUP event2"));
    assert!(a2l.contains(
        "\n/begin CHARACTERISTIC test_characteristic_1 \"comment\" VALUE 0x80010000 S8 0 NO_COMPU_METHOD -128 127 /end CHARACTERISTIC\n/begin CHARACTERISTIC test_characteristic_2 \"comment\" VALUE 0x80010001 S8 0 NO_COMPU_METHOD -128 127 /end CHARACTERISTIC\n/begin GROUP test_cal_seg_1 \"\" ROOT /begin REF_CHARACTERISTIC  test_characteristic_1  test_characteristic_2 /end REF_CHARACTERISTIC /end GROUP\n\n\n/begin GROUP test_cal_seg_2 \"\" ROOT /begin REF_CHARACTERISTIC /end REF_CHARACTERISTIC /end GROUP\n\n"
    ));
    assert!(a2l.ends_with("/end GROUP\n\n\n    /end MODULE \n    /end PROJECT\n    "));

    reg.freeze();
    assert!(reg.is_frozen());

    let err = reg.write_a2l(None);
    assert!(err.is_err());
    assert_eq!(err.unwrap_err(), "Registry is closed");
}

#[test]
fn reg_registry_basics() {
    let mut reg = Registry::default();
    assert!(!reg.is_frozen());
    assert_eq!(reg.get_name(), None);
    assert_eq!(reg.get_epk(), None);
    reg.set_name("app");
    reg.set_epk("EPK", 0x1234);
    assert_eq!(reg.get_name(), Some("app"));
    assert_eq!(reg.get_epk(), Some("EPK"));

    reg.add_cal_seg("seg_a", 0, 16);
    reg.add_cal_seg("seg_b", 3, 16);
    assert_eq!(reg.get_cal_seg_index("seg_b"), Some(3));
    assert_eq!(reg.get_cal_seg_index("seg_c"), None);

    reg.add_characteristic(characteristic("seg_a", "gain", 4));
    assert_eq!(reg.find_characteristic("gain").unwrap().addr_offset, 4);
    assert!(reg.find_characteristic("none").is_none());

    // A single instance event keeps the name, a multi instance event appends its index
    reg.add_event("task", XcpEvent::new(0, 0));
    reg.add_event("task", XcpEvent::new(1, 3));
    reg.add_measurement(measurement("speed", XcpEvent::new(0, 0), "", scaling("1", "0", true)));
    reg.add_measurement(measurement("speed", XcpEvent::new(1, 3), "", scaling("1", "0", true)));
    let names: Vec<&str> = reg.get_measurement_list().iter().map(|m| m.name.as_str()).collect();
    assert_eq!(names, vec!["speed", "speed_3"]);

    reg.clear();
    assert!(reg.get_measurement_list().is_empty());
    assert_eq!(reg.get_name(), None);
    assert_eq!(reg.get_cal_seg_index("seg_a"), None);
}

#[test]
fn reg_a2l_sorted_lists_and_plain_measurements() {
    let mut reg = Registry::new();
    reg.set_name("app");
    reg.add_event("task", XcpEvent::new(0, 0));
    reg.add_measurement(measurement("b", XcpEvent::new(0, 0), "", scaling("1", "0", true)));
    reg.add_measurement(measurement("a", XcpEvent::new(0, 0), "", scaling("1", "0", true)));
    let a2l = reg.write_a2l(None).unwrap();
    let a = a2l.find("/begin MEASUREMENT a ").unwrap();
    let b = a2l.find("/begin MEASUREMENT b ").unwrap();
    assert!(a < b);
    // No scaling and no unit: no conversion rule of its own
    assert!(a2l.contains("/begin MEASUREMENT a \"comment\" UBYTE NO_COMPU_METHOD 0 0 0 255 PHYS_UNIT \"\" ECU_ADDRESS 0x0 ECU_ADDRESS_EXTENSION 2"));
    assert!(!a2l.contains("COMPU_METHOD a.Conv"));
    // Two signals of one event: its group
    assert!(a2l.contains("\n/begin GROUP task \"\" ROOT /begin REF_MEASUREMENT a b /end REF_MEASUREMENT /end GROUP"));
    // No EPK and no transport layer
    assert!(!a2l.contains("EPK"));
    assert!(!a2l.contains("XCP_ON_"));
    let names: Vec<&str> = reg.get_measurement_list().iter().map(|m| m.name.as_str()).collect();
    assert_eq!(names, vec!["a", "b"]);
}

#[test]
fn reg_a2l_blob_absolute_and_event_map() {
    let mut reg = Registry::new();
    reg.set_name("app");
    reg.add_event("task", XcpEvent::new(1, 0));
    let blob = RegistryMeasurement::new(
        "points".to_string(),
        RegistryDataType::Blob,
        64,
        1,
        XcpEvent::new(1, 0),
        -8,
        0,
        scaling("1", "0", true),
        "",
        "",
        Some("IDL".to_string()),
    );
    reg.add_measurement(blob);
    let heap = RegistryMeasurement::new(
        "heap".to_string(),
        RegistryDataType::Float64Ieee,
        2,
        3,
        XcpEvent::new(1, 0),
        0,
        0x2000,
        scaling("0.5", "0", false),
        "",
        "",
        None,
    );
    reg.add_measurement(heap);
    let mut abs = RegistryCharacteristic::new(
        None,
        "limit".to_string(),
        RegistryDataType::Uword,
        "",
        "0".to_string(),
        "100".to_string(),
        "mm",
        4,
        2,
        0x3000,
    );
    abs.set_event(XcpEvent::new(1, 0));
    assert_eq!(abs.get_type_str(), "MAP");
    reg.add_characteristic(abs);

    // Event 1 is channel 7
    let event_map: Vec<u16> = vec![0, 7];
    assert!(check_reg_writable(&reg, Some(&event_map)));
    assert!(!check_reg_writable(&reg, Some(&vec![0])));
    let a2l = reg.write_a2l(Some(&event_map)).unwrap();
    assert!(a2l.contains(
        "/begin CHARACTERISTIC points \"\" ASCII 0x7FFF8 U8 0 NO_COMPU_METHOD 0 255 READ_ONLY NUMBER 64 ECU_ADDRESS_EXTENSION 2 \nIDL\n/begin ANNOTATION ANNOTATION_LABEL \"IsVlsd\""
    ));
    assert!(a2l.contains("\"64\" /end ANNOTATION_TEXT /end ANNOTATION\n  /begin IF_DATA XCP /begin DAQ_EVENT FIXED_EVENT_LIST EVENT 7 /end DAQ_EVENT /end IF_DATA /end CHARACTERISTIC\n"));
    assert!(a2l.contains(
        "/begin MEASUREMENT heap \"\" FLOAT64_IEEE heap.Conv 0 0 -1000000000000 1000000000000 PHYS_UNIT \"\" ECU_ADDRESS 0x2000 ECU_ADDRESS_EXTENSION 1 MATRIX_DIM 2 3 /begin IF_DATA"
    ));
    assert!(a2l.contains(
        "\n/begin CHARACTERISTIC limit \"\" MAP 0x3000 U16 0 NO_COMPU_METHOD 0 100 /begin AXIS_DESCR FIX_AXIS NO_INPUT_QUANTITY NO_COMPU_METHOD  4 0 3 FIX_AXIS_PAR_DIST 0 1 4 /end AXIS_DESCR /begin AXIS_DESCR FIX_AXIS NO_INPUT_QUANTITY NO_COMPU_METHOD  2 0 1 FIX_AXIS_PAR_DIST 0 1 2 /end AXIS_DESCR PHYS_UNIT \"mm\" ECU_ADDRESS_EXTENSION 1 /begin IF_DATA XCP /begin DAQ_EVENT FIXED_EVENT_LIST EVENT 7 /end DAQ_EVENT /end IF_DATA /end CHARACTERISTIC"
    ));
}
