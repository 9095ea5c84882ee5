use xcp_lite::daq_event::{create_measurement_object, DaqEvent};
use xcp_lite::reg::RegistryDataType;
use xcp_lite::reg_registry::{Registry, RegistryScaling};
use xcp_lite::xcp::EventList;

fn unscaled() -> RegistryScaling {
    RegistryScaling { factor: "1".to_string(), offset: "0".to_string(), identity: true }
}

fn scaled(factor: &str, offset: &str) -> RegistryScaling {
    RegistryScaling { factor: factor.to_string(), offset: offset.to_string(), identity: false }
}

// A registry named like the application, with the events of the event list
fn registry_with_events(events: &EventList) -> Registry {
    let mut reg = Registry::new();
    reg.set_name("xcp_lite");
    for e in events.iter() {
        reg.add_event(e.name, e.event);
    }
    reg
}

#[test]
fn daq_capture() {
    let mut events = EventList::new();
    let mut event = DaqEvent::<15>::new(&mut events, "TestEvent1");
    let mut reg = registry_with_events(&events);

    let mut counter1: u16 = 0;
    let mut offsets: Option<(i16, i16, i16, i16)> = None;
    loop {
        counter1 += 1;
        let mut counter2: u8 = 0;
        counter2 += 1;
        let mut counter3: u32 = 0;
        counter3 += 1;
        let mut counter4: u64 = 0;
        counter4 += 1;
        // The variables are registered once, on the first capture
        let (o3, o4, o2, o1) = match offsets {
            Some(o) => o,
            None => {
                let o3 = event.add_capture(&mut reg, "counter3", 4, RegistryDataType::Ulong, 1, 1, unscaled(), "", "", None);
                let o4 = event.add_capture(&mut reg, "counter4", 8, RegistryDataType::AUint64, 1, 1, unscaled(), "", "", None);
                let o2 = event.add_capture(&mut reg, "counter2", 1, RegistryDataType::Ubyte, 1, 1, unscaled(), "", "", None);
                let o1 = event.add_capture(&mut reg, "counter1", 2, RegistryDataType::Uword, 1, 1, unscaled(), "", "", None);
                offsets = Some((o3, o4, o2, o1));
                (o3, o4, o2, o1)
            }
        };
        event.capture(&counter3.to_le_bytes(), o3);
        event.capture(&counter4.to_le_bytes(), o4);
        event.capture(&counter2.to_le_bytes(), o2);
        event.capture(&counter1.to_le_bytes(), o1);
        if counter1 == 3 {
            break;
        }
    }
    assert_eq!(offsets, Some((0, 4, 12, 13)));
    assert_eq!(event.get_buffer(), &[1, 0, 0, 0, 1, 0, 0, 0, 0, 0, 0, 0, 1, 3, 0]);

    let a2l = reg.write_a2l(None).unwrap();
    assert!(a2l.contains("/begin MEASUREMENT counter1 \"\" UWORD NO_COMPU_METHOD 0 0 0 65535 PHYS_UNIT \"\" ECU_ADDRESS 0xD ECU_ADDRESS_EXTENSION 2 /begin IF_DATA XCP /begin DAQ_EVENT FIXED_EVENT_LIST EVENT 0 /end DAQ_EVENT /end IF_DATA /end MEASUREMENT\n"));
    assert!(a2l.contains("\n/begin GROUP TestEvent1 \"\" ROOT /begin REF_MEASUREMENT counter1 counter2 counter3 counter4 /end REF_MEASUREMENT /end GROUP"));
}

#[test]
fn daq_event_test_a2l_local_variables_capture() {
    let mut events = EventList::new();
    let mut event1 = DaqEvent::<256>::new(&mut events, "task1");
    let event2_xcp = events.create_event_ext("task2", true);
    let mut event2 = DaqEvent::<256>::new_from(&event2_xcp);
    let event3_xcp = events.create_event_ext("task3", true);
    let mut event3 = DaqEvent::<256>::new_from(&event3_xcp);
    let event4_xcp = events.create_event_ext("task4", true);
    let mut event4 = DaqEvent::<256>::new_from(&event4_xcp);
    let mut reg = registry_with_events(&events);

    event1.add_capture(&mut reg, "channel1", 8, RegistryDataType::Float64Ieee, 1, 1, scaled("2", "5"), "unit", "comment", None);
    event1.add_capture(&mut reg, "channel2", 8, RegistryDataType::Float64Ieee, 1, 1, scaled("2", "5"), "unit", "comment", None);
    event4.add_capture(&mut reg, "channel3", 8, RegistryDataType::Float64Ieee, 1, 1, unscaled(), "Volt", "", None);
    event3.add_capture(&mut reg, "channel4", 8, RegistryDataType::Float64Ieee, 1, 1, unscaled(), "unit", "comment", None);
    event2.add_capture(&mut reg, "channel5", 8, RegistryDataType::Float64Ieee, 1, 1, scaled("2", "5"), "unit", "comment", None);

    let names: Vec<&str> = reg.get_measurement_list().iter().map(|m| m.name.as_str()).collect();
    assert_eq!(names, vec!["channel1", "channel2", "channel3_1", "channel4_1", "channel5_1"]);

    let a2l = reg.write_a2l(None).unwrap();
    assert!(a2l.contains(
        "/begin COMPU_METHOD channel1.Conv \"\" LINEAR \"%6.3\" \"unit\" COEFFS_LINEAR 2 5 /end COMPU_METHOD\n/begin MEASUREMENT channel1 \"comment\" FLOAT64_IEEE channel1.Conv 0 0 -1000000000000 1000000000000 PHYS_UNIT \"unit\" ECU_ADDRESS 0x0 ECU_ADDRESS_EXTENSION 2"
    ));
    assert!(a2l.contains("/begin MEASUREMENT channel2 \"comment\" FLOAT64_IEEE channel2.Conv 0 0 -1000000000000 1000000000000 PHYS_UNIT \"unit\" ECU_ADDRESS 0x8 "));
    assert!(a2l.contains("/begin COMPU_METHOD channel3_1.Conv \"\" LINEAR \"%6.3\" \"Volt\" COEFFS_LINEAR 1 0 /end COMPU_METHOD\n"));
    assert!(a2l.contains("/begin EVENT \"task4_1\" \"task4_1\" 3 DAQ 0xFF 0 0 0 CONSISTENCY DAQ /end EVENT\n"));
}

#[test]
fn daq_register() {
    let mut events = EventList::new();
    let event = DaqEvent::<0>::new(&mut events, "TestEvent1");
    let mut reg = registry_with_events(&events);
    event.add_stack(&mut reg, "counter1", 0, RegistryDataType::Uword, 1, 1, unscaled(), "", "");
    event.add_stack(&mut reg, "counter2", -2, RegistryDataType::Ubyte, 1, 1, unscaled(), "", "");
    event.add_stack(&mut reg, "counter3", -8, RegistryDataType::Ulong, 1, 1, unscaled(), "", "");
    event.add_stack(&mut reg, "counter4", -16, RegistryDataType::AUint64, 1, 1, unscaled(), "", "");
    event.add_heap(&mut reg, "on_heap", 0x1000, RegistryDataType::Ulong, 1, 1, unscaled(), "", "");
    let offsets: Vec<i16> = reg.get_measurement_list().iter().map(|m| m.addr_offset).collect();
    assert_eq!(offsets, vec![0, -2, -8, -16, 0]);
    assert_eq!(reg.get_measurement_list()[4].addr, 0x1000);

    let a2l = reg.write_a2l(None).unwrap();
    assert!(a2l.contains("/begin MEASUREMENT counter2 \"\" UBYTE NO_COMPU_METHOD 0 0 0 255 PHYS_UNIT \"\" ECU_ADDRESS 0xFFFE ECU_ADDRESS_EXTENSION 2 "));
    assert!(a2l.contains("/begin MEASUREMENT on_heap \"\" ULONG NO_COMPU_METHOD 0 0 0 4294967295 PHYS_UNIT \"\" ECU_ADDRESS 0x1000 ECU_ADDRESS_EXTENSION 1 "));
}

#[test]
fn daq_measurement_object() {
    let mut events = EventList::new();
    let mut reg = Registry::new();
    let e = create_measurement_object(&mut events, &mut reg, "speed", RegistryDataType::Float32Ieee, 1, 1, "vehicle speed");
    assert_eq!(e.get_id(), 0);
    assert_eq!(e.get_index(), 0);
    let m = &reg.get_measurement_list()[0];
    assert_eq!(m.name, "speed");
    assert_eq!(m.addr_offset, 0);
    assert_eq!(m.addr, 0);
    assert!(m.scaling.identity);
    assert_eq!(m.comment, "vehicle speed");
}

// Capture of nested local counters into event "TestEvent1" with a 15 byte buffer, three cycles
#[test]
fn test_daq_capture() {
    let mut events = EventList::new();
    let mut event = DaqEvent::<15>::new(&mut events, "TestEvent1");
    let mut reg = registry_with_events(&events);
    let mut counter1: u16 = 0;
    let mut offsets: Option<(i16, i16, i16, i16)> = None;
    loop {
        counter1 += 1;
        let mut counter2: u8 = 0;
        counter2 += 1;
        let mut counter3: u32 = 0;
        counter3 += 1;
        let mut counter4: u64 = 0;
        counter4 += 1;
        let (o3, o4, o2, o1) = match offsets {
            Some(o) => o,
            None => {
                let o3 = event.add_capture(&mut reg, "counter3", 4, RegistryDataType::Ulong, 1, 1, unscaled(), "", "", None);
                let o4 = event.add_capture(&mut reg, "counter4", 8, RegistryDataType::AUint64, 1, 1, unscaled(), "", "", None);
                let o2 = event.add_capture(&mut reg, "counter2", 1, RegistryDataType::Ubyte, 1, 1, unscaled(), "", "", None);
                let o1 = event.add_capture(&mut reg, "counter1", 2, RegistryDataType::Uword, 1, 1, unscaled(), "", "", None);
                offsets = Some((o3, o4, o2, o1));
                (o3, o4, o2, o1)
            }
        };
        event.capture(&counter3.to_le_bytes(), o3);
        event.capture(&counter4.to_le_bytes(), o4);
        event.capture(&counter2.to_le_bytes(), o2);
        event.capture(&counter1.to_le_bytes(), o1);
        if counter1 == 3 {
            break;
        }
    }
    assert_eq!(event.get_buffer(), &[1, 0, 0, 0, 1, 0, 0, 0, 0, 0, 0, 0, 1, 3, 0]);
    assert!(reg.write_a2l(None).is_ok());
}
