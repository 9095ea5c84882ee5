use xcp_lite::counter::register;
use xcp_lite::daq_event::DaqEvent;
use xcp_lite::mc_event::McEventList;
use xcp_lite::mc_instance::McInstanceList;
use xcp_lite::xcp::{
    decode_cal_addr, epk_read_ok, get_calseg_ext_addr, get_calseg_ext_addr_base, CalMemTarget, CalPageState, EventList,
    XcpBuilder, XcpCalPage, XcpEvent, XcpTransportLayer, CAL_PAGE_MODE_ALL, CAL_PAGE_MODE_ECU, CAL_PAGE_MODE_XCP,
    CRC_CMD_OK, CRC_MODE_NOT_VALID, XCP_ADDR_EXT_DYN, XCP_UNDEFINED_EVENT_ID,
};

#[test]
fn xcp_create_events() {
    let mut events = EventList::new();
    let a = events.create_event_ext("task", true);
    let b = events.create_event_ext("task", true);
    let c = events.create_event_ext("main", false);
    let d = events.create_event_ext("main", false);
    assert_eq!((a.get_id(), a.get_index()), (0, 1));
    assert_eq!((b.get_id(), b.get_index()), (1, 2));
    assert_eq!((c.get_id(), c.get_index()), (2, 0));
    // a second event of a non indexed name is refused
    assert_eq!(d.get_id(), XCP_UNDEFINED_EVENT_ID);
    assert_eq!(events.len(), 3);
    assert_eq!(b.get_name(&events), Some("task"));
    assert_eq!(events.get_name(XcpEvent::new(7, 0)), None);
}

#[test]
fn xcp_register_events_sorted_by_name() {
    let mut events = EventList::new();
    let t1 = events.create_event_ext("task", true);
    let m = events.create_event_ext("main", false);
    let t2 = events.create_event_ext("task", true);
    let mut registry_events = McEventList::new();
    let map = events.register(&mut registry_events);
    assert_eq!(map.len(), 1024);
    // channels are the positions after sorting by name and index
    assert_eq!(m.get_channel(Some(&map)), 0);
    assert_eq!(t1.get_channel(Some(&map)), 1);
    assert_eq!(t2.get_channel(Some(&map)), 2);
    assert_eq!(t2.get_channel(None), 2);
    assert_eq!(registry_events.len(), 3);
    assert_eq!(registry_events.get(0).get_name(), "main");
    assert_eq!(t1.get_dyn_ext_addr(-1, Some(&map)), (XCP_ADDR_EXT_DYN, 0x0001FFFF));
    assert!(registry_events.find_event("task", 2).is_some());
    assert_eq!(registry_events.find_event_id(1).unwrap().get_name(), "main");
}

#[test]
fn xcp_cal_pages() {
    let mut s = CalPageState::new();
    assert_eq!(s.get_cal_page(CAL_PAGE_MODE_ECU), 0);
    assert_eq!(s.set_cal_page(1, CAL_PAGE_MODE_XCP), CRC_MODE_NOT_VALID);
    assert_eq!(s.set_cal_page(1, CAL_PAGE_MODE_ALL | CAL_PAGE_MODE_XCP), CRC_CMD_OK);
    assert_eq!(s.get_cal_page(CAL_PAGE_MODE_ECU), 0);
    assert_eq!(s.get_cal_page(CAL_PAGE_MODE_XCP), 1);
    assert_eq!(s.get_cal_page(0), 0xFF);
    assert!(s.xcp_page == XcpCalPage::Flash);
    assert_eq!(XcpCalPage::from_u8(0).as_u8(), 0);
    assert_eq!(XcpCalPage::from_u8(7).as_u8(), 1);
}

#[test]
fn xcp_cal_addresses() {
    assert_eq!(get_calseg_ext_addr_base(0), (0, 0x80010000));
    assert_eq!(get_calseg_ext_addr(2, 0x10), (0, 0x80030010));
    match decode_cal_addr(0x80030010) {
        CalMemTarget::Segment { index, offset } => assert_eq!((index, offset), (2, 0x10)),
        _ => panic!("segment expected"),
    }
    match decode_cal_addr(0x80000004) {
        CalMemTarget::Epk { offset } => assert_eq!(offset, 4),
        _ => panic!("EPK expected"),
    }
    assert!(epk_read_ok(8, 4, 4));
    assert!(!epk_read_ok(8, 5, 4));
}

#[test]
fn xcp_builder_and_transport() {
    let b = XcpBuilder::new("app").set_log_level(4).set_epk("EPK_1");
    assert_eq!((b.log_level, b.name, b.epk), (4, "app", "EPK_1"));
    assert_eq!(XcpTransportLayer::Tcp.protocol_name(), "TCP");
    assert_eq!(XcpTransportLayer::Udp.protocol_name(), "UDP");
}

#[test]
fn daq_event_capture_buffer() {
    let mut events = EventList::new();
    let mut d = DaqEvent::<8>::new(&mut events, "daq");
    assert_eq!(d.get_capacity(), 8);
    assert_eq!(d.get_event_id(), 0);
    let o1 = d.allocate(2);
    let o2 = d.allocate(4);
    assert_eq!((o1, o2), (0, 2));
    d.capture(&[1, 2], o1);
    d.capture(&[3, 4, 5, 6], o2);
    assert_eq!(d.get_buffer(), &[1, 2, 3, 4, 5, 6, 0, 0]);
    let e = DaqEvent::<4>::new_from(&XcpEvent::new(5, 1));
    assert_eq!(e.get_xcp_event().get_index(), 1);
}

#[test]
fn counter_register() {
    let mut events = EventList::new();
    let mut instances = McInstanceList::new();
    let e = register(&mut events, &mut instances, "counter_1");
    assert_eq!(e.get_id(), 0);
    assert_eq!(instances.len(), 1);
    let i = instances.get(0);
    assert_eq!(i.get_name(), "counter_1");
    assert_eq!(i.event_id(), Some(0));
    assert_eq!(i.addr_offset(), 0);
    assert!(i.is_measurement_object());
    let again = register(&mut events, &mut instances, "counter_1");
    assert_eq!(again.get_id(), XCP_UNDEFINED_EVENT_ID);
}
