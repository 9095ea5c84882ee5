use xcp_lite::mc_address::{McAddrMode, McAddress, XCP_ADDR_EXT_ABS, XCP_ADDR_EXT_DYN, XCP_ADDR_EXT_SEG};
use xcp_lite::mc_calseg::McCalibrationSegmentList;
use xcp_lite::mc_text::McIdentifier;
use xcp_lite::registry::Registry;

#[test]
fn test_mc_address() {
    let mut reg = Registry::new();
    reg.cal_seg_list.add_a2l_cal_seg(McIdentifier::new("calseg"), 0, 0, 0x80000000, 0x1000).unwrap();

    let addr = McAddress::new_calseg_rel(McIdentifier::new("calseg"), 11);
    assert_eq!(addr.get_calseg_name().map(|n| n.as_str()), Some(McIdentifier::new("calseg").as_str()));
    assert_eq!(addr.get_event_id(), None);
    assert_eq!(addr.get_addr_offset(), 11);
    let a = addr.get_a2l_addr(&reg.cal_seg_list);
    assert!(a.0 == XCP_ADDR_EXT_SEG);
    assert_eq!(a.1, 0x80000000 + 11);

    {
        let addr = McAddress::new_event_dyn(0, 2, -1);
        assert!(addr.get_calseg_name().is_none());
        assert_eq!(addr.get_event_id(), Some(2));
        assert_eq!(addr.get_addr_offset(), -1);
        let a = addr.get_a2l_addr(&reg.cal_seg_list);
        assert!(a.0 == XCP_ADDR_EXT_DYN);
        assert_eq!(a.1, 0x0002FFFF);

        let addr = McAddress::new_event_dyn(0, 2, 0x7FFF);
        assert!(addr.get_calseg_name().is_none());
        assert_eq!(addr.get_event_id(), Some(2));
        assert_eq!(addr.get_addr_offset(), 0x7FFF);
        let a = addr.get_a2l_addr(&reg.cal_seg_list);
        assert!(a.0 == XCP_ADDR_EXT_DYN);
        assert_eq!(a.1, 0x00027FFF);
    }
}

#[test]
fn address_calseg_index_of_second_segment() {
    let mut segs = McCalibrationSegmentList::new();
    segs.add_a2l_cal_seg(McIdentifier::new("a"), 0, 0, 0x80000000, 4).unwrap();
    segs.add_a2l_cal_seg(McIdentifier::new("b"), 1, 0, 0x80010000, 4).unwrap();
    let addr = McAddress::new_calseg_rel(McIdentifier::new("b"), 4);
    assert_eq!(addr.get_a2l_addr(&segs), (XCP_ADDR_EXT_SEG, 0x80010004));
    assert_eq!(McAddress::get_calseg_ext_addr(1, 4), (XCP_ADDR_EXT_SEG, 0x80010004));
    assert_eq!(McAddress::get_calseg_ext_addr_base(0x8001), (XCP_ADDR_EXT_SEG, 0x80010000));
}

#[test]
fn address_abs_and_a2l() {
    let segs = McCalibrationSegmentList::new();
    let abs = McAddress::new_event_abs(3, 0x100);
    assert_eq!(abs.get_a2l_addr(&segs), (XCP_ADDR_EXT_ABS, 0x100));
    assert_eq!(abs.get_addr_mode().as_u8(), 1);

    let mut a2l = McAddress::new_a2l(0xFFFFFFFF, 5);
    assert!(a2l.get_addr_mode().is_a2l());
    a2l.add_addr_offset(2);
    assert_eq!(a2l.get_raw_a2l_addr(), (5, 1));
    a2l.add_addr_offset(-2);
    assert_eq!(a2l.get_raw_a2l_addr(), (5, 0xFFFFFFFF));
    a2l.set_raw_a2l_addr(6, 0x10);
    assert_eq!(a2l.get_a2l_addr(&segs), (6, 0x10));

    let mut cal = McAddress::new_calseg_rel(McIdentifier::new("x"), 8);
    cal.add_addr_offset(-3);
    assert_eq!(cal.get_addr_offset(), 5);
    assert!(cal.is_segment_relative());
    assert!(!cal.is_event_relative());
    assert!(McAddrMode::Dyn.is_event_relative());
}

#[test]
fn address_order() {
    let a = McAddress::new_calseg_rel(McIdentifier::new("x"), 8);
    let b = McAddress::new_calseg_rel(McIdentifier::new("y"), 9);
    let c = McAddress::new_event_dyn(0, 1, 0);
    let d = McAddress::new_a2l(0x10, 1);
    let e = McAddress::new_a2l(0x08, 2);
    assert_eq!(a.compare(&b), -1);
    assert_eq!(b.compare(&a), 1);
    assert_eq!(a.compare(&a), 0);
    assert_eq!(a.compare(&c), -1);
    assert_eq!(d.compare(&e), -1);
    assert_eq!(c.compare(&d), -1);
    assert!(a.same_as(&a));
    assert!(!a.same_as(&b));
}

#[test]
fn address_dyn_ext_addr() {
    assert_eq!(McAddress::get_dyn_ext_addr(XCP_ADDR_EXT_DYN, 1, -2), (XCP_ADDR_EXT_DYN, 0x0001FFFE));
    assert_eq!(McAddress::get_dyn_ext_addr(XCP_ADDR_EXT_DYN + 1, 0xFFFF, 0x10), (XCP_ADDR_EXT_DYN + 1, 0xFFFF0010));
}
