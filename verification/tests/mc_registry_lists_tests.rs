use xcp_lite::mc_address::McAddress;
use xcp_lite::mc_event::{McEvent, McEventList, McEventListIterator};
use xcp_lite::mc_instance::{McInstance, McInstanceList, McInstanceListIterator};
use xcp_lite::mc_support::{McObjectQualifier, McObjectType, McSupportData};
use xcp_lite::mc_text::{McIdentifier, McText};
use xcp_lite::mc_type::{get_characteristic_subtype_str, get_value_type_from_record_layout, McDimType, McValueType};
use xcp_lite::registry::{Registry, RegistryError};

fn measurement() -> McDimType {
    McDimType::new(McValueType::Ubyte, 1, 1, McSupportData::new(McObjectType::Measurement))
}

fn characteristic() -> McDimType {
    McDimType::new(McValueType::Sword, 1, 1, McSupportData::new(McObjectType::Characteristic))
}

fn instance_list() -> McInstanceList {
    let mut l = McInstanceList::new();
    l.add_instance(McIdentifier::new("speed"), measurement(), McAddress::new_event_dyn(0, 1, 0)).unwrap();
    l.add_instance(McIdentifier::new("gain"), characteristic(), McAddress::new_calseg_rel(McIdentifier::new("seg"), 0)).unwrap();
    l.add_instance(McIdentifier::new("speed"), measurement(), McAddress::new_event_dyn(0, 2, 0)).unwrap();
    l
}

#[test]
fn instance_list_find_by_regex() {
    let l = instance_list();
    // the regular expression decides
    let i = l.find_instance("^sp", McObjectType::Unspecified, None).unwrap();
    assert_eq!(i.get_name(), "speed");
    assert_eq!(i.event_id(), Some(1));
    let i = l.find_instance("speed", McObjectType::Measurement, Some(2)).unwrap();
    assert_eq!(i.event_id(), Some(2));
    assert!(l.find_instance("speed", McObjectType::Characteristic, None).is_none());
    assert!(l.find_instance("^g.*n$", McObjectType::Characteristic, None).is_some());
    assert!(l.find_instance("xyz", McObjectType::Unspecified, None).is_none());
    // an invalid expression finds nothing
    assert!(l.find_instance("(", McObjectType::Unspecified, None).is_none());
    assert_eq!(l.find_instances("e", McObjectType::Unspecified, None), vec!["speed", "speed"]);
    assert_eq!(l.find_instances(".", McObjectType::Characteristic, None), vec!["gain"]);
}

#[test]
fn instance_list_duplicates_and_sorting() {
    let mut l = instance_list();
    match l.add_instance(McIdentifier::new("speed"), measurement(), McAddress::new_event_dyn(0, 1, 0)) {
        Err(RegistryError::Duplicate(name)) => assert_eq!(name, "speed"),
        _ => panic!("duplicate instance accepted"),
    }
    assert_eq!(l.len(), 3);
    l.sort_by_name();
    let names: Vec<&str> = (0..l.len()).map(|i| l.get(i).get_name()).collect();
    assert_eq!(names, vec!["gain", "speed", "speed"]);
    assert_eq!(l.get(1).event_id(), Some(1));
    let mut it = McInstanceListIterator::new(&l);
    let mut n = 0;
    while let Some(_) = it.next() {
        n += 1;
    }
    assert_eq!(n, 3);
    let mut other = McInstanceList::new();
    other.push(McInstance::new(McIdentifier::new("x"), characteristic(), McAddress::new_calseg_rel(McIdentifier::new("seg"), 2)));
    l.append(&mut other);
    assert_eq!(l.len(), 4);
    assert!(other.is_empty());
}

#[test]
fn instance_unique_names() {
    let mut reg = Registry::new();
    reg.set_app_info("app", "", 0);
    reg.event_list.add_event(McEvent::new(McIdentifier::new("task"), 1, 1, 0)).unwrap();
    reg.event_list.add_event(McEvent::new(McIdentifier::new("task"), 2, 2, 0)).unwrap();
    let l = instance_list();
    assert_eq!(l.get(0).get_unique_name(&reg), "speed_1");
    assert_eq!(l.get(2).get_unique_name(&reg), "speed_2");
    assert_eq!(l.get(1).get_unique_name(&reg), "gain");
    reg.prefix_names = true;
    assert_eq!(l.get(2).get_unique_name(&reg), "app.speed_2");
    assert_eq!(l.get(1).get_prefixed_name(&reg), "app.gain");
    assert_eq!(reg.event_list.get(1).get_unique_name(&reg), "app.task_2");
}

#[test]
fn event_list_duplicates() {
    let mut l = McEventList::new();
    l.add_event(McEvent::new(McIdentifier::new("b"), 0, 1, 100)).unwrap();
    l.add_event(McEvent::new(McIdentifier::new("a"), 0, 0, 100)).unwrap();
    assert!(l.add_event(McEvent::new(McIdentifier::new("a"), 0, 5, 100)).is_err());
    assert!(l.add_event(McEvent::new(McIdentifier::new("c"), 0, 1, 100)).is_err());
    assert_eq!(l.len(), 2);
    l.sort_by_id();
    assert_eq!(l.get(0).get_name(), "a");
    l.sort_by_name();
    assert_eq!(l.get(1).get_name(), "b");
    let mut it = McEventListIterator::new(&l);
    assert!(it.next().is_some());
    assert!(it.next().is_some());
    assert!(it.next().is_none());
}

#[test]
fn value_types_and_subtypes() {
    assert!(matches!(get_value_type_from_record_layout("__UWORD_Z"), McValueType::Uword));
    assert!(matches!(get_value_type_from_record_layout("A_F64"), McValueType::Float64Ieee));
    assert!(matches!(get_value_type_from_record_layout("whatever"), McValueType::Ubyte));
    assert_eq!(McValueType::Slonglong.get_type_str(), "A_INT64");
    assert_eq!(McValueType::Ulong.get_size(), 4);
    let m = McSupportData::new(McObjectType::Characteristic);
    assert_eq!(get_characteristic_subtype_str(&McDimType::new(McValueType::Ubyte, 4, 1, m)), "VAL_BLK");
    let with_axis = m.set_x_axis_ref(Some(McIdentifier::new("ax")));
    assert_eq!(get_characteristic_subtype_str(&McDimType::new(McValueType::Ubyte, 4, 2, with_axis)), "MAP");
    assert_eq!(get_characteristic_subtype_str(&McDimType::new(McValueType::Ubyte, 4, 1, with_axis)), "CURVE");
    assert_eq!(get_characteristic_subtype_str(&McDimType::new(McValueType::Ubyte, 1, 1, m)), "VALUE");
    let a = McSupportData::new(McObjectType::Axis);
    assert_eq!(get_characteristic_subtype_str(&McDimType::new(McValueType::Ubyte, 8, 0, a)), "AXIS_PTS");
}

#[test]
fn support_data_setters() {
    let m = McSupportData::new(McObjectType::Measurement)
        .set_unit(McText::new("V"))
        .set_comment(McText::new("Voltage"))
        .set_qualifier(McObjectQualifier::Volatile)
        .set_object_type(McObjectType::Characteristic);
    assert_eq!(m.get_unit(), "V");
    assert_eq!(m.get_comment(), "Voltage");
    assert!(m.qualifier.is_volatile());
    assert!(m.is_characteristic());
    assert!(m.is_calibration_object());
    assert!(!m.is_measurement_object());
}

#[test]
fn instance_list_sort_by_name_and_event() {
    let mut l = McInstanceList::new();
    l.push(McInstance::new(McIdentifier::new("speed"), measurement(), McAddress::new_event_dyn(0, 5, 0)));
    l.push(McInstance::new(McIdentifier::new("accel"), measurement(), McAddress::new_event_dyn(0, 9, 0)));
    l.push(McInstance::new(McIdentifier::new("speed"), measurement(), McAddress::new_event_dyn(0, 2, 0)));
    l.sort_by_name_and_event();
    let order: Vec<(&str, Option<u16>)> = (0..l.len()).map(|i| (l.get(i).get_name(), l.get(i).event_id())).collect();
    assert_eq!(order, vec![("accel", Some(9)), ("speed", Some(2)), ("speed", Some(5))]);
    assert_eq!(l.get(1).get_address().get_event_id(), Some(2));
    assert_eq!(l.get(0).get_dim_type().get_dim(), [1, 1]);
}

#[test]
fn a2l_address_with_event_keeps_raw_address() {
    let a = McAddress::new_a2l_with_event(7, 0x1234, 1);
    assert_eq!(a.get_event_id(), Some(7));
    assert_eq!(a.get_raw_a2l_addr(), (1, 0x1234));
    assert!(!a.is_segment_relative());
    let b = McAddress::new_a2l(0x1234, 1);
    assert_eq!(b.get_event_id(), None);
    assert!(!a.same_as(&b));
}

#[test]
fn value_type_and_qualifier_queries() {
    assert!(McValueType::Unknown.is_unknown());
    assert!(!McValueType::Ubyte.is_unknown());
    assert!(McObjectQualifier::Unspecified.is_unspecified());
    assert!(!McObjectQualifier::Volatile.is_unspecified());
    let m = McSupportData::new(McObjectType::Characteristic)
        .set_y_axis_ref(Some(McIdentifier::new("ay")))
        .set_y_axis_conv(Some(McIdentifier::new("cy")));
    assert_eq!(m.y_axis_ref.map(|n| n.as_str()), Some("ay"));
    assert_eq!(m.y_axis_conv.map(|n| n.as_str()), Some("cy"));
    assert_eq!(McDimType::new(McValueType::Uword, 3, 2, m).get_dim(), [3, 2]);
}

#[test]
fn support_data_default_is_unspecified() {
    let m = McSupportData::default();
    assert_eq!(m.object_type, McObjectType::Unspecified);
    assert!(m.qualifier.is_unspecified());
    assert_eq!(m.get_unit(), "");
    assert_eq!(m.get_comment(), "");
    assert!(m.x_axis_ref.is_none() && m.y_axis_ref.is_none());
}

// The metadata of a characteristic keeps its type, unit and comment through a copy; its
// floating point limits are held apart from it
#[test]
fn test_mc_support_data() {
    let m1 = McSupportData::new(McObjectType::Characteristic)
        .set_unit(McText::new("Volts"))
        .set_comment(McText::new("Voltage in Volts"));
    let m2 = m1.clone();
    assert_eq!(m2.object_type, McObjectType::Characteristic);
    assert_eq!(m2.get_object_type(), McObjectType::Characteristic);
    assert_eq!(m2.unit.as_str(), "Volts");
    assert_eq!(m2.comment.as_str(), "Voltage in Volts");
    assert_eq!(McSupportData::new(McObjectType::Unspecified).get_object_type(), McObjectType::Unspecified);
    for t in [McObjectType::Measurement, McObjectType::Characteristic, McObjectType::Axis] {
        assert_eq!(McSupportData::new(t).get_object_type(), t);
    }
}
