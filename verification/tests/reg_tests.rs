use xcp_lite::reg::{RegistryDataType, RegistryDataTypeTrait, RegistryEvent, RegistryEventList};
use xcp_lite::xcp::XcpEvent;

#[test]
fn reg_data_type_from_rust_type() {
    assert_eq!(RegistryDataType::from_rust_basic_type("bool"), RegistryDataType::Ubyte);
    assert_eq!(RegistryDataType::from_rust_basic_type("usize"), RegistryDataType::AUint64);
    assert_eq!(RegistryDataType::from_rust_basic_type("isize"), RegistryDataType::AInt64);
    assert_eq!(RegistryDataType::from_rust_basic_type("f32"), RegistryDataType::Float32Ieee);
    assert_eq!(RegistryDataType::from_rust_basic_type("String"), RegistryDataType::Unknown);
    assert_eq!(RegistryDataType::from_rust_type("i16"), RegistryDataType::Sword);
    assert_eq!(RegistryDataType::from_rust_type("[u8; 16]"), RegistryDataType::Ubyte);
    assert_eq!(RegistryDataType::from_rust_type("[[f64; 4]; 8]"), RegistryDataType::Float64Ieee);
    assert_eq!(RegistryDataType::from_rust_type("[ i32 ;2]"), RegistryDataType::Slong);
    assert_eq!(RegistryDataType::from_rust_type("[char; 2]"), RegistryDataType::Unknown);
}

#[test]
fn reg_data_type_strings_and_sizes() {
    assert_eq!(RegistryDataType::AUint64.get_type_str(), "A_UINT64");
    assert_eq!(RegistryDataType::Float32Ieee.get_deposit_str(), "F32");
    assert_eq!(RegistryDataType::Sword.get_size(), 2);
    assert_eq!(RegistryDataType::Blob.get_size(), 0);
    assert_eq!(RegistryDataType::Blob.get_type_str(), "BLOB");
}

#[test]
fn reg_data_type_trait() {
    assert_eq!(true.get_type(), RegistryDataType::Ubyte);
    assert_eq!(1i8.get_type(), RegistryDataType::Sbyte);
    assert_eq!(1u16.get_type(), RegistryDataType::Uword);
    assert_eq!(1i32.get_type(), RegistryDataType::Slong);
    assert_eq!(1u64.get_type(), RegistryDataType::AUint64);
}

#[test]
fn reg_event_list() {
    let mut l = RegistryEventList::new();
    l.push(RegistryEvent { name: "e0", xcp_event: XcpEvent::new(0, 0) });
    l.push(RegistryEvent { name: "e1", xcp_event: XcpEvent::new(1, 0) });
    assert_eq!(l.len(), 2);
    assert_eq!(l.iter().len(), 2);
    assert_eq!(l.get_name(XcpEvent::new(1, 3)), "e1");
}
