use xcp_lite::mc_address::McAddress;
use xcp_lite::mc_instance::McInstanceList;
use xcp_lite::mc_support::{McObjectType, McSupportData};
use xcp_lite::mc_text::McIdentifier;
use xcp_lite::mc_type::{McDimType, McValueType};
use xcp_lite::mc_typedef::check_flatten;
use xcp_lite::registry::{flatten_registry, try_flatten_registry, Registry, RegistryError, RegistrySingleton};

fn characteristic(value_type: McValueType) -> McDimType {
    McDimType::new(value_type, 1, 1, McSupportData::new(McObjectType::Characteristic))
}

// A registry with a nested typedef instance and a plain instance
fn nested_registry() -> Registry {
    let mut reg = Registry::new();
    reg.add_typedef(McIdentifier::new("inner"), 4).unwrap();
    reg.add_typedef_component("inner", McIdentifier::new("a"), characteristic(McValueType::Ubyte), 0).unwrap();
    reg.add_typedef_component("inner", McIdentifier::new("b"), characteristic(McValueType::Uword), 2).unwrap();
    reg.add_typedef(McIdentifier::new("outer"), 12).unwrap();
    reg.add_typedef_component(
        "outer",
        McIdentifier::new("x"),
        characteristic(McValueType::new_typedef(McIdentifier::new("inner"))),
        0,
    )
    .unwrap();
    reg.add_typedef_component("outer", McIdentifier::new("y"), characteristic(McValueType::Ulong), 8).unwrap();
    reg.instance_list
        .add_instance(
            McIdentifier::new("cal"),
            characteristic(McValueType::new_typedef(McIdentifier::new("outer"))),
            McAddress::new_calseg_rel(McIdentifier::new("seg"), 100),
        )
        .unwrap();
    reg.instance_list
        .add_instance(
            McIdentifier::new("m"),
            McDimType::new(McValueType::Ubyte, 1, 1, McSupportData::new(McObjectType::Measurement)),
            McAddress::new_event_dyn(0, 1, 4),
        )
        .unwrap();
    reg
}

fn names_and_offsets(list: &McInstanceList) -> Vec<(&'static str, i32)> {
    (0..list.len()).map(|i| (list.get(i).get_name(), list.get(i).addr_offset())).collect()
}

#[test]
fn flatten_registry_mangles_leaf_names() {
    let mut reg = nested_registry();
    flatten_registry(&mut reg);
    assert_eq!(names_and_offsets(&reg.instance_list), vec![("cal.x.a", 100), ("cal.x.b", 102), ("cal.y", 108), ("m", 4)]);
    assert_eq!(reg.typedef_list.len(), 0);
    for i in 0..reg.instance_list.len() {
        assert!(!reg.instance_list.get(i).dim_type.value_type.is_typedef());
    }
    assert!(reg.instance_list.get(0).calseg_name().unwrap().eq_str("seg"));
}

#[test]
fn flatten_registry_drops_instance_of_missing_typedef() {
    let mut reg = Registry::new();
    reg.instance_list
        .add_instance(
            McIdentifier::new("lost"),
            characteristic(McValueType::new_typedef(McIdentifier::new("nowhere"))),
            McAddress::new_calseg_rel(McIdentifier::new("seg"), 0),
        )
        .unwrap();
    flatten_registry(&mut reg);
    assert_eq!(reg.instance_list.len(), 0);
}

#[test]
fn registry_typedef_errors() {
    let mut reg = Registry::new();
    reg.add_typedef(McIdentifier::new("t"), 4).unwrap();
    match reg.add_typedef(McIdentifier::new("t"), 8) {
        Err(RegistryError::Duplicate(name)) => assert_eq!(name, "t"),
        _ => panic!("duplicate typedef accepted"),
    }
    match reg.add_typedef_component("u", McIdentifier::new("f"), characteristic(McValueType::Ubyte), 0) {
        Err(RegistryError::NotFound(name)) => assert_eq!(name, "u"),
        _ => panic!("missing typedef accepted"),
    }
    reg.add_typedef_component("t", McIdentifier::new("f"), characteristic(McValueType::Ubyte), 0).unwrap();
    match reg.add_typedef_component("t", McIdentifier::new("f"), characteristic(McValueType::Sbyte), 1) {
        Err(RegistryError::Duplicate(name)) => assert_eq!(name, "f"),
        _ => panic!("duplicate field accepted"),
    }
    let t = reg.typedef_list.find_typedef("t").unwrap();
    assert_eq!(t.fields.len(), 1);
    assert_eq!(t.find_field("f").unwrap().get_offset(), 0);
}

#[test]
fn registry_singleton_close_flattens() {
    let mut singleton = RegistrySingleton::new();
    assert!(!singleton.is_closed());
    singleton.init();
    {
        let open = singleton.open.as_mut().unwrap();
        *open = nested_registry();
        open.flatten_typedefs = true;
        open.set_app_info("app", "an application", 1);
    }
    singleton.init(); // already initialized, no change
    assert_eq!(singleton.open.as_ref().unwrap().instance_list.len(), 2);
    singleton.close();
    assert!(singleton.is_closed());
    assert!(singleton.open.is_none());
    let closed = singleton.closed.as_ref().unwrap();
    assert_eq!(closed.instance_list.len(), 4);
    assert_eq!(closed.get_app_name(), "app");
    singleton.close(); // already closed, no change
    assert!(singleton.is_closed());
}

#[test]
fn registry_singleton_close_keeps_typedefs() {
    let mut singleton = RegistrySingleton::new();
    singleton.init();
    *singleton.open.as_mut().unwrap() = nested_registry();
    singleton.close();
    let closed = singleton.closed.as_ref().unwrap();
    assert_eq!(closed.instance_list.len(), 2);
    assert_eq!(closed.typedef_list.len(), 2);
}

#[test]
fn registry_app_version() {
    let mut reg = Registry::new();
    reg.set_app_version("EPK1.0.0", 0x80000000);
    assert_eq!(reg.epk, "EPK1.0.0");
    assert_eq!(reg.epk_addr, 0x80000000);
}

#[test]
fn flatten_check_refuses_cycles_and_arrays() {
    let reg = nested_registry();
    assert!(check_flatten(&reg.typedef_list, &reg.instance_list));

    // a typedef that contains itself can not be flattened
    let mut cyclic = Registry::new();
    cyclic.add_typedef(McIdentifier::new("loop"), 4).unwrap();
    cyclic
        .add_typedef_component("loop", McIdentifier::new("me"), characteristic(McValueType::new_typedef(McIdentifier::new("loop"))), 0)
        .unwrap();
    cyclic
        .instance_list
        .add_instance(
            McIdentifier::new("c"),
            characteristic(McValueType::new_typedef(McIdentifier::new("loop"))),
            McAddress::new_calseg_rel(McIdentifier::new("seg"), 0),
        )
        .unwrap();
    assert!(!check_flatten(&cyclic.typedef_list, &cyclic.instance_list));
    assert!(!try_flatten_registry(&mut cyclic));
    assert_eq!(cyclic.instance_list.len(), 1);
    assert_eq!(cyclic.typedef_list.len(), 1);

    // an unused cyclic typedef does no harm
    let mut unused = nested_registry();
    unused.add_typedef(McIdentifier::new("loop"), 4).unwrap();
    unused
        .add_typedef_component("loop", McIdentifier::new("me"), characteristic(McValueType::new_typedef(McIdentifier::new("loop"))), 0)
        .unwrap();
    assert!(try_flatten_registry(&mut unused));
    assert_eq!(unused.instance_list.len(), 4);

    // an array of typedef instances can not be flattened
    let mut array = nested_registry();
    array
        .instance_list
        .add_instance(
            McIdentifier::new("arr"),
            McDimType::new(McValueType::new_typedef(McIdentifier::new("inner")), 4, 1, McSupportData::new(McObjectType::Characteristic)),
            McAddress::new_calseg_rel(McIdentifier::new("seg"), 0),
        )
        .unwrap();
    assert!(!check_flatten(&array.typedef_list, &array.instance_list));

    let mut singleton = RegistrySingleton::new();
    assert!(!singleton.can_close());
    singleton.init();
    assert!(singleton.can_close());
}
