use xcp_lite::mc_address::McAddrMode;
use xcp_lite::mc_support::{McObjectQualifier, McObjectType};
use xcp_lite::mc_text::{McIdentifier, McText};
use xcp_lite::mc_type::McValueType;
use xcp_lite::register::{register_struct, FieldModel, StructModel};
use xcp_lite::registry::Registry;

fn field(name: &'static str, value_type: McValueType, offset: u16) -> FieldModel {
    FieldModel {
        name: McIdentifier::new(name),
        comment: McText::new("comment"),
        unit: McText::new("unit"),
        value_type,
        x_dim: 1,
        y_dim: 1,
        addr_offset: offset,
        is_axis: false,
        is_characteristic: false,
        is_measurement: false,
        is_volatile: false,
        x_axis_ref: None,
        y_axis_ref: None,
        nested: None,
    }
}

// The fields of a calibration page become characteristics and axes of the segment, named after
// the instance
#[test]
fn register_calseg_fields() {
    let mut axis = field("axis", McValueType::Ulong, 4);
    axis.is_axis = true;
    axis.x_dim = 8;
    let page = StructModel { name: McIdentifier::new("CalPage"), size: 36, fields: vec![field("gain", McValueType::Ubyte, 0), axis] };
    let mut reg = Registry::new();
    register_struct(&mut reg, &vec![page], 0, Some(McIdentifier::new("cal")), Some(McIdentifier::new("cal")), None, false);
    assert_eq!(reg.instance_list.len(), 2);
    let g = reg.instance_list.get(0);
    assert_eq!(g.get_name(), "cal.gain");
    assert_eq!(g.dim_type.mc_support_data.object_type, McObjectType::Characteristic);
    assert_eq!(g.address.get_addr_mode(), McAddrMode::Cal);
    assert_eq!(g.address.get_calseg_name().map(|n| n.as_str()), Some("cal"));
    let a = reg.instance_list.get(1);
    assert_eq!(a.get_name(), "cal.axis");
    assert_eq!(a.dim_type.mc_support_data.object_type, McObjectType::Axis);
    assert_eq!((a.dim_type.x_dim, a.dim_type.y_dim), (8, 0));
    assert_eq!(a.address.get_addr_offset(), 4);
    assert_eq!(reg.typedef_list.len(), 0);
}

// The fields of a measured structure become measurements relative to the event
#[test]
fn register_event_fields() {
    let mut v = field("voltage", McValueType::Sword, 2);
    v.is_volatile = true;
    let s = StructModel { name: McIdentifier::new("Signals"), size: 4, fields: vec![field("state", McValueType::Ubyte, 0), v] };
    let mut reg = Registry::new();
    register_struct(&mut reg, &vec![s], 0, None, None, Some(7), false);
    let m = reg.instance_list.get(1);
    assert_eq!(m.get_name(), "voltage");
    assert_eq!(m.dim_type.mc_support_data.object_type, McObjectType::Measurement);
    assert!(m.dim_type.mc_support_data.qualifier == McObjectQualifier::Volatile);
    assert_eq!(m.address.get_addr_mode(), McAddrMode::Dyn);
    assert_eq!(m.address.get_event_id(), Some(7));
    assert_eq!(m.address.get_addr_offset(), 2);
}

// The structure is added as a typedef first, its nested structure when its field is reached;
// the instance refers to the outer typedef
#[test]
fn register_nested_typedef() {
    let inner = StructModel { name: McIdentifier::new("Inner"), size: 4, fields: vec![field("x", McValueType::Ulong, 0)] };
    let mut i = field("i", McValueType::TypeDef(McIdentifier::new("Inner")), 0);
    i.nested = Some(0);
    let mut y = field("y", McValueType::Ubyte, 4);
    y.is_measurement = true;
    let outer = StructModel { name: McIdentifier::new("Outer"), size: 8, fields: vec![i, y] };
    let mut reg = Registry::new();
    register_struct(&mut reg, &vec![inner, outer], 1, Some(McIdentifier::new("obj")), Some(McIdentifier::new("seg")), None, true);
    assert_eq!(reg.typedef_list.len(), 2);
    let names: Vec<&str> = (0..2).map(|k| reg.typedef_list.get(k).unwrap().get_name()).collect();
    assert_eq!(names, vec!["Outer", "Inner"]);
    let outer = reg.typedef_list.find_typedef("Outer").unwrap();
    assert_eq!(outer.fields.len(), 2);
    assert_eq!(outer.fields.get(0).dim_type.mc_support_data.object_type, McObjectType::Characteristic);
    assert_eq!(outer.fields.get(1).dim_type.mc_support_data.object_type, McObjectType::Measurement);
    assert_eq!(outer.fields.get(1).offset, 4);
    assert_eq!(reg.instance_list.len(), 1);
    let obj = reg.instance_list.get(0);
    assert_eq!(obj.get_name(), "obj");
    assert_eq!(obj.get_typedef_name(), Some("Outer"));
    // Registering again adds nothing
    register_struct(&mut reg, &vec![StructModel { name: McIdentifier::new("Inner"), size: 4, fields: vec![] }], 0, None, Some(McIdentifier::new("seg")), None, true);
    assert_eq!(reg.typedef_list.len(), 2);
}
