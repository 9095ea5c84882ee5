use xcp_lite::a2l_load::{
    get_matrix_dim, registry_load_a2lfile, A2lCharacteristic, A2lComponent, A2lInstance, A2lMeasurement, A2lModule, A2lSegment,
    A2lStructure, A2lTypedefLeaf,
};
use xcp_lite::mc_address::McAddrMode;
use xcp_lite::mc_support::McObjectType;
use xcp_lite::mc_text::{McIdentifier, McText};
use xcp_lite::mc_type::McValueType;
use xcp_lite::registry::Registry;

fn module(project_number: Option<&str>) -> A2lModule {
    A2lModule {
        has_version: true,
        project_name: "demo".to_string(),
        project_number: project_number.map(|p| p.to_string()),
        epk: Some("EPK_1".to_string()),
        epk_addrs: vec![0x80000000],
        segments: vec![],
        characteristics: vec![],
        measurements: vec![],
        structures: vec![],
        leaves: vec![],
        instances: vec![],
    }
}

fn segment(name: &'static str, addr: u32, size: u32) -> A2lSegment {
    A2lSegment { name: McIdentifier::new(name), addr, size }
}

fn characteristic(name: &'static str, addr: u32, addr_ext: u8) -> A2lCharacteristic {
    A2lCharacteristic {
        name: McIdentifier::new(name),
        comment: McText::new("a gain"),
        unit: Some(McText::new("V")),
        record_layout: "U16".to_string(),
        matrix_dim: vec![4],
        axis_refs: vec![Some(McIdentifier::new("axis_x"))],
        addr,
        addr_ext,
        event_id: None,
    }
}

fn measurement(name: &'static str, addr: u32, addr_ext: u8, event_id: Option<u16>) -> A2lMeasurement {
    A2lMeasurement {
        name: McIdentifier::new(name),
        comment: McText::new("a signal"),
        unit: None,
        value_type: McValueType::Float32Ieee,
        matrix_dim: vec![],
        addr,
        addr_ext,
        event_id,
    }
}

// Without an ASAP2_VERSION nothing is loaded
#[test]
fn load_without_version() {
    let mut m = module(None);
    m.has_version = false;
    m.segments = vec![segment("seg", 0x1000, 16)];
    let mut reg = Registry::new();
    let r = reg.load_a2lfile(&m);
    assert_eq!(r, Err("A2l Version not found".to_string()));
    assert_eq!(reg.cal_seg_list.len(), 0);
    assert_eq!(reg.app_name, "");
}

// A generic A2L: application, EPK, segments counted from 1, objects at their A2L addresses
#[test]
fn load_generic_module() {
    let mut m = module(None);
    m.segments = vec![segment("seg_a", 0x1000, 16), segment("seg_b", 0x2000, 16), segment("seg_a", 0x3000, 16)];
    m.characteristics = vec![characteristic("gain", 0x1004, 0)];
    m.measurements = vec![measurement("signal", 0x4000, 1, Some(3)), measurement("counter", 0x4004, 1, None)];
    let mut reg = Registry::new();
    assert_eq!(registry_load_a2lfile(&mut reg, &m), Ok(()));
    assert_eq!(reg.app_name, "demo");
    assert_eq!(reg.app_description, "created from a2lfile project demo");
    assert_eq!(reg.epk, "EPK_1");
    assert_eq!(reg.epk_addr, 0x80000000);
    assert_eq!(reg.cal_seg_list.len(), 2);
    assert_eq!(reg.cal_seg_list.get(0).index, 1);
    assert_eq!(reg.cal_seg_list.get(1).get_name(), "seg_b");
    assert_eq!(reg.cal_seg_list.get(1).index, 2);
    assert_eq!(reg.instance_list.len(), 3);
    let g = reg.instance_list.get(0);
    assert_eq!(g.get_name(), "gain");
    assert_eq!(g.dim_type.mc_support_data.object_type, McObjectType::Characteristic);
    assert!(matches!(g.dim_type.value_type, McValueType::Uword));
    assert_eq!((g.dim_type.x_dim, g.dim_type.y_dim), (4, 1));
    assert_eq!(g.dim_type.mc_support_data.unit.as_str(), "V");
    assert_eq!(g.dim_type.mc_support_data.x_axis_ref.map(|r| r.as_str()), Some("axis_x"));
    assert_eq!(g.address.get_addr_mode(), McAddrMode::A2l);
    assert_eq!(g.address.get_raw_a2l_addr(), (0, 0x1004));
    let s = reg.instance_list.get(1);
    assert_eq!(s.address.get_addr_mode(), McAddrMode::A2lEvent);
    assert_eq!(s.address.get_event_id(), Some(3));
    assert_eq!(s.dim_type.mc_support_data.object_type, McObjectType::Measurement);
    let c = reg.instance_list.get(2);
    assert_eq!(c.address.get_addr_mode(), McAddrMode::A2l);
    assert_eq!(c.address.get_raw_a2l_addr(), (1, 0x4004));
}

// A Vector A2L: the EPK segment is left out, indices come from the address, objects are
// segment or event relative
#[test]
fn load_vector_module() {
    let mut m = module(Some("VECTOR"));
    m.segments = vec![segment("epk", 0x80000000, 8), segment("params", 0x80010000, 64)];
    m.characteristics = vec![characteristic("gain", 0x80010008, 0)];
    m.measurements = vec![measurement("signal", 0x00050010, 2, Some(5))];
    let mut reg = Registry::new();
    assert_eq!(registry_load_a2lfile(&mut reg, &m), Ok(()));
    assert_eq!(reg.cal_seg_list.len(), 1);
    assert_eq!(reg.cal_seg_list.get(0).get_name(), "params");
    assert_eq!(reg.cal_seg_list.get(0).index, 0);
    let g = reg.instance_list.get(0);
    assert_eq!(g.address.get_addr_mode(), McAddrMode::Cal);
    assert_eq!(g.address.get_calseg_name().map(|n| n.as_str()), Some("params"));
    assert_eq!(g.address.get_addr_offset(), 8);
    let s = reg.instance_list.get(1);
    assert_eq!(s.address.get_addr_mode(), McAddrMode::Dyn);
    assert_eq!(s.address.get_event_id(), Some(5));
    assert_eq!(s.address.get_addr_offset(), 0x10);
}

// Typedef structures get their components, which typedef leaves complete; typedef instances
// refer to them
#[test]
fn load_typedefs() {
    let mut m = module(None);
    m.structures = vec![A2lStructure {
        name: McIdentifier::new("Point"),
        size: 8,
        components: vec![
            A2lComponent { name: McIdentifier::new("x"), component_type: McIdentifier::new("T_x"), matrix_dim: vec![], offset: 0 },
            A2lComponent { name: McIdentifier::new("y"), component_type: McIdentifier::new("T_y"), matrix_dim: vec![2, 3], offset: 0x10004 },
        ],
    }];
    m.leaves = vec![A2lTypedefLeaf {
        name: McIdentifier::new("T_x"),
        object_type: McObjectType::Measurement,
        value_type: McValueType::Slong,
        record_layout: String::new(),
        matrix_dim: vec![],
        comment: McText::new("x coordinate"),
        unit: Some(McText::new("mm")),
    }];
    m.instances = vec![A2lInstance {
        name: McIdentifier::new("p"),
        comment: McText::new("a point"),
        type_ref: McIdentifier::new("Point"),
        matrix_dim: vec![],
        addr: 0x5000,
        addr_ext: 1,
        event_id: None,
    }];
    let mut reg = Registry::new();
    assert_eq!(registry_load_a2lfile(&mut reg, &m), Ok(()));
    assert_eq!(reg.typedef_list.len(), 1);
    let t = reg.typedef_list.get(0).unwrap();
    assert_eq!(t.get_name(), "Point");
    assert_eq!(t.size, 8);
    assert_eq!(t.fields.len(), 2);
    let x = t.fields.get(0);
    assert!(matches!(x.dim_type.value_type, McValueType::Slong));
    assert_eq!(x.mc_support_data.object_type, McObjectType::Measurement);
    assert_eq!(x.mc_support_data.unit.as_str(), "mm");
    let y = t.fields.get(1);
    assert_eq!(y.get_typedef_name(), Some("T_y"));
    assert_eq!((y.dim_type.x_dim, y.dim_type.y_dim), (2, 3));
    assert_eq!(y.get_offset(), 4);
    let p = reg.instance_list.get(0);
    assert_eq!(p.get_name(), "p");
    assert_eq!(p.dim_type.mc_support_data.object_type, McObjectType::Characteristic);
    assert_eq!(p.dim_type.mc_support_data.comment.as_str(), "a point");
}

// More than two matrix dimensions are not supported and give 1 x 1
#[test]
fn matrix_dimensions() {
    assert_eq!(get_matrix_dim(&vec![]), (1, 1));
    assert_eq!(get_matrix_dim(&vec![5]), (5, 1));
    assert_eq!(get_matrix_dim(&vec![5, 6]), (5, 6));
    assert_eq!(get_matrix_dim(&vec![5, 6, 7]), (1, 1));
}
