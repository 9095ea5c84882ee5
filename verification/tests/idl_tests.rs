use xcp_lite::idl_generator::{translate_idl_struct, IdlStruct, IdlStructField, IdlStructFieldVec};

// The annotation text, written out with a format string
fn expected(name: &str, fields: &[(&str, &str)]) -> String {
    let lowercase_name = name.to_ascii_lowercase();
    let fields_str = fields.iter().map(|(n, t)| format!("    {} {};", t, n)).collect::<Vec<_>>().join("\n");
    format!(
        r#"
        /begin ANNOTATION ANNOTATION_LABEL "ObjectDescription" ANNOTATION_ORIGIN "application/dds" /begin ANNOTATION_TEXT
            "<DynamicObject> "
            "<RootType>Vector::{name}Vector</RootType>"
            "</DynamicObject>"
            "module Vector {{"
            "  struct {name} {{"
            "{fields_str}"
            "  }};"
            "  struct {name}Vector {{"
            "    sequence<{name}> {lowercase_name}s;"
            "}}; }};"
        /end ANNOTATION_TEXT /end ANNOTATION
        "#
    )
}

#[test]
fn idl_translate_struct() {
    let mut fields = IdlStructFieldVec::with_capacity(3);
    fields.push(IdlStructField::new("x".to_string(), "double".to_string()));
    fields.push(IdlStructField::new("y".to_string(), "double".to_string()));
    fields.push(IdlStructField::new("id".to_string(), "uint32".to_string()));
    let s = IdlStruct::new("Point".to_string(), fields);
    assert_eq!(s.name(), "Point");
    assert_eq!(s.fields().iter().len(), 3);
    assert_eq!(s.fields().iter()[2].datatype(), "uint32");
    assert_eq!(s.fields().iter()[2].name(), "id");
    let text = translate_idl_struct(&s);
    assert_eq!(text, expected("Point", &[("x", "double"), ("y", "double"), ("id", "uint32")]));
    assert!(text.contains("sequence<Point> points;"));
}

#[test]
fn idl_translate_struct_without_fields() {
    let s = IdlStruct::new("Empty".to_string(), IdlStructFieldVec::new());
    assert_eq!(translate_idl_struct(&s), expected("Empty", &[]));
}
