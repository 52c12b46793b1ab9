use kong_rs::schema::{
    render, render_config, ConfigValue, FieldDecl, FieldType, RenderedConfigFieldVariant,
    SchemaError,
};

fn variants() -> FieldType {
    FieldType::Enumeration(vec!["Test1".to_string(), "Test2".to_string(), "Test3".to_string()])
}

#[test]
fn enumeration_renders_as_closed_string() {
    let r = render(variants(), None, false).unwrap();
    assert_eq!(r.ty, "string");
    assert_eq!(
        r.one_of,
        Some(vec!["Test1".to_string(), "Test2".to_string(), "Test3".to_string()])
    );
    assert!(r.elements.is_none());
    assert!(r.fields.is_none());
    assert_eq!(r.required, Some(true));
}

#[test]
fn literal_default_leaves_required_out() {
    let r = render(FieldType::Str, Some(ConfigValue::Str("x".to_string())), false).unwrap();
    assert_eq!(r.ty, "string");
    assert_eq!(r.required, None);
    assert!(matches!(r.default, Some(ConfigValue::Str(ref s)) if s == "x"));
}

#[test]
fn optional_field_is_not_required() {
    let r = render(FieldType::Optional(Box::new(FieldType::Bool)), None, false).unwrap();
    assert_eq!(r.ty, "boolean");
    assert_eq!(r.required, Some(false));
    assert!(r.default.is_none());
}

#[test]
fn plain_scalar_is_required() {
    let r = render(FieldType::Int, None, false).unwrap();
    assert_eq!(r.ty, "integer");
    assert_eq!(r.required, Some(true));
    assert!(r.default.is_none());
    let r = render(FieldType::Int, None, true).unwrap();
    assert_eq!(r.required, None);
}

#[test]
fn array_renders_its_elements() {
    let default = ConfigValue::List(vec![ConfigValue::Int(42), ConfigValue::Int(69)]);
    let r = render(FieldType::Array(Box::new(FieldType::Int)), Some(default), false).unwrap();
    assert_eq!(r.ty, "array");
    assert_eq!(r.required, Some(true));
    assert!(matches!(r.default, Some(ConfigValue::List(ref v)) if v.len() == 2));
    let e = r.elements.unwrap();
    assert_eq!(e.ty, "integer");
    assert_eq!(e.required, None);
    assert!(e.default.is_none());
}

#[test]
fn nested_arrays_are_rejected() {
    let t = FieldType::Array(Box::new(FieldType::Array(Box::new(FieldType::Int))));
    assert_eq!(render(t, None, false).unwrap_err(), SchemaError::NestedArray);
    let t = FieldType::Array(Box::new(FieldType::Optional(Box::new(FieldType::Array(Box::new(
        FieldType::Str,
    ))))));
    assert_eq!(render(t, None, false).unwrap_err(), SchemaError::NestedArray);
}

fn example_config() -> Vec<FieldDecl> {
    let inner = vec![
        FieldDecl { name: "a".to_string(), ty: FieldType::Str, default: Some(ConfigValue::Str("Test".to_string())) },
        FieldDecl { name: "b".to_string(), ty: FieldType::Optional(Box::new(FieldType::Str)), default: None },
        FieldDecl { name: "c".to_string(), ty: variants(), default: None },
    ];
    vec![
        FieldDecl { name: "my_field".to_string(), ty: FieldType::Str, default: None },
        FieldDecl { name: "my_other_field".to_string(), ty: FieldType::Array(Box::new(FieldType::Int)), default: None },
        FieldDecl { name: "inner".to_string(), ty: FieldType::Record(inner), default: None },
    ]
}

fn summary(r: &RenderedConfigFieldVariant) -> String {
    format!("{:?}", r)
}

#[test]
fn record_renders_fields_in_order() {
    let r = render_config(example_config()).unwrap();
    assert_eq!(r.ty, "record");
    assert_eq!(r.required, Some(true));
    let fields = r.fields.as_ref().unwrap();
    let names: Vec<&str> = fields.iter().map(|f| f.0.as_str()).collect();
    assert_eq!(names, vec!["my_field", "my_other_field", "inner"]);
    assert_eq!(fields[0].1.ty, "string");
    assert_eq!(fields[1].1.ty, "array");
    let inner = &fields[2].1;
    assert_eq!(inner.ty, "record");
    let inner_fields = inner.fields.as_ref().unwrap();
    assert_eq!(inner_fields[0].1.required, None);
    assert_eq!(inner_fields[1].1.required, Some(false));
    assert_eq!(inner_fields[2].1.one_of.as_ref().unwrap().len(), 3);
}

#[test]
fn rendering_twice_gives_the_same_document() {
    let a = render_config(example_config()).unwrap();
    let b = render_config(example_config()).unwrap();
    assert_eq!(summary(&a), summary(&b));
}

#[test]
fn record_with_nested_array_field_is_rejected() {
    let decls = vec![FieldDecl {
        name: "bad".to_string(),
        ty: FieldType::Array(Box::new(FieldType::Array(Box::new(FieldType::Bool)))),
        default: None,
    }];
    assert_eq!(render_config(decls).unwrap_err(), SchemaError::NestedArray);
}
