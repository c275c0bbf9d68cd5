use keystone::schema::{FieldDescriptor, Schema, SchemaError, Ty, Value, Visibility};

fn field(name: &str, ty: Ty, default: Value) -> FieldDescriptor {
    FieldDescriptor {
        visibility: Visibility::Public,
        name: String::from(name),
        ty,
        default,
        doc: None,
    }
}

#[test]
fn define_accepts_valid_schema() {
    let s = Schema::define(vec![
        field("thing", Ty::Integer, Value::Int(1)),
        field("foo", Ty::Boolean, Value::Bool(false)),
    ])
    .unwrap();
    assert_eq!(s.fields.len(), 2);
    assert_eq!(s.fields[0].name, "thing");
    assert_eq!(s.fields[1].name, "foo");
}

#[test]
fn define_rejects_duplicate_name() {
    let r = Schema::define(vec![
        field("thing", Ty::Integer, Value::Int(1)),
        field("foo", Ty::Boolean, Value::Bool(false)),
        field("thing", Ty::Integer, Value::Int(2)),
    ]);
    assert_eq!(r.err(), Some(SchemaError::DuplicateFieldName { index: 2 }));
}

#[test]
fn define_rejects_ill_typed_default() {
    let r = Schema::define(vec![
        field("thing", Ty::Integer, Value::Int(1)),
        field("foo", Ty::Boolean, Value::Int(0)),
    ]);
    assert_eq!(r.err(), Some(SchemaError::DefaultTypeMismatch { index: 1 }));
}

#[test]
fn define_reports_first_defect_in_declaration_order() {
    let r = Schema::define(vec![
        field("a", Ty::Integer, Value::Bool(true)),
        field("a", Ty::Integer, Value::Int(1)),
    ]);
    assert_eq!(r.err(), Some(SchemaError::DefaultTypeMismatch { index: 0 }));
}

#[test]
fn duplicate_takes_precedence_over_mismatch_at_one_position() {
    let r = Schema::define(vec![
        field("a", Ty::Integer, Value::Int(1)),
        field("a", Ty::Integer, Value::Bool(true)),
    ]);
    assert_eq!(r.err(), Some(SchemaError::DuplicateFieldName { index: 1 }));
}

#[test]
fn define_accepts_empty_schema() {
    let s = Schema::define(Vec::new()).unwrap();
    assert_eq!(s.fields.len(), 0);
}

#[test]
fn define_accepts_every_value_kind() {
    let s = Schema::define(vec![
        field("n", Ty::Integer, Value::Int(-3)),
        field("b", Ty::Boolean, Value::Bool(true)),
        field("t", Ty::Text, Value::Text(String::from("hi"))),
        field("l", Ty::List, Value::List(vec![1, 2, 3])),
    ]);
    assert!(s.is_ok());
}

#[test]
fn errors_describe_themselves() {
    let e = Schema::define(vec![
        field("a", Ty::Integer, Value::Int(1)),
        field("a", Ty::Integer, Value::Int(2)),
    ])
    .err().unwrap();
    let text: String = e.describe().into_iter().collect();
    assert_eq!(text, "duplicate field name at position 1");
    let e = Schema::define(vec![field("a", Ty::Boolean, Value::Int(12))]).err().unwrap();
    let text: String = e.describe().into_iter().collect();
    assert_eq!(text, "default value does not fit the declared type at position 0");
    let e = SchemaError::UnknownCapability { index: 10 };
    let text: String = e.describe().into_iter().collect();
    assert_eq!(text, "unknown capability at position 10");
}

#[test]
fn value_equals_compares_content() {
    assert!(Value::Int(4).equals(&Value::Int(4)));
    assert!(!Value::Int(4).equals(&Value::Int(5)));
    assert!(!Value::Int(1).equals(&Value::Bool(true)));
    assert!(Value::Text(String::from("a")).equals(&Value::Text(String::from("a"))));
    assert!(!Value::Text(String::from("a")).equals(&Value::Text(String::from("b"))));
    assert!(Value::List(vec![1, 2]).equals(&Value::List(vec![1, 2])));
    assert!(!Value::List(vec![1, 2]).equals(&Value::List(vec![1, 2, 3])));
}
