use keystone::schema::{FieldDescriptor, Schema, Ty, Value, Visibility};

fn field(name: &str, ty: Ty, default: Value) -> FieldDescriptor {
    FieldDescriptor {
        visibility: Visibility::Public,
        name: String::from(name),
        ty,
        default,
        doc: None,
    }
}

fn two_field_schema() -> Schema {
    Schema::define(vec![
        field("thing", Ty::Integer, Value::Int(1)),
        field("foo", Ty::Boolean, Value::Bool(false)),
    ])
    .unwrap()
}

#[test]
fn default_instance_holds_each_field_default() {
    let s = two_field_schema();
    let inst = s.default_instance();
    assert_eq!(inst.values.len(), 2);
    assert!(inst.values[0].equals(&Value::Int(1)));
    assert!(inst.values[1].equals(&Value::Bool(false)));
}

#[test]
fn default_provider_returns_what_the_instance_holds() {
    let s = two_field_schema();
    let inst = s.default_instance();
    let thing = s.default_provider(&String::from("thing")).unwrap();
    let foo = s.default_provider(&String::from("foo")).unwrap();
    assert!(thing.equals(&inst.values[0]));
    assert!(foo.equals(&inst.values[1]));
}

#[test]
fn default_provider_gives_declared_defaults() {
    let s = two_field_schema();
    let thing = s.default_provider(&String::from("thing")).unwrap();
    let foo = s.default_provider(&String::from("foo")).unwrap();
    assert!(thing.equals(&Value::Int(1)));
    assert!(foo.equals(&Value::Bool(false)));
}

#[test]
fn default_provider_knows_no_absent_field() {
    let s = two_field_schema();
    assert!(s.default_provider(&String::from("bar")).is_none());
}

#[test]
fn default_instances_share_no_state() {
    let s = Schema::define(vec![
        field("items", Ty::List, Value::List(vec![1, 2])),
        field("n", Ty::Integer, Value::Int(7)),
    ])
    .unwrap();
    let mut a = s.default_instance();
    let b = s.default_instance();
    a.set_value(0, Value::List(vec![9, 9, 9]));
    a.set_value(1, Value::Int(-1));
    assert!(b.values[0].equals(&Value::List(vec![1, 2])));
    assert!(b.values[1].equals(&Value::Int(7)));
    assert!(a.values[0].equals(&Value::List(vec![9, 9, 9])));
    assert!(a.values[1].equals(&Value::Int(-1)));
}

#[test]
fn set_value_changes_one_field_only() {
    let s = two_field_schema();
    let mut inst = s.default_instance();
    inst.set_value(1, Value::Bool(true));
    assert!(inst.values[0].equals(&Value::Int(1)));
    assert!(inst.values[1].equals(&Value::Bool(true)));
}
