use keystone::codec::SerializedField;
use keystone::schema::{FieldDescriptor, Schema, Ty, Value, Visibility};

fn field(name: &str, ty: Ty, default: Value) -> FieldDescriptor {
    FieldDescriptor {
        visibility: Visibility::Public,
        name: String::from(name),
        ty,
        default,
        doc: None,
    }
}

fn same_instance(a: &keystone::record::RecordInstance, b: &keystone::record::RecordInstance) -> bool {
    a.values.len() == b.values.len()
        && a.values.iter().zip(b.values.iter()).all(|(x, y)| x.equals(y))
}

fn two_field_schema() -> Schema {
    Schema::define(vec![
        field("thing", Ty::Integer, Value::Int(1)),
        field("foo", Ty::Boolean, Value::Bool(false)),
    ])
    .unwrap()
}

#[test]
fn serialize_emits_one_entry_per_field_in_order() {
    let s = two_field_schema();
    let inst = s.default_instance();
    let entries = s.serialize(&inst);
    assert_eq!(entries.len(), 2);
    assert_eq!(entries[0].name, "thing");
    assert!(entries[0].value.equals(&Value::Int(1)));
    assert_eq!(entries[1].name, "foo");
    assert!(entries[1].value.equals(&Value::Bool(false)));
}

#[test]
fn deserialize_reproduces_a_full_serialization() {
    let s = two_field_schema();
    let mut inst = s.default_instance();
    inst.set_value(0, Value::Int(42));
    inst.set_value(1, Value::Bool(true));
    let entries = s.serialize(&inst);
    let back = s.deserialize(&entries);
    assert!(same_instance(&back, &inst));
}

#[test]
fn deserialize_fills_a_dropped_field_from_its_default_provider() {
    let s = two_field_schema();
    let original = s.default_instance();
    let mut entries = s.serialize(&original);
    entries.remove(1);
    let revived = s.deserialize(&entries);
    assert!(same_instance(&revived, &original));
    let provided = s.default_provider(&String::from("foo")).unwrap();
    assert!(revived.values[1].equals(&provided));
}

#[test]
fn deserialize_fills_every_field_when_input_is_empty() {
    let s = two_field_schema();
    let revived = s.deserialize(&Vec::new());
    assert!(same_instance(&revived, &s.default_instance()));
}

#[test]
fn deserialize_ignores_entries_the_schema_lacks() {
    let s = two_field_schema();
    let original = s.default_instance();
    let mut entries = s.serialize(&original);
    entries.push(SerializedField { name: String::from("bar"), value: Value::Int(9) });
    let revived = s.deserialize(&entries);
    assert!(same_instance(&revived, &original));
}

#[test]
fn deserialize_falls_back_on_an_ill_typed_entry() {
    let s = two_field_schema();
    let entries = vec![
        SerializedField { name: String::from("thing"), value: Value::Bool(true) },
        SerializedField { name: String::from("foo"), value: Value::Bool(true) },
    ];
    let revived = s.deserialize(&entries);
    assert!(revived.values[0].equals(&Value::Int(1)));
    assert!(revived.values[1].equals(&Value::Bool(true)));
}

#[test]
fn deserialize_takes_the_first_entry_of_a_name() {
    let s = two_field_schema();
    let entries = vec![
        SerializedField { name: String::from("thing"), value: Value::Int(5) },
        SerializedField { name: String::from("thing"), value: Value::Int(6) },
    ];
    let revived = s.deserialize(&entries);
    assert!(revived.values[0].equals(&Value::Int(5)));
}
