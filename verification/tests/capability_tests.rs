use keystone::capability::{CapabilitySet, RecordType};
use keystone::order::Comparison;
use keystone::schema::{FieldDescriptor, SchemaError, Ty, Value, Visibility};

fn field(name: &str, ty: Ty, default: Value) -> FieldDescriptor {
    FieldDescriptor {
        visibility: Visibility::Public,
        name: String::from(name),
        ty,
        default,
        doc: None,
    }
}

fn two_fields() -> Vec<FieldDescriptor> {
    vec![
        field("thing", Ty::Integer, Value::Int(1)),
        field("foo", Ty::Boolean, Value::Bool(false)),
    ]
}

fn caps(names: &[&str]) -> Vec<String> {
    names.iter().map(|n| String::from(*n)).collect()
}

#[test]
fn generate_attaches_exactly_the_requested_set() {
    let rt = RecordType::generate(two_fields(), caps(&["equality", "ordering"])).unwrap();
    assert_eq!(
        rt.capabilities,
        CapabilitySet { equality: true, duplication: false, ordering: true, formatting: false }
    );
}

#[test]
fn generate_rejects_unknown_capability() {
    let r = RecordType::generate(two_fields(), caps(&["equality", "frobnicate"]));
    assert_eq!(r.err(), Some(SchemaError::UnknownCapability { index: 1 }));
}

#[test]
fn generate_reports_field_defects_before_capability_defects() {
    let fields = vec![
        field("a", Ty::Integer, Value::Int(1)),
        field("a", Ty::Integer, Value::Int(2)),
    ];
    let r = RecordType::generate(fields, caps(&["frobnicate"]));
    assert_eq!(r.err(), Some(SchemaError::DuplicateFieldName { index: 1 }));
}

#[test]
fn equality_compares_default_instances_equal() {
    let rt = RecordType::generate(two_fields(), caps(&["equality"])).unwrap();
    let a = rt.default_instance();
    let b = rt.default_instance();
    assert_eq!(rt.instances_equal(&a, &b), Some(true));
}

#[test]
fn record_type_exposes_constructor_and_providers() {
    let rt = RecordType::generate(two_fields(), caps(&[])).unwrap();
    let a = rt.default_instance();
    assert!(a.values[0].equals(&Value::Int(1)));
    let p = rt.default_provider(&String::from("foo")).unwrap();
    assert!(p.equals(&a.values[1]));
    assert!(rt.default_provider(&String::from("nothing")).is_none());
}

#[test]
fn equality_is_not_available_unless_requested() {
    let rt = RecordType::generate(two_fields(), caps(&[])).unwrap();
    let a = rt.schema.default_instance();
    let b = rt.schema.default_instance();
    assert_eq!(rt.instances_equal(&a, &b), None);
}

#[test]
fn equality_detects_a_differing_field() {
    let rt = RecordType::generate(two_fields(), caps(&["equality"])).unwrap();
    let a = rt.schema.default_instance();
    let mut b = rt.schema.default_instance();
    b.set_value(0, Value::Int(2));
    assert_eq!(rt.instances_equal(&a, &b), Some(false));
}

#[test]
fn duplication_copies_an_instance() {
    let rt = RecordType::generate(two_fields(), caps(&["duplication", "equality"])).unwrap();
    let a = rt.schema.default_instance();
    let copy = rt.duplicate(&a).unwrap();
    assert_eq!(rt.instances_equal(&a, &copy), Some(true));
}

#[test]
fn duplication_is_not_available_unless_requested() {
    let rt = RecordType::generate(two_fields(), caps(&["equality"])).unwrap();
    let a = rt.schema.default_instance();
    assert!(rt.duplicate(&a).is_none());
}

#[test]
fn ordering_compares_field_by_field() {
    let rt = RecordType::generate(two_fields(), caps(&["ordering"])).unwrap();
    let a = rt.schema.default_instance();
    let b = rt.schema.default_instance();
    assert_eq!(rt.compare_instances(&a, &b), Some(Comparison::Equal));
    let mut c = rt.schema.default_instance();
    c.set_value(0, Value::Int(2));
    assert_eq!(rt.compare_instances(&a, &c), Some(Comparison::Less));
    assert_eq!(rt.compare_instances(&c, &a), Some(Comparison::Greater));
    let mut d = rt.schema.default_instance();
    d.set_value(1, Value::Bool(true));
    assert_eq!(rt.compare_instances(&a, &d), Some(Comparison::Less));
}

#[test]
fn ordering_is_not_available_unless_requested() {
    let rt = RecordType::generate(two_fields(), caps(&[])).unwrap();
    let a = rt.schema.default_instance();
    let b = rt.schema.default_instance();
    assert!(rt.compare_instances(&a, &b).is_none());
}

#[test]
fn ordering_on_text_and_lists_is_shortlex() {
    let fields = vec![
        field("t", Ty::Text, Value::Text(String::from("abc"))),
        field("l", Ty::List, Value::List(vec![1, 2])),
    ];
    let rt = RecordType::generate(fields, caps(&["ordering"])).unwrap();
    let a = rt.schema.default_instance();
    let mut longer = rt.schema.default_instance();
    longer.set_value(0, Value::Text(String::from("ab")));
    assert_eq!(rt.compare_instances(&longer, &a), Some(Comparison::Less));
    let mut bigger = rt.schema.default_instance();
    bigger.set_value(1, Value::List(vec![1, 3]));
    assert_eq!(rt.compare_instances(&a, &bigger), Some(Comparison::Less));
}

#[test]
fn formatting_renders_the_instance() {
    let rt = RecordType::generate(two_fields(), caps(&["formatting"])).unwrap();
    let a = rt.schema.default_instance();
    let text: String = rt.format_instance(&a).unwrap().into_iter().collect();
    assert_eq!(text, "{thing: 1, foo: false}");
}

#[test]
fn formatting_renders_every_value_kind() {
    let fields = vec![
        field("n", Ty::Integer, Value::Int(-1234)),
        field("b", Ty::Boolean, Value::Bool(true)),
        field("t", Ty::Text, Value::Text(String::from("hi"))),
        field("l", Ty::List, Value::List(vec![0, 10, 200])),
    ];
    let rt = RecordType::generate(fields, caps(&["formatting"])).unwrap();
    let a = rt.schema.default_instance();
    let text: String = rt.format_instance(&a).unwrap().into_iter().collect();
    assert_eq!(text, "{n: -1234, b: true, t: \"hi\", l: [0, 10, 200]}");
}

#[test]
fn formatting_renders_an_empty_schema_as_bare_braces() {
    let rt = RecordType::generate(Vec::new(), caps(&["formatting"])).unwrap();
    let a = rt.schema.default_instance();
    assert_eq!(a.values.len(), 0);
    let text: String = rt.format_instance(&a).unwrap().into_iter().collect();
    assert_eq!(text, "{}");
}

#[test]
fn ordering_puts_fewer_fields_first() {
    let rt = RecordType::generate(two_fields(), caps(&["ordering"])).unwrap();
    let a = rt.schema.default_instance();
    let mut short = rt.schema.default_instance();
    short.values.pop();
    assert_eq!(rt.compare_instances(&short, &a), Some(Comparison::Less));
}

#[test]
fn formatting_renders_the_extreme_integers() {
    let fields = vec![
        field("lo", Ty::Integer, Value::Int(i64::MIN)),
        field("hi", Ty::Integer, Value::Int(i64::MAX)),
        field("zero", Ty::Integer, Value::Int(0)),
    ];
    let rt = RecordType::generate(fields, caps(&["formatting"])).unwrap();
    let a = rt.schema.default_instance();
    let text: String = rt.format_instance(&a).unwrap().into_iter().collect();
    assert_eq!(text, "{lo: -9223372036854775808, hi: 9223372036854775807, zero: 0}");
}

#[test]
fn formatting_is_not_available_unless_requested() {
    let rt = RecordType::generate(two_fields(), caps(&["equality"])).unwrap();
    let a = rt.schema.default_instance();
    assert!(rt.format_instance(&a).is_none());
}
