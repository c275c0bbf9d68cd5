use keystone::convert::ShortToString;

#[test]
fn s_shortens_to_owned_on_str() {
    let string: String = "foo".s();
    let owned: String = "foo".to_owned();
    assert_eq!(string, owned);
}

#[test]
fn s_keeps_the_characters() {
    assert_eq!("".s(), String::new());
    assert_eq!("a b c".s(), String::from("a b c"));
}
