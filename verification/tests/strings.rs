use rationals::strings::hello;

#[test]
fn hello_should_make_a_greeting() {
    assert_eq!(hello("rust"), "Hello, rust".to_string());
}

#[test]
fn hello_with_an_empty_name_keeps_the_prefix() {
    assert_eq!(hello(""), "Hello, ".to_string());
}
