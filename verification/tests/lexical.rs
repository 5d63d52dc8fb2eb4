use toysrust::parser::helper_combinators::ws;
use toysrust::parser::raw_res;

#[test]
fn identifier_test() {
    assert_eq!(raw_res::identifier("foo".as_bytes(), 0).unwrap(), (3, "foo".to_string()));
    assert_eq!(raw_res::identifier("_foo".as_bytes(), 0).unwrap(), (4, "_foo".to_string()));
    assert_eq!(
        raw_res::identifier("foo42_hello".as_bytes(), 0).unwrap(),
        (11, "foo42_hello".to_string())
    );
    assert!(raw_res::identifier("42foo".as_bytes(), 0).is_err());
}

#[test]
fn i64_test() {
    assert_eq!(raw_res::integer("42".as_bytes(), 0).unwrap(), (2, 42));
}

#[test]
fn integer_negative() {
    assert_eq!(raw_res::integer("-42".as_bytes(), 0).unwrap(), (3, -42));
}

#[test]
fn integer_largest_values() {
    assert_eq!(
        raw_res::integer("9223372036854775807".as_bytes(), 0).unwrap(),
        (19, i64::MAX)
    );
    assert_eq!(
        raw_res::integer("-9223372036854775808".as_bytes(), 0).unwrap(),
        (20, i64::MIN)
    );
}

#[test]
fn integer_out_of_range_is_rejected() {
    assert!(raw_res::integer("9223372036854775808".as_bytes(), 0).is_err());
    assert!(raw_res::integer("-9223372036854775809".as_bytes(), 0).is_err());
}

#[test]
fn integer_requires_a_digit() {
    assert!(raw_res::integer("-".as_bytes(), 0).is_err());
    assert!(raw_res::integer("x".as_bytes(), 0).is_err());
}

#[test]
fn identifier_stops_at_the_first_other_byte() {
    assert_eq!(raw_res::identifier("foo(bar)".as_bytes(), 0).unwrap(), (3, "foo".to_string()));
}

#[test]
fn ws_consumes_surrounding_whitespace() {
    let input = "hello";
    assert_eq!(ws(input.as_bytes(), 0), 0);

    let input = "\n            hello   world";
    let start = ws(input.as_bytes(), 0);
    assert_eq!(&input[start..start + 5], "hello");
    let after = ws(input.as_bytes(), start + 5);
    assert_eq!(&input[after..], "world");
}
