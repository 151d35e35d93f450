use rss::literal::{read_number, ReadNumber};
use rss::number::Number;
use rss::types::Type;

fn units(n: i128) -> Number {
    Number::from_units(n).unwrap()
}

#[test]
fn type_names_round_trip() {
    let all = [
        (Type::Int, "int"),
        (Type::Float, "float"),
        (Type::String, "string"),
        (Type::Boolean, "bool"),
        (Type::Void, "void"),
        (Type::List, "list"),
        (Type::Tuple, "tuple"),
    ];
    for (tag, name) in all {
        assert_eq!(tag.to_string(), name);
        assert_eq!(Type::to_type(name), tag);
    }
}

#[test]
fn unknown_type_name_is_void() {
    assert_eq!(Type::to_type("number"), Type::Void);
    assert_eq!(Type::to_type(""), Type::Void);
    assert_eq!(Type::to_type("Int"), Type::Void);
}

#[test]
fn whole_numbers_have_a_billion_units() {
    assert_eq!(Number::from_int(5).units(), 5_000_000_000);
    assert_eq!(Number::from_int(-3).units(), -3_000_000_000);
    assert_eq!(Number::from_int(i64::MIN).units(), -9_223_372_036_854_775_808_000_000_000);
}

#[test]
fn range_ends_at_two_to_the_sixty_third() {
    assert!(Number::from_units(9_223_372_036_854_775_808_000_000_000).is_some());
    assert!(Number::from_units(9_223_372_036_854_775_808_000_000_001).is_none());
    assert!(Number::from_units(-9_223_372_036_854_775_808_000_000_001).is_none());
}

#[test]
fn sums_and_differences() {
    let a = units(1_500_000_000);
    let b = units(250_000_000);
    assert_eq!(a.plus(&b), Some(units(1_750_000_000)));
    assert_eq!(a.minus(&b), Some(units(1_250_000_000)));
    assert_eq!(b.minus(&a), Some(units(-1_250_000_000)));
    let top = units(9_223_372_036_854_775_808_000_000_000);
    assert_eq!(top.plus(&units(1)), None);
    assert_eq!(top.negated().minus(&units(1)), None);
}

#[test]
fn products_round_toward_zero() {
    assert_eq!(units(1_500_000_000).times(&units(2_000_000_000)), Some(units(3_000_000_000)));
    assert_eq!(units(1).times(&units(500_000_000)), Some(units(0)));
    assert_eq!(units(-1).times(&units(500_000_000)), Some(units(0)));
    assert_eq!(units(-3).times(&units(500_000_000)), Some(units(-1)));
    let top = units(9_223_372_036_854_775_808_000_000_000);
    assert_eq!(top.times(&Number::from_int(2)), None);
    assert_eq!(top.times(&top), None);
    assert_eq!(top.times(&Number::from_int(1)), Some(top));
}

#[test]
fn quotients_round_toward_zero() {
    let one = Number::from_int(1);
    assert_eq!(one.divided_by(&Number::from_int(2)), Some(units(500_000_000)));
    assert_eq!(one.divided_by(&Number::from_int(3)), Some(units(333_333_333)));
    assert_eq!(one.negated().divided_by(&Number::from_int(3)), Some(units(-333_333_333)));
    assert_eq!(one.divided_by(&Number::zero()), None);
    assert_eq!(one.divided_by(&units(1)), Some(Number::from_int(1_000_000_000)));
    let top = units(9_223_372_036_854_775_808_000_000_000);
    assert_eq!(top.divided_by(&units(1)), None);
}

#[test]
fn remainders_take_the_sign_of_the_dividend() {
    let seven = Number::from_int(7);
    let two = Number::from_int(2);
    assert_eq!(seven.remainder(&two), Some(Number::from_int(1)));
    assert_eq!(seven.negated().remainder(&two), Some(Number::from_int(-1)));
    assert_eq!(seven.remainder(&two.negated()), Some(Number::from_int(1)));
    assert_eq!(units(5_500_000_000).remainder(&two), Some(units(1_500_000_000)));
    assert_eq!(seven.remainder(&Number::zero()), None);
}

#[test]
fn powers_by_squaring() {
    let two = Number::from_int(2);
    assert_eq!(two.power(0), Some(Number::from_int(1)));
    assert_eq!(two.power(10), Some(Number::from_int(1024)));
    assert_eq!(two.power(62), Some(Number::from_int(1 << 62)));
    assert_eq!(two.power(64), None);
    assert_eq!(units(1_500_000_000).power(2), Some(units(2_250_000_000)));
    assert_eq!(Number::from_int(1).power(u64::MAX), Some(Number::from_int(1)));
    assert_eq!(Number::zero().power(0), Some(Number::from_int(1)));
}

#[test]
fn whole_part_and_wholeness() {
    assert_eq!(units(2_999_999_999).whole_part(), 2);
    assert_eq!(units(-2_999_999_999).whole_part(), -2);
    assert!(Number::from_int(4).is_whole());
    assert!(!units(4_000_000_001).is_whole());
    assert!(units(0).is_zero());
    assert!(!units(1).is_zero());
    assert!(units(1).less_than(&units(2)));
    assert!(!units(2).less_than(&units(2)));
    assert!(units(2).equals(&units(2)));
}

#[test]
fn numbers_are_written_in_decimal() {
    assert_eq!(Number::from_int(0).to_string(), "0");
    assert_eq!(Number::from_int(120).to_string(), "120");
    assert_eq!(Number::from_int(-7).to_string(), "-7");
    assert_eq!(units(500_000_000).to_string(), "0.5");
    assert_eq!(units(-1_250_000_000).to_string(), "-1.25");
    assert_eq!(units(1).to_string(), "0.000000001");
    assert_eq!(units(10_000_000_010).to_string(), "10.00000001");
    assert_eq!(
        units(9_223_372_036_854_775_808_000_000_000).to_string(),
        "9223372036854775808"
    );
}

#[test]
fn booleans_are_one_and_zero() {
    assert_eq!(Number::from_bool(true), Number::from_int(1));
    assert_eq!(Number::from_bool(false), Number::zero());
}

#[test]
fn tokens_are_read_as_numbers() {
    assert_eq!(read_number("5"), ReadNumber::Int(5));
    assert_eq!(read_number("007"), ReadNumber::Int(7));
    assert_eq!(read_number("9223372036854775807"), ReadNumber::Int(i64::MAX));
    assert_eq!(read_number("9223372036854775808"), ReadNumber::OutOfRange);
    assert_eq!(read_number("5.0"), ReadNumber::Float(Number::from_int(5)));
    assert_eq!(read_number("3.14"), ReadNumber::Float(units(3_140_000_000)));
    assert_eq!(read_number("0.000000001"), ReadNumber::Float(units(1)));
    assert_eq!(read_number("0.0000000019"), ReadNumber::Float(units(1)));
    assert_eq!(
        read_number("9223372036854775808.0"),
        ReadNumber::Float(units(9_223_372_036_854_775_808_000_000_000))
    );
    assert_eq!(read_number("9223372036854775808.5"), ReadNumber::OutOfRange);
    assert_eq!(read_number("99999999999999999999.5"), ReadNumber::OutOfRange);
}

#[test]
fn other_tokens_are_no_numbers() {
    for token in ["", ".", "5.", ".5", "1.2.3", "x", "1x", "-1", "1e3", "1 "] {
        assert_eq!(read_number(token), ReadNumber::NotANumber);
    }
}
