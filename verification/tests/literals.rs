use rune_c::c_utilities::CNumericValue;
use rune_c::schema::{ArraySize, DefineDefinition, DefineValue, NumeralSystem, NumericLiteral};
use rune_c::text::{number_text, padded_number_text, same_text, text_length};

#[test]
fn positive_literals_keep_their_base() {
    let text = |value: u64, system: NumeralSystem| {
        NumericLiteral::PositiveInteger(value, system).to_string()
    };
    assert_eq!(text(255, NumeralSystem::Hexadecimal), "0xFF");
    assert_eq!(text(0, NumeralSystem::Hexadecimal), "0x00");
    assert_eq!(text(4096, NumeralSystem::Hexadecimal), "0x1000");
    assert_eq!(text(5, NumeralSystem::Binary), "0b101");
    assert_eq!(text(1, NumeralSystem::Binary), "0b01");
    assert_eq!(text(0, NumeralSystem::Binary), "0b00");
    assert_eq!(text(10, NumeralSystem::Decimal), "10");
    assert_eq!(text(0, NumeralSystem::Decimal), "0");
    assert_eq!(text(u64::MAX, NumeralSystem::Decimal), "18446744073709551615");
    assert_eq!(text(u64::MAX, NumeralSystem::Hexadecimal), "0xFFFFFFFFFFFFFFFF");
}

#[test]
fn negative_literals_keep_their_base() {
    let text = |value: i64, system: NumeralSystem| {
        NumericLiteral::NegativeInteger(value, system).to_string()
    };
    assert_eq!(text(-5, NumeralSystem::Decimal), "-5");
    assert_eq!(text(0, NumeralSystem::Decimal), "0");
    assert_eq!(text(-5, NumeralSystem::Hexadecimal), "-0x05");
    assert_eq!(text(-255, NumeralSystem::Hexadecimal), "-0xFF");
    assert_eq!(text(-5, NumeralSystem::Binary), "-0b101");
    assert_eq!(text(-1, NumeralSystem::Binary), "-0b01");
    assert_eq!(text(0, NumeralSystem::Hexadecimal), "-0x00");
}

#[test]
fn smallest_integer_is_written_without_overflow() {
    let text = |system: NumeralSystem| NumericLiteral::NegativeInteger(i64::MIN, system).to_string();
    assert_eq!(text(NumeralSystem::Decimal), "-9223372036854775808");
    assert_eq!(text(NumeralSystem::Hexadecimal), "-0x8000000000000000");
    let mut binary = String::from("-0b1");
    binary.push_str(&"0".repeat(63));
    assert_eq!(text(NumeralSystem::Binary), binary);
}

#[test]
fn boolean_and_float_literals() {
    assert_eq!(NumericLiteral::Boolean(true).to_string(), "true");
    assert_eq!(NumericLiteral::Boolean(false).to_string(), "false");
    let bits = 1.5f64.to_bits();
    assert_eq!(NumericLiteral::Float(bits, String::from("1.5")).to_string(), "1.5");
}

#[test]
fn array_sizes_keep_their_base() {
    assert_eq!(ArraySize::Integer(16, NumeralSystem::Hexadecimal).to_string(), "0x10");
    assert_eq!(ArraySize::Integer(5, NumeralSystem::Hexadecimal).to_string(), "0x05");
    assert_eq!(ArraySize::Integer(2, NumeralSystem::Binary).to_string(), "0b10");
    assert_eq!(ArraySize::Integer(1, NumeralSystem::Binary).to_string(), "0b1");
    assert_eq!(ArraySize::Integer(3, NumeralSystem::Decimal).to_string(), "3");
    let definition = DefineDefinition {
        name: String::from("BUFFER_SIZE"),
        value: DefineValue::NumericLiteral(NumericLiteral::PositiveInteger(
            8,
            NumeralSystem::Decimal,
        )),
        comment: None,
        redefinition: None,
    };
    assert_eq!(ArraySize::UserDefinition(definition).to_string(), "BUFFER_SIZE");
}

#[test]
fn required_width_follows_the_leading_zero_bytes() {
    let width = |value: u64| {
        NumericLiteral::PositiveInteger(value, NumeralSystem::Decimal).requires_size()
    };
    assert_eq!(width(0), 1);
    assert_eq!(width(0xFF), 1);
    assert_eq!(width(0x100), 2);
    assert_eq!(width(0xFFFF), 2);
    assert_eq!(width(0x1_0000), 4);
    assert_eq!(width(0xFF_FFFF), 4);
    assert_eq!(width(0xFFFF_FFFF), 4);
    assert_eq!(width(0x1_0000_0000), 8);
    assert_eq!(width(u64::MAX), 8);
}

#[test]
fn required_width_of_other_literals() {
    assert_eq!(NumericLiteral::Boolean(true).requires_size(), 1);
    assert_eq!(NumericLiteral::NegativeInteger(-1, NumeralSystem::Decimal).requires_size(), 8);
    assert_eq!(NumericLiteral::NegativeInteger(i64::MIN, NumeralSystem::Decimal).requires_size(), 8);
    assert_eq!(NumericLiteral::NegativeInteger(0, NumeralSystem::Decimal).requires_size(), 1);
    assert_eq!(NumericLiteral::NegativeInteger(300, NumeralSystem::Decimal).requires_size(), 2);
    assert_eq!(NumericLiteral::Float(0, String::from("0")).requires_size(), 1);
    assert_eq!(NumericLiteral::Float(1.0f64.to_bits(), String::from("1")).requires_size(), 8);
    assert_eq!(NumericLiteral::Float((-0.0f64).to_bits(), String::from("-0")).requires_size(), 8);
}

#[test]
fn numbers_in_any_base() {
    assert_eq!(number_text(0, 10), "0");
    assert_eq!(number_text(1234567890, 10), "1234567890");
    assert_eq!(number_text(255, 16), "FF");
    assert_eq!(number_text(255, 2), "11111111");
    assert_eq!(number_text(8, 8), "10");
    assert_eq!(padded_number_text(5, 2, 8), "00000101");
    assert_eq!(padded_number_text(255, 16, 1), "FF");
    assert_eq!(padded_number_text(0, 10, 3), "000");
}

#[test]
fn text_helpers() {
    assert!(same_text("abc", "abc"));
    assert!(!same_text("abc", "abd"));
    assert!(!same_text("abc", "ab"));
    assert_eq!(text_length("abc"), 3);
    assert_eq!(text_length(""), 0);
    assert_eq!(text_length("é"), 2);
}
