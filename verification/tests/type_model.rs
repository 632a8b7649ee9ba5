use rune_c::architecture::Architecture;
use rune_c::c_standard::CStandard;
use rune_c::c_utilities::{pascal_to_snake_case, pascal_to_uppercase, spaces, CPrimitive};
use rune_c::compiler_error::CompilerError;
use rune_c::schema::Primitive;

#[test]
fn architecture_from_value_accepts_32_and_64() {
    assert_eq!(Architecture::from_value(32), Ok(Architecture::_32Bit));
    assert_eq!(Architecture::from_value(64), Ok(Architecture::_64Bit));
    assert_eq!(Architecture::from_value(16), Err(CompilerError::InvalidArgument));
    assert_eq!(Architecture::from_value(0), Err(CompilerError::InvalidArgument));
}

#[test]
fn architecture_byte_size_is_word_size() {
    assert_eq!(Architecture::_32Bit.byte_size(), 4);
    assert_eq!(Architecture::_64Bit.byte_size(), 8);
    assert_eq!(Architecture::valid_values(), "64, 32");
}

#[test]
fn standard_from_string_accepts_both_cases() {
    assert_eq!(CStandard::from_string("c89"), Ok(CStandard::C89));
    assert_eq!(CStandard::from_string("C90"), Ok(CStandard::C89));
    assert_eq!(CStandard::from_string("c95"), Ok(CStandard::C95));
    assert_eq!(CStandard::from_string("C99"), Ok(CStandard::C99));
    assert_eq!(CStandard::from_string("c11"), Ok(CStandard::C11));
    assert_eq!(CStandard::from_string("C17"), Ok(CStandard::C17));
    assert_eq!(CStandard::from_string("c23"), Ok(CStandard::C23));
    assert_eq!(CStandard::from_string("C24"), Err(CompilerError::InvalidArgument));
    assert_eq!(CStandard::from_string(""), Err(CompilerError::InvalidArgument));
}

#[test]
fn standard_capabilities_follow_the_revision() {
    let all = [
        CStandard::C89,
        CStandard::C95,
        CStandard::C99,
        CStandard::C11,
        CStandard::C17,
        CStandard::C23,
    ];
    for standard in all {
        let from_c99 = standard >= CStandard::C99;
        assert_eq!(standard.allows_boolean(), from_c99);
        assert_eq!(standard.allows_designated_initializers(), from_c99);
        assert_eq!(standard.allows_flexible_array_members(), from_c99);
        assert_eq!(standard.allows_inline(), from_c99);
        assert_eq!(standard.allows_integer_types(), from_c99);
        assert_eq!(standard.allows_enum_backing_type(), standard >= CStandard::C23);
    }
    assert_eq!(CStandard::C17.to_string(), "C17");
    assert_eq!(CStandard::valid_values(), "C89/C90, C95, C99, C11, C17, C23");
}

#[test]
fn string_helpers() {
    assert_eq!(spaces(0), "");
    assert_eq!(spaces(3), "   ");
    assert_eq!(pascal_to_snake_case("NamedVariable"), "named_variable");
    assert_eq!(pascal_to_snake_case("named"), "named");
    assert_eq!(pascal_to_snake_case(""), "");
    assert_eq!(pascal_to_uppercase("NamedVariable"), "NAMED_VARIABLE");
    assert_eq!(pascal_to_uppercase("x1Y"), "X1_Y");
}

#[test]
fn sixty_four_bit_integers_need_fixed_width_types() {
    for standard in [CStandard::C89, CStandard::C95] {
        assert_eq!(
            Primitive::I64.to_c_type(&standard),
            Err(CompilerError::SourceAndCStandardMismatch)
        );
        assert_eq!(
            Primitive::U64.to_c_type(&standard),
            Err(CompilerError::SourceAndCStandardMismatch)
        );
        assert_eq!(Primitive::U32.to_c_type(&standard), Ok(String::from("unsigned long")));
        assert_eq!(Primitive::I128.to_c_type(&standard), Ok(String::from("unsigned char[16]")));
    }
    assert_eq!(Primitive::I64.to_c_type(&CStandard::C99), Ok(String::from("int64_t")));
    assert_eq!(Primitive::U64.to_c_type(&CStandard::C23), Ok(String::from("uint64_t")));
}
