use rune_c::architecture::Architecture;
use rune_c::c_standard::CStandard;
use rune_c::c_utilities::{
    CConfigurations, CFieldType, CPrimitive, CompileConfigurations,
};
use rune_c::compiler_error::CompilerError;
use rune_c::header::{
    backing_types, output_bitfield, output_define, output_enum, output_header,
    output_header_guarded, padding_size, sentinel_text,
};
use rune_c::output_file::OutputFile;
use rune_c::schema::{
    ArraySize, ArrayType, BitSize, BitfieldDefinition, BitfieldMember, DefineDefinition,
    DefineValue, Definitions, EnumDefinition, EnumMember, FieldIndex, FieldType,
    IncludeDefinition, NumeralSystem, NumericLiteral, Primitive, RedefineDefinition,
    RuneFileDescription, StructDefinition, StructMember, UserDefinitionLink,
};
use rune_c::struct_text::{output_struct, output_struct_initializer};

fn settings(c_standard: CStandard, sort: bool) -> CConfigurations {
    CConfigurations {
        compiler_configurations: CompileConfigurations {
            architecture: Architecture::_64Bit,
            pack_data: false,
            pack_metadata: false,
            section: None,
            sort,
            c_standard,
        },
        field_size_type_size: 1,
        field_offset_type_size: 1,
        message_size_type_size: 1,
        parser_index_type_size: 1,
        largest_message_index: 0,
    }
}

fn scratch() -> OutputFile {
    OutputFile::new(String::from("out"), String::from("scratch.h"))
}

fn decimal(value: u64) -> NumericLiteral {
    NumericLiteral::PositiveInteger(value, NumeralSystem::Decimal)
}

fn enum_member(identifier: &str, value: NumericLiteral, comment: Option<&str>) -> EnumMember {
    EnumMember { identifier: String::from(identifier), value, comment: comment.map(String::from) }
}

fn colors(backing_type: Primitive) -> EnumDefinition {
    EnumDefinition {
        name: String::from("ColorKind"),
        backing_type,
        members: vec![
            enum_member("Red", decimal(0), None),
            enum_member("Green", decimal(1), Some(" The green one ")),
            enum_member(
                "Blue",
                NumericLiteral::PositiveInteger(16, NumeralSystem::Hexadecimal),
                None,
            ),
        ],
        comment: Some(String::from(" Colors ")),
    }
}

fn bit(identifier: &str, size: BitSize, index: u64, comment: Option<&str>) -> BitfieldMember {
    BitfieldMember {
        identifier: String::from(identifier),
        size,
        index,
        comment: comment.map(String::from),
    }
}

fn status_flags(backing_type: Primitive) -> BitfieldDefinition {
    BitfieldDefinition {
        name: String::from("StatusFlags"),
        backing_type,
        members: vec![
            bit("mode", BitSize::Signed(3), 1, None),
            bit("ready", BitSize::Unsigned(1), 0, None),
            bit("error", BitSize::Unsigned(2), 2, Some(" Error code ")),
        ],
        comment: None,
    }
}

fn member(identifier: &str, data_type: FieldType, index: u64, comment: Option<&str>) -> StructMember {
    StructMember {
        identifier: String::from(identifier),
        data_type,
        index: FieldIndex::Numeric(index),
        user_definition_link: UserDefinitionLink::NoLink,
        comment: comment.map(String::from),
    }
}

fn reading() -> StructDefinition {
    StructDefinition {
        name: String::from("SensorReading"),
        members: vec![
            member("id", FieldType::Primitive(Primitive::U8), 0, None),
            member("value", FieldType::Primitive(Primitive::U32), 1, Some(" The value ")),
            member("stamp", FieldType::Primitive(Primitive::U64), 2, None),
            member(
                "tag",
                FieldType::Array(
                    ArrayType::Primitive(Primitive::U8),
                    ArraySize::Integer(3, NumeralSystem::Decimal),
                ),
                3,
                None,
            ),
        ],
        comment: Some(String::from(" A reading ")),
    }
}

const ENUM_WITH_TYPE: &str = "/** Colors */
typedef enum RUNIC_ENUM color_kind: uint8_t {
    RED   = 0,

    /** The green one */
    GREEN = 1,
    BLUE  = 0x10
} color_kind_t;

#define COLOR_KIND_INIT RED

";

const ENUM_WITH_SENTINEL: &str = "/** Colors */
typedef enum RUNIC_ENUM color_kind {
    RED   = 0,

    /** The green one */
    GREEN = 1,
    BLUE  = 0x10,

    /** Value to coerce enum to minimum size of declared backing type uint16_t */
    COLOR_KIND_SIZE_RESERVE_VALUE = 0xFFFF
} color_kind_t;

#define COLOR_KIND_INIT RED

";

const BITFIELD: &str = "// Disclaimer ! Run rune_bitfield_tester() function to check whether bitfields are behaving as intended
#if defined __LITTLE_ENDIAN__
typedef struct RUNIC_BITFIELD status_flags {
    uint8_t ready   : 1;
    int8_t  mode    : 3;

    /** Error code */
    uint8_t error   : 2;

    /** Padding to ensure proper alignment */
    uint8_t padding : 2;
} status_flags_t;
#elif defined __BIG_ENDIAN__
typedef struct RUNIC_BITFIELD status_flags {
    /** Padding to ensure proper alignment */
    uint8_t padding : 2;

    /** Error code */
    uint8_t error   : 2;
    int8_t  mode    : 3;
    uint8_t ready   : 1;
} status_flags_t;
#else
#error \"Only little and big endianness is supported by this Rune C implementation\"
#endif // __BYTE_ORDER__

#define STATUS_FLAGS_INIT 0

";

const STRUCT_SORTED: &str = "/** A reading */
typedef struct RUNIC_STRUCT sensor_reading {
    uint64_t stamp;

    /** The value */
    uint32_t value;
    uint8_t id;
    uint8_t tag[3];
} sensor_reading_t;

extern const rune_descriptor_t sensor_reading_descriptor;

";

const STRUCT_DECLARED: &str = "/** A reading */
typedef struct RUNIC_STRUCT sensor_reading {
    uint8_t id;

    /** The value */
    uint32_t value;
    uint64_t stamp;
    uint8_t tag[3];
} sensor_reading_t;

extern const rune_descriptor_t sensor_reading_descriptor;

";

fn initializer_designated() -> String {
    let mut text = String::new();
    text.push_str("#define SENSOR_READING_INIT (sensor_reading_t) { \\\n");
    text.push_str(&format!("    .stamp = 0, {}\\\n", " ".repeat(33)));
    text.push_str(&format!("    .value = 0, {}\\\n", " ".repeat(33)));
    text.push_str(&format!("    .id    = 0, {}\\\n", " ".repeat(33)));
    text.push_str(&format!("    .tag   = {{ 0 }} {}\\\n", " ".repeat(30)));
    text.push_str("}\n\n#define SENSOR_READING_DESCRIPTOR &sensor_reading_descriptor\n\n");
    text
}

const OPENING: &str = "#ifndef SENSORS_RUNE_H
#define SENSORS_RUNE_H

#ifdef __cplusplus
extern \"C\" {
#endif /* __cplusplus */

#include <stdbool.h>
#include <stdint.h>

#include \"rune.h\"

";

const CLOSING: &str = "#ifdef __cplusplus
}
#endif /* __cplusplus */

#endif /* SENSORS_RUNE_H */
";

#[test]
fn defines_use_the_redefined_value() {
    let mut file = scratch();
    let plain = DefineDefinition {
        name: String::from("MAX_COUNT"),
        value: DefineValue::NumericLiteral(NumericLiteral::PositiveInteger(
            16,
            NumeralSystem::Hexadecimal,
        )),
        comment: Some(String::from(" Limit ")),
        redefinition: None,
    };
    output_define(&mut file, &plain);
    assert_eq!(file.contents(), "/** Limit */\n#define MAX_COUNT 0x10\n");
    let redefined = DefineDefinition {
        name: String::from("DEPTH"),
        value: DefineValue::NoValue,
        comment: None,
        redefinition: Some(RedefineDefinition {
            name: String::from("DEPTH"),
            value: DefineValue::NumericLiteral(NumericLiteral::NegativeInteger(
                -3,
                NumeralSystem::Decimal,
            )),
            comment: None,
        }),
    };
    let mut second = scratch();
    output_define(&mut second, &redefined);
    assert_eq!(second.contents(), "#define DEPTH -3\n");
    let empty = DefineDefinition {
        name: String::from("FLAG"),
        value: DefineValue::NoValue,
        comment: None,
        redefinition: None,
    };
    output_define(&mut second, &empty);
    assert_eq!(second.contents(), "#define DEPTH -3\n#define FLAG \n");
}

#[test]
fn an_enum_names_its_type_where_the_standard_can() {
    let mut file = scratch();
    assert_eq!(output_enum(&mut file, &settings(CStandard::C23, true), &colors(Primitive::U8)), Ok(()));
    assert_eq!(file.contents(), ENUM_WITH_TYPE);
    assert_eq!(file.path(), "out");
    assert_eq!(file.name(), "scratch.h");
}

#[test]
fn an_enum_gets_a_member_that_forces_its_width() {
    let mut file = scratch();
    assert_eq!(output_enum(&mut file, &settings(CStandard::C99, true), &colors(Primitive::U16)), Ok(()));
    assert_eq!(file.contents(), ENUM_WITH_SENTINEL);
    // A member that asks for the full width makes the extra member needless.
    let mut narrow = scratch();
    assert_eq!(output_enum(&mut narrow, &settings(CStandard::C99, true), &colors(Primitive::U8)), Ok(()));
    assert_eq!(
        narrow.contents(),
        ENUM_WITH_TYPE.replace("color_kind: uint8_t {", "color_kind {")
    );
    let mut old = scratch();
    assert_eq!(output_enum(&mut old, &settings(CStandard::C89, true), &colors(Primitive::U32)), Ok(()));
    assert!(old.contents().contains("declared backing type unsigned long */\n"));
    assert!(old.contents().contains("    COLOR_KIND_SIZE_RESERVE_VALUE = 0xFFFFFFFF\n"));
}

#[test]
fn the_forcing_member_holds_the_largest_value_of_the_width() {
    assert_eq!(sentinel_text(1), Ok(String::from("0xFF")));
    assert_eq!(sentinel_text(2), Ok(String::from("0xFFFF")));
    assert_eq!(sentinel_text(4), Ok(String::from("0xFFFFFFFF")));
    assert_eq!(sentinel_text(8), Ok(String::from("0xFFFFFFFFFFFFFFFF")));
    assert_eq!(sentinel_text(0), Ok(String::from("0")));
    assert_eq!(sentinel_text(16), Err(CompilerError::LogicError));
    assert_eq!(sentinel_text(3), Err(CompilerError::LogicError));
    for (size, text) in [(1u32, "0xFF"), (2, "0xFFFF"), (4, "0xFFFFFFFF")] {
        let value = 2u64.pow(8 * size) - 1;
        assert_eq!(format!("0x{:X}", value), text);
    }
}

#[test]
fn an_enum_that_cannot_be_declared_fails_and_writes_nothing() {
    let mut file = scratch();
    file.add_line(String::from("before"));
    let wide = colors(Primitive::U64);
    assert_eq!(
        output_enum(&mut file, &settings(CStandard::C89, true), &wide),
        Err(CompilerError::SourceAndCStandardMismatch)
    );
    let huge = colors(Primitive::U128);
    assert_eq!(
        output_enum(&mut file, &settings(CStandard::C99, true), &huge),
        Err(CompilerError::LogicError)
    );
    assert_eq!(file.contents(), "before\n");
    assert_eq!(output_enum(&mut file, &settings(CStandard::C23, true), &huge), Ok(()));
    assert!(file.contents().starts_with("before\n/** Colors */\ntypedef enum RUNIC_ENUM color_kind: uint8_t[16] {\n"));
}

#[test]
fn the_initializer_of_an_enum_is_its_first_zero() {
    let definition = EnumDefinition {
        name: String::from("Level"),
        backing_type: Primitive::U8,
        members: vec![
            enum_member("High", decimal(2), None),
            enum_member("Off", NumericLiteral::Boolean(false), None),
            enum_member("None", decimal(0), None),
        ],
        comment: None,
    };
    let mut file = scratch();
    assert_eq!(output_enum(&mut file, &settings(CStandard::C23, true), &definition), Ok(()));
    assert!(file.contents().ends_with("#define LEVEL_INIT OFF\n\n"));
    let without = EnumDefinition {
        name: String::from("Level"),
        backing_type: Primitive::U8,
        members: vec![enum_member("High", decimal(2), None)],
        comment: None,
    };
    let mut second = scratch();
    assert_eq!(output_enum(&mut second, &settings(CStandard::C23, true), &without), Ok(()));
    assert_eq!(
        second.contents(),
        "typedef enum RUNIC_ENUM level: uint8_t {\n    HIGH = 2\n} level_t;\n\n#define LEVEL_INIT 0\n\n"
    );
}

#[test]
fn a_bitfield_is_declared_for_both_orders_of_the_bits() {
    let mut file = scratch();
    assert_eq!(
        output_bitfield(&mut file, &settings(CStandard::C99, true), &status_flags(Primitive::U8)),
        Ok(())
    );
    assert_eq!(file.contents(), BITFIELD);
    assert_eq!(padding_size(&status_flags(Primitive::U8)), Ok(2));
    assert_eq!(padding_size(&status_flags(Primitive::I32)), Ok(26));
    assert_eq!(backing_types(Primitive::I16), Ok((Primitive::U16, Primitive::I16)));
}

#[test]
fn a_full_bitfield_keeps_its_empty_padding() {
    let definition = BitfieldDefinition {
        name: String::from("Pair"),
        backing_type: Primitive::U8,
        members: vec![
            bit("a", BitSize::Unsigned(4), 0, None),
            bit("b", BitSize::Unsigned(4), 1, None),
        ],
        comment: Some(String::from(" Two halves ")),
    };
    let mut file = scratch();
    assert_eq!(output_bitfield(&mut file, &settings(CStandard::C89, true), &definition), Ok(()));
    let text = file.contents();
    assert!(text.starts_with("/** Two halves */\n// Disclaimer !"));
    assert!(text.contains(
        "typedef struct RUNIC_BITFIELD pair {\n/** Two halves */\n    unsigned char a : 4;\n    unsigned char b : 4;\n\n    /** Padding to ensure proper alignment */\n    unsigned char padding : 0;\n} pair_t;\n#elif"
    ));
    assert!(text.contains(
        "    /** Padding to ensure proper alignment */\n    unsigned char padding : 0;\n    unsigned char b : 4;\n    unsigned char a : 4;\n} pair_t;\n#else"
    ));
}

#[test]
fn a_bitfield_that_cannot_be_declared_is_refused() {
    let mut file = scratch();
    for backing_type in [Primitive::Bool, Primitive::Char, Primitive::F32, Primitive::U128] {
        assert_eq!(
            output_bitfield(&mut file, &settings(CStandard::C99, true), &status_flags(backing_type)),
            Err(CompilerError::MalformedSource)
        );
        assert_eq!(backing_types(backing_type), Err(CompilerError::MalformedSource));
    }
    let mut crowded = status_flags(Primitive::U8);
    crowded.members.push(bit("more", BitSize::Unsigned(3), 3, None));
    assert_eq!(padding_size(&crowded), Err(CompilerError::MalformedSource));
    assert_eq!(
        output_bitfield(&mut file, &settings(CStandard::C99, true), &crowded),
        Err(CompilerError::MalformedSource)
    );
    crowded.members.push(bit("most", BitSize::Unsigned(u64::MAX), 4, None));
    assert_eq!(padding_size(&crowded), Err(CompilerError::MalformedSource));
    assert_eq!(
        output_bitfield(&mut file, &settings(CStandard::C89, true), &status_flags(Primitive::U64)),
        Err(CompilerError::SourceAndCStandardMismatch)
    );
    assert_eq!(file.contents(), "");
}

#[test]
fn a_struct_is_declared_in_the_order_of_its_layout() {
    let mut file = scratch();
    let definition = reading();
    let sorted = settings(CStandard::C99, true);
    let list = output_struct(&mut file, &sorted, &definition).unwrap();
    assert_eq!(file.contents(), STRUCT_SORTED);
    let order: Vec<&str> = list.iter().map(|member| member.identifier.as_str()).collect();
    assert_eq!(order, vec!["stamp", "value", "id", "tag"]);
    let mut second = scratch();
    let declared = settings(CStandard::C99, false);
    let list = output_struct(&mut second, &declared, &definition).unwrap();
    assert_eq!(second.contents(), STRUCT_DECLARED);
    assert_eq!(list.len(), 4);
}

#[test]
fn a_struct_that_cannot_be_declared_fails_and_writes_nothing() {
    let mut file = scratch();
    assert!(matches!(
        output_struct(&mut file, &settings(CStandard::C89, true), &reading()),
        Err(CompilerError::SourceAndCStandardMismatch)
    ));
    let mut hollow = reading();
    hollow.members.push(member("gap", FieldType::Empty, 4, None));
    assert!(matches!(
        output_struct(&mut file, &settings(CStandard::C99, false), &hollow),
        Err(CompilerError::LogicError)
    ));
    assert!(output_struct(&mut file, &settings(CStandard::C99, true), &hollow).is_ok());
    assert_eq!(file.contents(), STRUCT_SORTED);
    let mut unlinked = reading();
    unlinked.members.push(member("other", FieldType::UserDefined(String::from("Other")), 4, None));
    let mut second = scratch();
    assert!(matches!(
        output_struct(&mut second, &settings(CStandard::C99, true), &unlinked),
        Err(CompilerError::MalformedSource)
    ));
    assert_eq!(
        output_struct_initializer(&mut second, &settings(CStandard::C99, true), &unlinked),
        Err(CompilerError::MalformedSource)
    );
    assert_eq!(
        output_struct_initializer(&mut second, &settings(CStandard::C99, false), &hollow),
        Err(CompilerError::LogicError)
    );
    assert_eq!(second.contents(), "");
}

#[test]
fn the_initializer_lines_up_its_backslashes() {
    let mut file = scratch();
    assert_eq!(
        output_struct_initializer(&mut file, &settings(CStandard::C99, true), &reading()),
        Ok(())
    );
    assert_eq!(file.contents(), initializer_designated());
    for row in file.contents().lines().take(5) {
        assert_eq!(row.len(), 50);
        assert!(row.ends_with('\\'));
    }
}

#[test]
fn the_initializer_without_designators() {
    let definition = StructDefinition {
        name: String::from("Key"),
        members: vec![
            member("kind", FieldType::Primitive(Primitive::U8), 0, None),
            member(
                "words",
                FieldType::Array(
                    ArrayType::Primitive(Primitive::U16),
                    ArraySize::Integer(4, NumeralSystem::Decimal),
                ),
                1,
                None,
            ),
        ],
        comment: None,
    };
    let tail = "}\n\n#define KEY_DESCRIPTOR &key_descriptor\n\n";
    let mut file = scratch();
    assert_eq!(
        output_struct_initializer(&mut file, &settings(CStandard::C89, false), &definition),
        Ok(())
    );
    let mut declared = String::from("#define KEY_INIT (key_t) { \\\n");
    declared.push_str(&format!("    0, {}\\\n", " ".repeat(20)));
    declared.push_str(&format!("    {{ 0 }} {}\\\n", " ".repeat(17)));
    declared.push_str(tail);
    assert_eq!(file.contents(), declared);
    let mut sorted = scratch();
    assert_eq!(
        output_struct_initializer(&mut sorted, &settings(CStandard::C89, true), &definition),
        Ok(())
    );
    let mut laid_out = String::from("#define KEY_INIT (key_t) { \\\n");
    laid_out.push_str(&format!("    {{ 0 }}, {}\\\n", " ".repeat(16)));
    laid_out.push_str(&format!("    0 {}\\\n", " ".repeat(21)));
    laid_out.push_str(tail);
    assert_eq!(sorted.contents(), laid_out);
}

#[test]
fn the_longest_line_of_an_initializer_is_the_last() {
    let definition = StructDefinition {
        name: String::from("A"),
        members: vec![member(
            "averyveryverylongidentifier",
            FieldType::Primitive(Primitive::U8),
            0,
            None,
        )],
        comment: None,
    };
    let mut file = scratch();
    assert_eq!(
        output_struct_initializer(&mut file, &settings(CStandard::C99, true), &definition),
        Ok(())
    );
    let mut expected = format!("#define A_INIT (a_t) {{ {}\\\n", " ".repeat(14));
    expected.push_str("    .averyveryverylongidentifier = 0 \\\n");
    expected.push_str("}\n\n#define A_DESCRIPTOR &a_descriptor\n\n");
    assert_eq!(file.contents(), expected);
}

#[test]
fn values_that_set_fields_to_zero() {
    let standard = CStandard::C99;
    assert_eq!(Primitive::Bool.c_initializer(&standard), "false");
    assert_eq!(Primitive::Bool.c_initializer(&CStandard::C89), "0");
    assert_eq!(Primitive::F32.c_initializer(&standard), "0.0");
    assert_eq!(Primitive::U128.c_initializer(&standard), "{ 0 }");
    assert_eq!(Primitive::I16.c_initializer(&standard), "0");
    assert_eq!(
        FieldType::UserDefined(String::from("InnerPart")).c_initializer(&standard),
        Ok(String::from("INNER_PART_INIT"))
    );
    let array = |array_type: ArrayType| {
        FieldType::Array(array_type, ArraySize::Integer(2, NumeralSystem::Decimal))
            .c_initializer(&standard)
    };
    assert_eq!(array(ArrayType::Primitive(Primitive::I128)), Ok(String::from("{ 0 }")));
    assert_eq!(array(ArrayType::Primitive(Primitive::F64)), Ok(String::from("{ 0.0 }")));
    assert_eq!(array(ArrayType::Primitive(Primitive::Bool)), Ok(String::from("{ false }")));
    assert_eq!(
        array(ArrayType::UserDefined(String::from("InnerPart"))),
        Ok(String::from("{ INNER_PART_INIT }"))
    );
    assert_eq!(FieldType::Empty.c_initializer(&standard), Err(CompilerError::LogicError));
}

#[test]
fn declarations_of_variables() {
    let standard = CStandard::C99;
    assert_eq!(
        Primitive::U16.create_c_variable("count", 2, &standard),
        Ok(String::from("uint16_t   count"))
    );
    assert_eq!(
        Primitive::I128.create_c_variable("wide", 0, &standard),
        Ok(String::from("uint8_t wide[16]"))
    );
    assert_eq!(
        Primitive::U128.create_c_variable("wide", 1, &CStandard::C89),
        Ok(String::from("unsigned char  wide[16]"))
    );
    assert_eq!(
        Primitive::I64.create_c_variable("late", 0, &CStandard::C95),
        Err(CompilerError::SourceAndCStandardMismatch)
    );
    assert_eq!(
        FieldType::UserDefined(String::from("InnerPart")).create_c_variable("part", 0, &standard),
        Ok(String::from("inner_part_t part"))
    );
    let array = FieldType::Array(
        ArrayType::UserDefined(String::from("InnerPart")),
        ArraySize::Integer(2, NumeralSystem::Binary),
    );
    assert_eq!(array.create_c_variable("parts", 1, &standard), Ok(String::from("inner_part_t  parts[0b10]")));
    assert_eq!(
        FieldType::Empty.create_c_variable("none", 0, &standard),
        Err(CompilerError::LogicError)
    );
    assert_eq!(Primitive::Bool.to_c_type(&standard), Ok(String::from("bool")));
    assert_eq!(Primitive::Bool.to_c_type(&CStandard::C89), Ok(String::from("char")));
    assert_eq!(Primitive::F64.to_c_type(&CStandard::C89), Ok(String::from("double")));
    assert_eq!(Primitive::I16.to_c_type(&CStandard::C89), Ok(String::from("signed short")));
    assert_eq!(Primitive::I8.to_c_type(&CStandard::C11), Ok(String::from("int8_t")));
    assert_eq!(Primitive::U128.c_size(), 16);
    assert_eq!(Primitive::Char.c_size(), 1);
    assert_eq!(Primitive::F32.c_size(), 4);
}

fn sensors(relative_path: &str) -> RuneFileDescription {
    RuneFileDescription {
        relative_path: String::from(relative_path),
        name: String::from("sensors"),
        definitions: Definitions {
            bitfields: vec![status_flags(Primitive::U8)],
            defines: vec![DefineDefinition {
                name: String::from("MAX_COUNT"),
                value: DefineValue::NumericLiteral(decimal(16)),
                comment: None,
                redefinition: None,
            }],
            enums: vec![colors(Primitive::U16)],
            includes: vec![IncludeDefinition { file: String::from("common") }],
            structs: vec![reading()],
        },
    }
}

#[test]
fn a_header_holds_all_declarations_of_its_file() {
    let chosen = settings(CStandard::C99, true);
    let file = output_header(&sensors(""), &chosen, "out").unwrap();
    let mut expected = String::from(OPENING);
    expected.push_str("#include \"common.rune.h\"\n\n");
    expected.push_str("#define MAX_COUNT 16\n\n");
    expected.push_str(ENUM_WITH_SENTINEL);
    expected.push_str(BITFIELD);
    expected.push_str(STRUCT_SORTED);
    expected.push_str(&initializer_designated());
    expected.push_str(CLOSING);
    assert_eq!(file.contents(), expected);
    assert_eq!(file.name(), "sensors.rune.h");
    assert_eq!(file.path(), "out");
    let nested = output_header(&sensors("sub/"), &chosen, "out/").unwrap();
    assert_eq!(nested.name(), "sub/sensors.rune.h");
    assert_eq!(nested.path(), "out/");
    assert_eq!(nested.contents(), expected);
}

#[test]
fn the_guard_of_a_header_is_the_upper_case_name() {
    let chosen = settings(CStandard::C99, true);
    let mut file = sensors("");
    file.name = String::from("straße");
    file.definitions = Definitions {
        bitfields: vec![],
        defines: vec![],
        enums: vec![],
        includes: vec![],
        structs: vec![],
    };
    let header = output_header(&file, &chosen, "out").unwrap();
    assert_eq!(header.name(), "straße.rune.h");
    assert_eq!(
        header.contents(),
        OPENING.replace("SENSORS", "STRASSE") + &CLOSING.replace("SENSORS", "STRASSE")
    );
    let given = output_header_guarded(&file, &chosen, "out", "ANY").unwrap();
    assert_eq!(
        given.contents(),
        OPENING.replace("SENSORS", "ANY") + &CLOSING.replace("SENSORS", "ANY")
    );
}

#[test]
fn a_header_fails_with_the_first_error() {
    let mut file = sensors("");
    file.definitions.enums.push(colors(Primitive::U128));
    file.definitions.bitfields.push(status_flags(Primitive::Bool));
    assert!(matches!(
        output_header(&file, &settings(CStandard::C99, true), "out"),
        Err(CompilerError::LogicError)
    ));
    assert!(matches!(
        output_header(&file, &settings(CStandard::C23, true), "out"),
        Err(CompilerError::MalformedSource)
    ));
    file.definitions.bitfields.pop();
    assert!(output_header(&file, &settings(CStandard::C23, true), "out").is_ok());
    assert!(matches!(
        output_header(&sensors(""), &settings(CStandard::C89, true), "out"),
        Err(CompilerError::SourceAndCStandardMismatch)
    ));
}
