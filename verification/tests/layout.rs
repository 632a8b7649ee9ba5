use rune_c::architecture::Architecture;
use rune_c::c_standard::CStandard;
use rune_c::c_utilities::{
    CConfigurations, CStructDefinition, CStructMember, CompileConfigurations,
};
use rune_c::compiler_error::CompilerError;
use rune_c::layout::{
    class_of, find_best_fit, keep_order, measure, sort_non_aligned, sort_sizes,
    SizedStructMember,
};
use rune_c::schema::{
    ArraySize, ArrayType, BitfieldDefinition, DefineDefinition, DefineValue, Definitions,
    EnumDefinition, FieldIndex, FieldType, NumeralSystem, NumericLiteral, Primitive,
    RuneFileDescription, StructDefinition, StructMember, UserDefinitionLink,
};

fn configurations(architecture: Architecture, pack_data: bool, sort: bool) -> CompileConfigurations {
    CompileConfigurations {
        architecture,
        pack_data,
        pack_metadata: false,
        section: None,
        sort,
        c_standard: CStandard::C23,
    }
}

fn member(identifier: &str, data_type: FieldType, index: u64) -> StructMember {
    StructMember {
        identifier: String::from(identifier),
        data_type,
        index: FieldIndex::Numeric(index),
        user_definition_link: UserDefinitionLink::NoLink,
        comment: None,
    }
}

fn bytes(identifier: &str, count: u64, index: u64) -> StructMember {
    member(
        identifier,
        FieldType::Array(
            ArrayType::Primitive(Primitive::U8),
            ArraySize::Integer(count, NumeralSystem::Decimal),
        ),
        index,
    )
}

fn structure(name: &str, members: Vec<StructMember>) -> StructDefinition {
    StructDefinition { name: String::from(name), members, comment: None }
}

fn sized(sizes: &[u64]) -> Vec<SizedStructMember> {
    sizes
        .iter()
        .enumerate()
        .map(|(position, size)| SizedStructMember::new(position, *size))
        .collect()
}

fn positions(order: &[SizedStructMember]) -> Vec<usize> {
    order.iter().map(|item| item.position).collect()
}

fn names(list: &[&StructMember]) -> Vec<String> {
    list.iter().map(|member| member.identifier.clone()).collect()
}

#[test]
fn alignment_classes_are_tested_in_order() {
    assert_eq!(class_of(8, 8), 0);
    assert_eq!(class_of(16, 8), 0);
    assert_eq!(class_of(8, 4), 1);
    assert_eq!(class_of(4, 8), 1);
    assert_eq!(class_of(12, 8), 1);
    assert_eq!(class_of(2, 8), 2);
    assert_eq!(class_of(6, 4), 2);
    assert_eq!(class_of(1, 8), 3);
    assert_eq!(class_of(9, 8), 3);
}

#[test]
fn best_fit_takes_the_closest_member_and_the_first_among_equals() {
    let pool = sized(&[1, 3, 7, 3]);
    assert_eq!(find_best_fit(&pool, 7, 8), Some(2));
    assert_eq!(find_best_fit(&pool, 3, 8), Some(1));
    assert_eq!(find_best_fit(&pool, 5, 8), Some(1));
    assert_eq!(find_best_fit(&pool, 2, 8), Some(0));
    let large = sized(&[5, 7]);
    assert_eq!(find_best_fit(&large, 3, 8), None);
    assert_eq!(find_best_fit(&Vec::new(), 3, 8), None);
}

#[test]
fn gaps_behind_large_members_are_filled_once() {
    // 9 leaves 7 bytes to the next word, 11 leaves 5, 17 leaves 7.
    let mut members = sized(&[1, 9, 3, 11, 7, 17, 5]);
    sort_non_aligned(&mut members, &configurations(Architecture::_64Bit, false, true));
    assert_eq!(positions(&members), vec![1, 4, 3, 6, 5, 2, 0]);
    let mut sorted = positions(&members);
    sorted.sort();
    assert_eq!(sorted, vec![0, 1, 2, 3, 4, 5, 6]);
}

#[test]
fn a_gap_takes_one_member_only() {
    let mut members = sized(&[9, 1, 1, 1]);
    sort_non_aligned(&mut members, &configurations(Architecture::_64Bit, false, true));
    assert_eq!(positions(&members), vec![0, 1, 2, 3]);
    let mut none_fits = sized(&[15, 3, 5]);
    sort_non_aligned(&mut none_fits, &configurations(Architecture::_64Bit, false, true));
    assert_eq!(positions(&none_fits), vec![0, 1, 2]);
}

#[test]
fn word_size_decides_what_is_large() {
    let mut members = sized(&[3, 5, 7]);
    sort_non_aligned(&mut members, &configurations(Architecture::_32Bit, false, true));
    // 5 and 7 are large on 32 bit: 5 leaves 3 bytes, which 3 fills.
    assert_eq!(positions(&members), vec![1, 0, 2]);
    let mut same = sized(&[3, 5, 7]);
    sort_non_aligned(&mut same, &configurations(Architecture::_64Bit, false, true));
    assert_eq!(positions(&same), vec![0, 1, 2]);
}

#[test]
fn classes_come_in_order_and_zero_sizes_vanish() {
    let sizes: Vec<u64> = vec![1, 2, 4, 8, 0, 3, 16, 6, 12];
    let order = sort_sizes(&sizes, &configurations(Architecture::_64Bit, false, true));
    assert_eq!(positions(&order), vec![3, 6, 2, 8, 1, 7, 0, 5]);
    let narrow = sort_sizes(&sizes, &configurations(Architecture::_32Bit, false, true));
    assert_eq!(positions(&narrow), vec![2, 3, 6, 8, 1, 7, 0, 5]);
    let kept = keep_order(&sizes);
    assert_eq!(positions(&kept), vec![0, 1, 2, 3, 4, 5, 6, 7, 8]);
}

#[test]
fn the_layout_holds_every_sized_member_once() {
    let sizes: Vec<u64> = vec![9, 0, 1, 24, 3, 11, 2, 7, 0, 4, 5, 17, 6];
    for architecture in [Architecture::_32Bit, Architecture::_64Bit] {
        let order = sort_sizes(&sizes, &configurations(architecture, false, true));
        let mut seen = positions(&order);
        seen.sort();
        assert_eq!(seen, vec![0, 2, 3, 4, 5, 6, 7, 9, 10, 11, 12]);
        for item in &order {
            assert_eq!(item.size, sizes[item.position]);
        }
    }
}

#[test]
fn padding_is_estimated_for_the_worst_case() {
    assert_eq!(measure(&sized(&[1, 4]), false), Some(8));
    assert_eq!(measure(&sized(&[1, 4]), true), Some(5));
    assert_eq!(measure(&sized(&[1, 2, 3, 5]), false), Some(1 + 1 + 2 + 3 + 1 + 5));
    assert_eq!(measure(&sized(&[1, 2, 3, 5]), true), Some(11));
    assert_eq!(measure(&sized(&[8, 4, 2, 1]), false), Some(15));
    assert_eq!(measure(&sized(&[8, 4, 2, 1]), true), Some(15));
    assert_eq!(measure(&sized(&[0, 0]), false), Some(0));
    assert_eq!(measure(&sized(&[]), false), Some(0));
    assert_eq!(measure(&sized(&[1, 0, 8]), false), Some(16));
    assert_eq!(measure(&sized(&[u64::MAX, 1]), true), None);
    assert_eq!(measure(&sized(&[u64::MAX - 1, 8]), false), None);
}

#[test]
fn members_of_sizes_one_eight_one_are_laid_out_largest_first() {
    let definition = structure(
        "Sample",
        vec![
            member("first", FieldType::Primitive(Primitive::U8), 0),
            member("wide", FieldType::Primitive(Primitive::U64), 1),
            member("last", FieldType::Primitive(Primitive::Bool), 2),
        ],
    );
    let padded = configurations(Architecture::_64Bit, false, true);
    let list = definition.sort_members(&padded).unwrap();
    assert_eq!(names(&list), vec!["wide", "first", "last"]);
    let layout = definition.layout(&padded).unwrap();
    assert_eq!(names(&layout), vec!["wide", "first", "last"]);
    // No member needs padding in front of it: the estimate is the sum of the sizes.
    // A C compiler rounds this up to the alignment of the widest member.
    let estimate = definition.estimate_size(&padded).unwrap();
    assert_eq!(estimate, 10);
    assert_eq!((estimate + 7) / 8 * 8, 16);
    let packed = configurations(Architecture::_64Bit, true, true);
    assert_eq!(definition.estimate_size(&packed), Ok(10));
}

#[test]
fn estimate_with_padding_is_never_smaller() {
    let definition = structure(
        "Sample",
        vec![
            member("a", FieldType::Primitive(Primitive::U8), 0),
            member("b", FieldType::Primitive(Primitive::U32), 1),
            bytes("c", 3, 2),
            member("d", FieldType::Primitive(Primitive::U16), 3),
        ],
    );
    for architecture in [Architecture::_32Bit, Architecture::_64Bit] {
        for sort in [false, true] {
            let padded = definition.estimate_size(&configurations(architecture, false, sort)).unwrap();
            let packed = definition.estimate_size(&configurations(architecture, true, sort)).unwrap();
            assert!(padded >= packed);
            assert_eq!(packed, 10);
        }
    }
    let unsorted = configurations(Architecture::_64Bit, false, false);
    assert_eq!(definition.estimate_size(&unsorted), Ok(1 + 3 + 4 + 3 + 1 + 2));
    let sorted = configurations(Architecture::_64Bit, false, true);
    // Order: b (4), d (2), a (1), c (3): c starts at 7 and is aligned to 4.
    assert_eq!(definition.estimate_size(&sorted), Ok(4 + 2 + 1 + 1 + 3));
    let unsorted_names = names(&definition.layout(&unsorted).unwrap())
        .join(" ");
    assert_eq!(unsorted_names, "a b c d");
    assert_eq!(names(&definition.layout(&sorted).unwrap()).join(" "), "b d a c");
}

#[test]
fn a_struct_without_size_is_a_configuration_error() {
    let empty = structure("Empty", vec![]);
    let padded = configurations(Architecture::_64Bit, false, true);
    assert_eq!(empty.estimate_size(&padded), Err(CompilerError::ConfigurationError));
    let hollow = structure("Hollow", vec![member("nothing", FieldType::Empty, 0), bytes("none", 0, 1)]);
    assert_eq!(hollow.estimate_size(&padded), Err(CompilerError::ConfigurationError));
    assert_eq!(hollow.sort_members(&padded).unwrap().len(), 0);
    assert_eq!(
        hollow.estimate_size(&configurations(Architecture::_64Bit, false, false)),
        Err(CompilerError::ConfigurationError)
    );
}

#[test]
fn sizes_of_members() {
    assert_eq!(member("a", FieldType::Primitive(Primitive::Bool), 0).c_size(), Ok(1));
    assert_eq!(member("a", FieldType::Primitive(Primitive::F64), 0).c_size(), Ok(8));
    assert_eq!(member("a", FieldType::Primitive(Primitive::I128), 0).c_size(), Ok(16));
    assert_eq!(member("a", FieldType::Empty, 0).c_size(), Ok(0));
    assert_eq!(bytes("a", 300, 0).c_size(), Ok(300));
    let words = member(
        "a",
        FieldType::Array(
            ArrayType::Primitive(Primitive::U32),
            ArraySize::Integer(5, NumeralSystem::Hexadecimal),
        ),
        0,
    );
    assert_eq!(words.c_size(), Ok(20));
}

#[test]
fn sizes_of_user_defined_members() {
    let inner = structure(
        "Inner",
        vec![
            member("x", FieldType::Primitive(Primitive::U16), 0),
            member("y", FieldType::Primitive(Primitive::U8), 1),
        ],
    );
    let mut nested = member("nested", FieldType::UserDefined(String::from("Inner")), 0);
    nested.user_definition_link = UserDefinitionLink::StructLink(inner);
    assert_eq!(nested.c_size(), Ok(3));

    let mut flags = member("flags", FieldType::UserDefined(String::from("Flags")), 1);
    flags.user_definition_link = UserDefinitionLink::BitfieldLink(BitfieldDefinition {
        name: String::from("Flags"),
        backing_type: Primitive::U16,
        members: vec![],
        comment: None,
    });
    assert_eq!(flags.c_size(), Ok(2));

    let mut kind = member(
        "kinds",
        FieldType::Array(
            ArrayType::UserDefined(String::from("Kind")),
            ArraySize::Integer(3, NumeralSystem::Decimal),
        ),
        2,
    );
    kind.user_definition_link = UserDefinitionLink::EnumLink(EnumDefinition {
        name: String::from("Kind"),
        backing_type: Primitive::U32,
        members: vec![],
        comment: None,
    });
    assert_eq!(kind.c_size(), Ok(12));

    let mut list = member(
        "list",
        FieldType::Array(
            ArrayType::UserDefined(String::from("Outer")),
            ArraySize::UserDefinition(DefineDefinition {
                name: String::from("COUNT"),
                value: DefineValue::NumericLiteral(NumericLiteral::PositiveInteger(
                    4,
                    NumeralSystem::Decimal,
                )),
                comment: None,
                redefinition: None,
            }),
        ),
        3,
    );
    list.user_definition_link =
        UserDefinitionLink::StructLink(structure("Outer", vec![nested, flags, kind]));
    assert_eq!(list.c_size(), Ok((3 + 2 + 12) * 4));
}

#[test]
fn members_that_have_no_size_are_malformed() {
    let unlinked = member("a", FieldType::UserDefined(String::from("Missing")), 0);
    assert_eq!(unlinked.c_size(), Err(CompilerError::MalformedSource));
    let unlinked_array = member(
        "a",
        FieldType::Array(
            ArrayType::UserDefined(String::from("Missing")),
            ArraySize::Integer(2, NumeralSystem::Decimal),
        ),
        0,
    );
    assert_eq!(unlinked_array.c_size(), Err(CompilerError::MalformedSource));
    for value in [
        DefineValue::NoValue,
        DefineValue::NumericLiteral(NumericLiteral::Boolean(true)),
        DefineValue::NumericLiteral(NumericLiteral::NegativeInteger(-2, NumeralSystem::Decimal)),
        DefineValue::NumericLiteral(NumericLiteral::Float(2.0f64.to_bits(), String::from("2"))),
    ] {
        let array = member(
            "a",
            FieldType::Array(
                ArrayType::Primitive(Primitive::U8),
                ArraySize::UserDefinition(DefineDefinition {
                    name: String::from("COUNT"),
                    value,
                    comment: None,
                    redefinition: None,
                }),
            ),
            0,
        );
        assert_eq!(array.c_size(), Err(CompilerError::MalformedSource));
    }
    let huge = member(
        "a",
        FieldType::Array(
            ArrayType::Primitive(Primitive::U16),
            ArraySize::Integer(u64::MAX, NumeralSystem::Decimal),
        ),
        0,
    );
    assert_eq!(huge.c_size(), Err(CompilerError::MalformedSource));
    let definition = structure("Broken", vec![bytes("fine", 4, 0), unlinked]);
    let padded = configurations(Architecture::_64Bit, false, true);
    assert_eq!(definition.estimate_size(&padded), Err(CompilerError::MalformedSource));
    assert!(matches!(definition.sort_members(&padded), Err(CompilerError::MalformedSource)));
    let two_huge = structure("Huge", vec![bytes("a", u64::MAX, 0), bytes("b", u64::MAX, 1)]);
    assert_eq!(two_huge.estimate_size(&padded), Err(CompilerError::MalformedSource));
}

#[test]
fn empty_slots_exist_for_the_indexes_up_to_31() {
    let empty = <StructMember as CStructMember>::index_empty(31).unwrap();
    assert_eq!(empty.identifier, "(empty)");
    assert!(matches!(empty.data_type, FieldType::Empty));
    assert!(matches!(empty.index, FieldIndex::Numeric(31)));
    assert!(matches!(empty.user_definition_link, UserDefinitionLink::NoLink));
    assert!(empty.comment.is_none());
    assert_eq!(empty.c_size(), Ok(0));
    assert_eq!(empty.c_size_definition(&CStandard::C99), Ok(String::from("0")));
    assert!(matches!(
        <StructMember as CStructMember>::index_empty(32),
        Err(CompilerError::LogicError)
    ));
    assert!(matches!(
        <StructMember as CStructMember>::index_empty(u64::MAX),
        Err(CompilerError::LogicError)
    ));
}

#[test]
fn size_expressions_of_members() {
    let standard = CStandard::C99;
    assert_eq!(
        member("a", FieldType::Primitive(Primitive::U16), 0).c_size_definition(&standard),
        Ok(String::from("sizeof(uint16_t)"))
    );
    assert_eq!(
        member("a", FieldType::UserDefined(String::from("InnerPart")), 0)
            .c_size_definition(&standard),
        Ok(String::from("sizeof(inner_part_t)"))
    );
    assert_eq!(
        bytes("a", 12, 0).c_size_definition(&standard),
        Ok(String::from("(sizeof(uint8_t) * 12)"))
    );
    let parts = member(
        "a",
        FieldType::Array(
            ArrayType::UserDefined(String::from("InnerPart")),
            ArraySize::Integer(4, NumeralSystem::Hexadecimal),
        ),
        0,
    );
    assert_eq!(
        parts.c_size_definition(&CStandard::C89),
        Ok(String::from("(sizeof(inner_part_t) * 0x04)"))
    );
    assert_eq!(
        member("a", FieldType::Primitive(Primitive::U64), 0).c_size_definition(&CStandard::C89),
        Err(CompilerError::SourceAndCStandardMismatch)
    );
}

fn file(name: &str, structs: Vec<StructDefinition>) -> RuneFileDescription {
    RuneFileDescription {
        relative_path: String::new(),
        name: String::from(name),
        definitions: Definitions {
            bitfields: vec![],
            defines: vec![],
            enums: vec![],
            includes: vec![],
            structs,
        },
    }
}

#[test]
fn widths_of_the_metadata_follow_the_schema() {
    let large = structure("Large", vec![bytes("payload", 300, 0)]);
    let small = structure(
        "Small",
        vec![member("a", FieldType::Primitive(Primitive::U8), 0), bytes("b", 2, 7)],
    );
    let files = vec![file("first", vec![large]), file("second", vec![small])];
    let chosen = configurations(Architecture::_64Bit, false, true);
    let sizing = CConfigurations::parse(&files, &chosen).unwrap();
    assert_eq!(sizing.message_size_type_size, 2);
    assert_eq!(sizing.field_size_type_size, 2);
    assert_eq!(sizing.field_offset_type_size, 2);
    assert_eq!(sizing.parser_index_type_size, 1);
    assert_eq!(sizing.largest_message_index, 7);
    assert_eq!(sizing.compiler_configurations.sort, true);
    assert_eq!(sizing.compiler_configurations.architecture, Architecture::_64Bit);
}

#[test]
fn widths_at_the_thresholds() {
    let chosen = configurations(Architecture::_64Bit, true, true);
    let width = |size: u64| {
        let files = vec![file("only", vec![structure("Only", vec![bytes("payload", size, 0)])])];
        CConfigurations::parse(&files, &chosen).unwrap().message_size_type_size
    };
    assert_eq!(width(1), 1);
    assert_eq!(width(0xFF), 1);
    assert_eq!(width(0x100), 2);
    assert_eq!(width(0xFFFF), 2);
    assert_eq!(width(0x1_0000), 4);
    assert_eq!(width(0xFFFF_FFFF), 4);
    assert_eq!(width(0x1_0000_0000), 8);
    let many: Vec<StructDefinition> = (0..256)
        .map(|_| structure("Same", vec![bytes("payload", 1, 0)]))
        .collect();
    let sizing = CConfigurations::parse(&vec![file("many", many)], &chosen).unwrap();
    assert_eq!(sizing.parser_index_type_size, 2);
}

#[test]
fn a_schema_without_a_sized_struct_has_no_widths() {
    let chosen = configurations(Architecture::_64Bit, false, true);
    assert!(matches!(
        CConfigurations::parse(&vec![], &chosen),
        Err(CompilerError::ConfigurationError)
    ));
    assert!(matches!(
        CConfigurations::parse(&vec![file("none", vec![])], &chosen),
        Err(CompilerError::ConfigurationError)
    ));
    let hollow = structure("Hollow", vec![]);
    let fine = structure("Fine", vec![bytes("payload", 1, 0)]);
    assert!(matches!(
        CConfigurations::parse(&vec![file("mixed", vec![fine, hollow])], &chosen),
        Err(CompilerError::ConfigurationError)
    ));
    let broken = structure(
        "Broken",
        vec![member("a", FieldType::UserDefined(String::from("Missing")), 0)],
    );
    assert!(matches!(
        CConfigurations::parse(&vec![file("broken", vec![broken])], &chosen),
        Err(CompilerError::MalformedSource)
    ));
}
