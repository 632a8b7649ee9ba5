use rune_c::architecture::Architecture;
use rune_c::c_standard::CStandard;
use rune_c::c_utilities::{CConfigurations, CompileConfigurations};
use rune_c::compiler_error::CompilerError;
use rune_c::generate::output_c_files;
use rune_c::output_file::OutputFile;
use rune_c::parser::{comes_before, gather_structs, output_parser, sort_structs};
use rune_c::runic_definitions::{output_runic_definitions, type_from_size};
use rune_c::schema::{
    ArraySize, ArrayType, Definitions, FieldIndex, FieldType, NumeralSystem, Primitive,
    RuneFileDescription, StructDefinition, StructMember, UserDefinitionLink,
};
use rune_c::source::{
    descriptor_slots, has_verification_field, output_source, presence_text, struct_descriptor,
};

fn chosen(c_standard: CStandard) -> CompileConfigurations {
    CompileConfigurations {
        architecture: Architecture::_64Bit,
        pack_data: false,
        pack_metadata: false,
        section: None,
        sort: true,
        c_standard,
    }
}

fn settings(c_standard: CStandard) -> CConfigurations {
    CConfigurations {
        compiler_configurations: chosen(c_standard),
        field_size_type_size: 2,
        field_offset_type_size: 2,
        message_size_type_size: 2,
        parser_index_type_size: 1,
        largest_message_index: 7,
    }
}

fn member(identifier: &str, data_type: FieldType, index: FieldIndex) -> StructMember {
    StructMember {
        identifier: String::from(identifier),
        data_type,
        index,
        user_definition_link: UserDefinitionLink::NoLink,
        comment: None,
    }
}

fn structure(name: &str, members: Vec<StructMember>) -> StructDefinition {
    StructDefinition { name: String::from(name), members, comment: None }
}

fn inner_part() -> StructDefinition {
    structure(
        "InnerPart",
        vec![member("x", FieldType::Primitive(Primitive::U16), FieldIndex::Numeric(0))],
    )
}

fn reading() -> StructDefinition {
    let mut child = member(
        "child",
        FieldType::UserDefined(String::from("InnerPart")),
        FieldIndex::Numeric(4),
    );
    child.user_definition_link = UserDefinitionLink::StructLink(inner_part());
    structure(
        "SensorReading",
        vec![
            member("value", FieldType::Primitive(Primitive::U32), FieldIndex::Numeric(3)),
            member("check", FieldType::Primitive(Primitive::U16), FieldIndex::Verifier),
            child,
            member("id", FieldType::Primitive(Primitive::U8), FieldIndex::Numeric(1)),
        ],
    )
}

fn file(name: &str, relative_path: &str, structs: Vec<StructDefinition>) -> RuneFileDescription {
    RuneFileDescription {
        relative_path: String::from(relative_path),
        name: String::from(name),
        definitions: Definitions {
            bitfields: vec![],
            defines: vec![],
            enums: vec![],
            includes: vec![],
            structs,
        },
    }
}

const DESCRIPTOR: &str = "const rune_descriptor_t* sensor_reading_field_descriptors[1] = {
    &inner_part_descriptor
};

const rune_descriptor_t RUNIC_PARSER sensor_reading_descriptor = {
    .descriptor_flags         = 0b10000,
    .field_descriptors        = &sensor_reading_field_descriptors,
    .size                     = sizeof(sensor_reading_t),
    .largest_field            = 4,
    .parsing_data             = {
        .has_verification     = true,
    },
    .field_info               = {
    /*  .check: Verifier field - 0 */ {
            .offset = offsetof(sensor_reading_t, check),
            .size   = sizeof(uint16_t),
        },
    /*  .id:    1 */ {
            .offset = offsetof(sensor_reading_t, id),
            .size   = sizeof(uint8_t),
        },
    /*  (empty): 2 */ {
            .offset = 0,
            .size   = 0,
        },
    /*  .value: 3 */ {
            .offset = offsetof(sensor_reading_t, value),
            .size   = sizeof(uint32_t),
        },
    /*  .child: 4 */ {
            .offset = offsetof(sensor_reading_t, child),
            .size   = sizeof(inner_part_t),
        }
    }
};
";

const DESCRIPTOR_WITHOUT_DESIGNATORS: &str = "const rune_descriptor_t RUNIC_PARSER inner_part_descriptor = {
    /* .descriptor_flags     = */ 0b0,
    /* .field_descriptors    = */ NULL,
    /* .size                 = */ sizeof(inner_part_t),
    /* .largest_field        = */ 0,
    /* .parsing_data         = */ {
    /*     .has_verification = */ 0,
    },
    /* .field_info           = */ {
    /*     .x: 0 */ {
    /*         .offset = */ offsetof(inner_part_t, x),
    /*         .size   = */ sizeof(unsigned short),
        }
    }
};
";

/// The last slot of a descriptor ends with a space in place of the comma.
fn with_last_slot(text: &str) -> String {
    text.replace("        }\n    }\n};\n", "        } \n    }\n};\n")
}

/// The lines that define nothing end with the spaces of their format.
fn with_empty_values(text: &str) -> String {
    text.replace("#define RUNIC_ENUM\n", "#define RUNIC_ENUM     \n")
        .replace("#define RUNE_FIELD_INFO_COUNT\n", "#define RUNE_FIELD_INFO_COUNT \n")
}

#[test]
fn an_output_file_drops_one_leading_slash() {
    let mut file = OutputFile::new(String::from("out"), String::from("/sub/name.h"));
    assert_eq!(file.path(), "out");
    assert_eq!(file.name(), "sub/name.h");
    assert_eq!(file.contents(), "");
    file.add_line(String::from("first"));
    file.add_newline();
    file.add_line(String::new());
    file.add_text("last");
    assert_eq!(file.contents(), "first\n\n\nlast");
    assert_eq!(OutputFile::new(String::new(), String::from("//name")).name(), "/name");
    assert_eq!(OutputFile::new(String::new(), String::from("name")).name(), "name");
    assert_eq!(OutputFile::new(String::new(), String::new()).name(), "");
    assert_eq!(OutputFile::new(String::new(), String::from("/")).name(), "");
}

#[test]
fn a_descriptor_has_one_slot_for_every_index() {
    let definition = reading();
    let slots = descriptor_slots(&definition).unwrap();
    let held: Vec<Option<&str>> = slots
        .iter()
        .map(|slot| slot.map(|member| member.identifier.as_str()))
        .collect();
    assert_eq!(held, vec![Some("check"), Some("id"), None, Some("value"), Some("child")]);
    assert_eq!(presence_text(&slots), "10000");
    assert!(has_verification_field(&definition));
    assert!(!has_verification_field(&inner_part()));
    assert_eq!(struct_descriptor(&definition, &CStandard::C99), Ok(with_last_slot(DESCRIPTOR)));
}

#[test]
fn a_descriptor_without_designated_initializers() {
    assert_eq!(
        struct_descriptor(&inner_part(), &CStandard::C89),
        Ok(with_last_slot(DESCRIPTOR_WITHOUT_DESIGNATORS))
    );
}

#[test]
fn the_last_member_of_an_index_takes_the_slot() {
    let definition = structure(
        "Twice",
        vec![
            member("first", FieldType::Primitive(Primitive::U8), FieldIndex::Numeric(0)),
            member("second", FieldType::Primitive(Primitive::U16), FieldIndex::Numeric(0)),
        ],
    );
    let slots = descriptor_slots(&definition).unwrap();
    assert_eq!(slots.len(), 1);
    assert_eq!(slots[0].unwrap().identifier, "second");
    let none = structure("Empty", vec![]);
    let slots = descriptor_slots(&none).unwrap();
    assert_eq!(slots.len(), 1);
    assert!(slots[0].is_none());
    assert_eq!(presence_text(&slots), "0");
}

#[test]
fn a_descriptor_fails_above_index_31() {
    let fits = structure(
        "Fits",
        vec![member("last", FieldType::Primitive(Primitive::U8), FieldIndex::Numeric(31))],
    );
    assert_eq!(descriptor_slots(&fits).unwrap().len(), 32);
    assert!(struct_descriptor(&fits, &CStandard::C99).is_ok());
    for index in [32, 1 << 40, u64::MAX] {
        let beyond = structure(
            "Beyond",
            vec![member("late", FieldType::Primitive(Primitive::U64), FieldIndex::Numeric(index))],
        );
        assert!(matches!(descriptor_slots(&beyond), Err(CompilerError::LogicError)));
        assert_eq!(struct_descriptor(&beyond, &CStandard::C89), Err(CompilerError::LogicError));
    }
    let wide = structure(
        "Wide",
        vec![member("late", FieldType::Primitive(Primitive::U64), FieldIndex::Numeric(2))],
    );
    assert_eq!(
        struct_descriptor(&wide, &CStandard::C89),
        Err(CompilerError::SourceAndCStandardMismatch)
    );
}

#[test]
fn a_source_holds_the_descriptors_of_its_file() {
    let described = file("sensors", "sub/", vec![inner_part(), reading()]);
    let source = output_source(&described, &settings(CStandard::C99), "out").unwrap();
    assert_eq!(source.name(), "sub/sensors.rune.c");
    assert_eq!(source.path(), "out");
    let text = source.contents();
    assert!(text.starts_with(
        "#include \"sensors.rune.h\"\n\n#include \"rune.h\"\n\nconst rune_descriptor_t RUNIC_PARSER inner_part_descriptor = {\n"
    ));
    assert!(text.ends_with(&with_last_slot(DESCRIPTOR)));
    let bare = output_source(&file("bare", "", vec![]), &settings(CStandard::C99), "out").unwrap();
    assert_eq!(bare.name(), "bare.rune.c");
    assert_eq!(bare.contents(), "#include \"bare.rune.h\"\n\n#include \"rune.h\"\n");
    let wide = structure(
        "Wide",
        vec![member("late", FieldType::Primitive(Primitive::I64), FieldIndex::Numeric(0))],
    );
    assert!(matches!(
        output_source(&file("wide", "", vec![inner_part(), wide]), &settings(CStandard::C95), "out"),
        Err(CompilerError::SourceAndCStandardMismatch)
    ));
}

const DEFINITIONS_PACKED: &str = "#ifndef RUNE_DEFINITIONS_H
#define RUNE_DEFINITIONS_H

// Static definitions
// ———————————————————

#define RUNE_FIELD_INDEX_BITS 0x1F
#define RUNE_PACKAGING_BITS   0xE0

// Configuration dependent definitions
// ————————————————————————————————————

/* These definitions are based on the configurations passed by user to get code generator, such as packing, specific data sections, or other */

#define RUNIC_BITFIELD __attribute__((packed))
#define RUNIC_ENUM
#define RUNIC_PARSER   __attribute__((packed, section(\"rune\")))
#define RUNIC_STRUCT   __attribute__((packed))

// Message dependent definitions
// ——————————————————————————————

/* These definitions are dependent on the declared data, and will vary to adapt to accommodate the sizes of the declared data structures */

#define RUNE_FIELD_SIZE_TYPE   uint16_t
#define RUNE_FIELD_OFFSET_TYPE uint16_t
#define RUNE_MESSAGE_SIZE_TYPE uint16_t
#define RUNE_PARSER_INDEX_TYPE uint8_t
#define RUNE_FIELD_INFO_COUNT

/** Defines whether and how metadata generated by the rune compiler should be packed optimized */
#define RUNIC_METADATA __attribute__((packed))

#endif // RUNIC_DEFINITIONS_H
";

#[test]
fn the_definitions_follow_the_choices_of_the_user() {
    let mut packed = settings(CStandard::C99);
    packed.compiler_configurations.pack_data = true;
    packed.compiler_configurations.pack_metadata = true;
    packed.compiler_configurations.section = Some(String::from("rune"));
    let file = output_runic_definitions(&vec![], &packed, "out").unwrap();
    assert_eq!(file.name(), "runic_definitions.h");
    assert_eq!(file.path(), "out");
    assert_eq!(file.contents(), with_empty_values(DEFINITIONS_PACKED));

    let mut plain = settings(CStandard::C89);
    plain.compiler_configurations.section = Some(String::from("rune"));
    let file = output_runic_definitions(&vec![], &plain, "out").unwrap();
    let expected = with_empty_values(DEFINITIONS_PACKED)
        .replace(
            "#define RUNIC_PARSER   __attribute__((packed, section(\"rune\")))",
            "#define RUNIC_PARSER   __attribute__((section(\"rune\")))",
        )
        .replace("#define RUNIC_STRUCT   __attribute__((packed))", "#define RUNIC_STRUCT   ")
        .replace("uint16_t", "size_t")
        .replace("uint8_t", "size_t")
        .replace("#define RUNE_FIELD_INFO_COUNT ", "#define RUNE_FIELD_INFO_COUNT 8")
        .replace("#define RUNIC_METADATA __attribute__((packed))", "#define RUNIC_METADATA ");
    assert_eq!(file.contents(), expected);

    let bare = output_runic_definitions(&vec![], &settings(CStandard::C23), "out").unwrap();
    assert!(bare.contents().contains("#define RUNIC_PARSER   \n#define RUNIC_STRUCT   \n"));
}

#[test]
fn the_types_of_the_metadata() {
    assert_eq!(type_from_size(1, &CStandard::C99), Ok(String::from("uint8_t")));
    assert_eq!(type_from_size(2, &CStandard::C89), Ok(String::from("unsigned short")));
    assert_eq!(type_from_size(4, &CStandard::C99), Ok(String::from("uint32_t")));
    assert_eq!(type_from_size(8, &CStandard::C99), Ok(String::from("uint64_t")));
    assert_eq!(type_from_size(8, &CStandard::C95), Err(CompilerError::SourceAndCStandardMismatch));
    assert_eq!(type_from_size(0, &CStandard::C99), Err(CompilerError::LogicError));
    assert_eq!(type_from_size(3, &CStandard::C99), Err(CompilerError::LogicError));
    assert_eq!(type_from_size(16, &CStandard::C99), Err(CompilerError::LogicError));

    let mut packed = settings(CStandard::C89);
    packed.compiler_configurations.pack_metadata = true;
    packed.message_size_type_size = 8;
    assert!(matches!(
        output_runic_definitions(&vec![], &packed, "out"),
        Err(CompilerError::SourceAndCStandardMismatch)
    ));
    packed.message_size_type_size = 5;
    assert!(matches!(
        output_runic_definitions(&vec![], &packed, "out"),
        Err(CompilerError::LogicError)
    ));
    packed.message_size_type_size = 4;
    packed.largest_message_index = usize::MAX;
    assert!(matches!(
        output_runic_definitions(&vec![], &packed, "out"),
        Err(CompilerError::LogicError)
    ));
    packed.compiler_configurations.c_standard = CStandard::C99;
    assert!(output_runic_definitions(&vec![], &packed, "out").is_ok());
}

const PARSER: &str = "#include \"rune.h\"

extern rune_descriptor_t alpha_descriptor;
extern rune_descriptor_t alpha2_descriptor;
extern rune_descriptor_t beta_descriptor;
extern rune_descriptor_t gamma_descriptor;

static rune_descriptor_t* RUNIC_PARSER parser_array[RUNE_PARSER_COUNT] = {
    &alpha_descriptor,
    &alpha2_descriptor,
    &beta_descriptor,
    &gamma_descriptor
};

";

#[test]
fn the_parser_lists_the_structs_by_name() {
    let files = vec![
        file("first", "", vec![structure("beta", vec![]), structure("Gamma", vec![])]),
        file("none", "", vec![]),
        file("second", "", vec![structure("alpha2", vec![]), structure("Alpha", vec![])]),
    ];
    let parser = output_parser(&files, &settings(CStandard::C99), "out").unwrap();
    assert_eq!(parser.name(), "runic_parser.c");
    assert_eq!(parser.path(), "out");
    assert_eq!(parser.contents(), PARSER);
    let empty = output_parser(&vec![], &settings(CStandard::C99), "out").unwrap();
    assert_eq!(
        empty.contents(),
        "#include \"rune.h\"\n\nstatic rune_descriptor_t* RUNIC_PARSER parser_array[RUNE_PARSER_COUNT] = {\n};\n\n"
    );
}

#[test]
fn names_are_ordered_without_regard_to_case() {
    assert!(comes_before("Alpha", "beta"));
    assert!(comes_before("alpha", "Beta"));
    assert!(!comes_before("beta", "Alpha"));
    assert!(comes_before("Alpha", "alpha2"));
    assert!(!comes_before("alpha2", "Alpha"));
    assert!(!comes_before("same", "SAME"));
    assert!(!comes_before("SAME", "same"));
    assert!(comes_before("", "a"));
    assert!(!comes_before("a", ""));
    assert!(!comes_before("", ""));
    assert!(comes_before("Aa", "A_"));
    assert!(!comes_before("A_", "Aa"));
    assert!(comes_before("Z", "_"));
    assert!(comes_before("z", "_"));
}

#[test]
fn structs_of_the_same_name_keep_their_order() {
    let mut first = structure("same", vec![]);
    first.comment = Some(String::from("first"));
    let mut second = structure("SAME", vec![]);
    second.comment = Some(String::from("second"));
    let mut third = structure("Same", vec![]);
    third.comment = Some(String::from("third"));
    let files = vec![
        file("one", "", vec![first, structure("zeta", vec![])]),
        file("two", "", vec![second, structure("Able", vec![]), third]),
    ];
    let gathered = gather_structs(&files);
    let names: Vec<&str> = gathered.iter().map(|item| item.name.as_str()).collect();
    assert_eq!(names, vec!["same", "zeta", "SAME", "Able", "Same"]);
    let sorted = sort_structs(&gathered);
    let comments: Vec<&str> = sorted
        .iter()
        .map(|item| item.comment.as_deref().unwrap_or(item.name.as_str()))
        .collect();
    assert_eq!(comments, vec!["Able", "first", "second", "third", "zeta"]);
}

#[test]
fn a_schema_is_compiled_to_all_its_files() {
    let files = vec![
        file("inner", "", vec![inner_part()]),
        file("sensors", "sub/", vec![reading()]),
    ];
    let written = output_c_files(&files, "out", &chosen(CStandard::C99)).unwrap();
    let names: Vec<&str> = written.iter().map(|file| file.name()).collect();
    assert_eq!(
        names,
        vec![
            "runic_definitions.h",
            "inner.rune.h",
            "inner.rune.c",
            "sub/sensors.rune.h",
            "sub/sensors.rune.c",
            "runic_parser.c",
        ]
    );
    for file in &written {
        assert_eq!(file.path(), "out");
    }
    assert!(written[0].contents().contains("#define RUNE_MESSAGE_SIZE_TYPE size_t\n"));
    assert!(written[3].contents().contains("    inner_part_t child;\n"));
    assert!(written[4].contents().ends_with(&with_last_slot(DESCRIPTOR)));
    assert!(written[5].contents().contains("    &inner_part_descriptor,\n    &sensor_reading_descriptor\n"));
}

#[test]
fn a_schema_that_fails_gives_no_file() {
    let standard = chosen(CStandard::C99);
    assert!(matches!(
        output_c_files(&vec![], "out", &standard),
        Err(CompilerError::ConfigurationError)
    ));
    let beyond = structure(
        "Beyond",
        vec![member("late", FieldType::Primitive(Primitive::U8), FieldIndex::Numeric(40))],
    );
    assert!(matches!(
        output_c_files(&vec![file("inner", "", vec![inner_part()]), file("late", "", vec![beyond])], "out", &standard),
        Err(CompilerError::LogicError)
    ));
    let unlinked = structure(
        "Unlinked",
        vec![member("other", FieldType::UserDefined(String::from("Other")), FieldIndex::Numeric(0))],
    );
    assert!(matches!(
        output_c_files(&vec![file("broken", "", vec![unlinked])], "out", &standard),
        Err(CompilerError::MalformedSource)
    ));
    let wide = structure(
        "Wide",
        vec![member(
            "values",
            FieldType::Array(
                ArrayType::Primitive(Primitive::U64),
                ArraySize::Integer(2, NumeralSystem::Decimal),
            ),
            FieldIndex::Numeric(0),
        )],
    );
    assert!(matches!(
        output_c_files(&vec![file("wide", "", vec![wide])], "out", &chosen(CStandard::C89)),
        Err(CompilerError::SourceAndCStandardMismatch)
    ));
}
