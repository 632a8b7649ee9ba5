use vstd::prelude::*;

use crate::c_standard::CStandard;
use crate::c_utilities::{text_of, CConfigurations, CPrimitive};
use crate::compiler_error::CompilerError;
use crate::header::file_of;
use crate::output_file::{OutputFile, OutputFileView};
use crate::schema::{Primitive, RuneFileDescription};
use crate::text::{digits, lemma_known_lengths, line, line_of, number_text, push_line};

verus! {

/// The unsigned integer type of a width in bytes. Only the widths 1, 2, 4
/// and 8 exist: any other is a logic error.
pub open spec fn spec_type_from_size(size: usize, c_standard: &CStandard) -> Result<
    Seq<char>,
    CompilerError,
> {
    if size == 1 {
        Primitive::U8.spec_to_c_type(c_standard)
    } else if size == 2 {
        Primitive::U16.spec_to_c_type(c_standard)
    } else if size == 4 {
        Primitive::U32.spec_to_c_type(c_standard)
    } else if size == 8 {
        Primitive::U64.spec_to_c_type(c_standard)
    } else {
        Err(CompilerError::LogicError)
    }
}

/// The unsigned integer type of a width in bytes.
pub fn type_from_size(size: usize, c_standard: &CStandard) -> (result: Result<
    String,
    CompilerError,
>)
    ensures
        text_of(result) == spec_type_from_size(size, c_standard),
{
    if size == 1 {
        Primitive::U8.to_c_type(c_standard)
    } else if size == 2 {
        Primitive::U16.to_c_type(c_standard)
    } else if size == 4 {
        Primitive::U32.to_c_type(c_standard)
    } else if size == 8 {
        Primitive::U64.to_c_type(c_standard)
    } else {
        Err(CompilerError::LogicError)
    }
}

/// The attribute list of a kind of declaration as C writes it, or nothing
/// where the list is empty.
pub open spec fn attribute_text(attributes: Seq<char>) -> Seq<char> {
    if attributes.len() == 0 {
        Seq::empty()
    } else {
        "__attribute__(("@ + attributes + "))"@
    }
}

/// The attributes of the parser tables: packed where the data is packed,
/// and placed in the section that the user chose.
pub open spec fn parser_attributes(configurations: &CConfigurations) -> Seq<char> {
    let packed = if configurations.compiler_configurations.pack_data {
        "packed"@
    } else {
        Seq::empty()
    };
    match configurations.compiler_configurations.section {
        None => packed,
        Some(section_name) => if packed.len() == 0 {
            "section(\""@ + section_name@ + "\")"@
        } else {
            packed + (", section(\""@ + section_name@ + "\")"@)
        },
    }
}

/// The attributes of the structs: packed where the data is packed.
pub open spec fn struct_attributes(configurations: &CConfigurations) -> Seq<char> {
    if configurations.compiler_configurations.pack_data {
        "packed"@
    } else {
        Seq::empty()
    }
}

/// The attributes of the descriptors: packed where the metadata is packed.
pub open spec fn metadata_attributes(configurations: &CConfigurations) -> Seq<char> {
    if configurations.compiler_configurations.pack_metadata {
        "packed"@
    } else {
        Seq::empty()
    }
}

/// The type of one kind of number in the descriptors: the smallest that
/// fits where the metadata is packed, else `size_t`.
pub open spec fn metadata_type(configurations: &CConfigurations, size: usize) -> Result<
    Seq<char>,
    CompilerError,
> {
    if configurations.compiler_configurations.pack_metadata {
        spec_type_from_size(size, &configurations.compiler_configurations.c_standard)
    } else {
        Ok("size_t"@)
    }
}

/// The number of fields of the table of a descriptor: left open where the
/// standard has flexible array members, else one more than the largest index.
pub open spec fn field_info_count(configurations: &CConfigurations) -> Result<
    Seq<char>,
    CompilerError,
> {
    if configurations.compiler_configurations.c_standard.spec_allows_flexible_array_members() {
        Ok(Seq::empty())
    } else if configurations.largest_message_index == usize::MAX {
        Err(CompilerError::LogicError)
    } else {
        Ok(digits((configurations.largest_message_index + 1) as nat, 10))
    }
}

/// The lines at the head of the definitions: the guard and what never changes.
pub open spec fn static_definitions() -> Seq<char> {
    line("#ifndef RUNE_DEFINITIONS_H"@) + line("#define RUNE_DEFINITIONS_H"@) + "\n"@ + line(
        "// Static definitions"@,
    ) + line("// ———————————————————"@) + "\n"@ + line("#define RUNE_FIELD_INDEX_BITS 0x1F"@)
        + line("#define RUNE_PACKAGING_BITS   0xE0"@) + "\n"@
}

/// The lines that depend on the choices of the user.
pub open spec fn configuration_definitions(configurations: &CConfigurations) -> Seq<char> {
    line("// Configuration dependent definitions"@) + line(
        "// ————————————————————————————————————"@,
    ) + "\n"@ + line(
        "/* These definitions are based on the configurations passed by user to get code generator, such as packing, specific data sections, or other */"@,
    ) + "\n"@ + line("#define RUNIC_BITFIELD "@ + attribute_text("packed"@)) + line(
        "#define RUNIC_ENUM     "@ + attribute_text(Seq::empty()),
    ) + line("#define RUNIC_PARSER   "@ + attribute_text(parser_attributes(configurations)))
        + line("#define RUNIC_STRUCT   "@ + attribute_text(struct_attributes(configurations)))
        + "\n"@
}

/// The lines that depend on the schema: the types of the numbers in the
/// descriptors.
pub open spec fn message_definitions(configurations: &CConfigurations) -> Result<
    Seq<char>,
    CompilerError,
> {
    match metadata_type(configurations, configurations.field_size_type_size) {
        Err(error) => Err(error),
        Ok(field_size) => match metadata_type(
            configurations,
            configurations.field_offset_type_size,
        ) {
            Err(error) => Err(error),
            Ok(field_offset) => match metadata_type(
                configurations,
                configurations.message_size_type_size,
            ) {
                Err(error) => Err(error),
                Ok(message_size) => match metadata_type(
                    configurations,
                    configurations.parser_index_type_size,
                ) {
                    Err(error) => Err(error),
                    Ok(parser_index) => match field_info_count(configurations) {
                        Err(error) => Err(error),
                        Ok(count) => Ok(
                            line("// Message dependent definitions"@) + line(
                                "// ——————————————————————————————"@,
                            ) + "\n"@ + line(
                                "/* These definitions are dependent on the declared data, and will vary to adapt to accommodate the sizes of the declared data structures */"@,
                            ) + "\n"@ + line("#define RUNE_FIELD_SIZE_TYPE   "@ + field_size)
                                + line("#define RUNE_FIELD_OFFSET_TYPE "@ + field_offset) + line(
                                "#define RUNE_MESSAGE_SIZE_TYPE "@ + message_size,
                            ) + line("#define RUNE_PARSER_INDEX_TYPE "@ + parser_index) + line(
                                "#define RUNE_FIELD_INFO_COUNT "@ + count,
                            ) + "\n"@,
                        ),
                    },
                },
            },
        },
    }
}

/// The last lines of the definitions.
pub open spec fn metadata_definitions(configurations: &CConfigurations) -> Seq<char> {
    line(
        "/** Defines whether and how metadata generated by the rune compiler should be packed optimized */"@,
    ) + line("#define RUNIC_METADATA "@ + attribute_text(metadata_attributes(configurations)))
        + "\n"@ + line("#endif // RUNIC_DEFINITIONS_H"@)
}

/// The file of the definitions that all generated files share, or the
/// error that generating it ends in.
#[verifier::opaque]
pub open spec fn definitions_file(configurations: &CConfigurations, output_path: Seq<char>) -> Result<
    OutputFileView,
    CompilerError,
> {
    match message_definitions(configurations) {
        Err(error) => Err(error),
        Ok(messages) => Ok(
            OutputFileView {
                path: output_path,
                name: "runic_definitions.h"@,
                text: static_definitions() + configuration_definitions(configurations) + messages
                    + metadata_definitions(configurations),
            },
        ),
    }
}

/// The attribute list of a kind of declaration as C writes it.
pub fn attribute_string(attributes: &str) -> (text: String)
    ensures
        text@ == attribute_text(attributes@),
{
    if attributes.unicode_len() == 0 {
        String::new()
    } else {
        let mut text = String::from_str("__attribute__((");
        text.append(attributes);
        text.append("))");
        text
    }
}

/// The type of one kind of number in the descriptors.
pub fn metadata_type_text(configurations: &CConfigurations, size: usize) -> (result: Result<
    String,
    CompilerError,
>)
    ensures
        text_of(result) == metadata_type(configurations, size),
{
    if configurations.compiler_configurations.pack_metadata {
        type_from_size(size, &configurations.compiler_configurations.c_standard)
    } else {
        Ok(String::from_str("size_t"))
    }
}

/// The lines at the head of the definitions.
pub fn static_definitions_text() -> (text: String)
    ensures
        text@ == static_definitions(),
{
    let mut text = line_of("#ifndef RUNE_DEFINITIONS_H");
    push_line(&mut text, "#define RUNE_DEFINITIONS_H");
    text.append("\n");

    push_line(&mut text, "// Static definitions");
    push_line(&mut text, "// ———————————————————");
    text.append("\n");

    push_line(&mut text, "#define RUNE_FIELD_INDEX_BITS 0x1F");
    push_line(&mut text, "#define RUNE_PACKAGING_BITS   0xE0");
    text.append("\n");
    text
}

/// The lines that depend on the choices of the user.
pub fn configuration_definitions_text(configurations: &CConfigurations) -> (text: String)
    ensures
        text@ == configuration_definitions(configurations),
{
    // Parse "packed" attribute: bitfields are always packed
    let bitfield_attributes = String::from_str("packed");
    // Enums have backing types, and do not need to be packed
    let enum_attributes = String::new();
    let mut parser_attributes = String::new();
    let mut struct_attributes = String::new();

    if configurations.compiler_configurations.pack_data {
        // Parser
        parser_attributes = String::from_str("packed");
        // Structs
        struct_attributes = String::from_str("packed");
    }

    // Parse "section" attribute
    match &configurations.compiler_configurations.section {
        Some(section_name) => {
            if parser_attributes.as_str().unicode_len() == 0 {
                let mut section = String::from_str("section(\"");
                section.append(section_name.as_str());
                section.append("\")");
                parser_attributes = section;
            } else {
                let mut section = String::from_str(", section(\"");
                section.append(section_name.as_str());
                section.append("\")");
                parser_attributes.append(section.as_str());
            }
        },
        None => {},
    }
    proof {
        lemma_known_lengths();
    }

    let mut text = line_of("// Configuration dependent definitions");
    push_line(&mut text, "// ————————————————————————————————————");
    text.append("\n");
    push_line(
        &mut text,
        "/* These definitions are based on the configurations passed by user to get code generator, such as packing, specific data sections, or other */",
    );
    text.append("\n");

    let mut bitfield = String::from_str("#define RUNIC_BITFIELD ");
    bitfield.append(attribute_string(bitfield_attributes.as_str()).as_str());
    push_line(&mut text, bitfield.as_str());
    let mut enumeration = String::from_str("#define RUNIC_ENUM     ");
    enumeration.append(attribute_string(enum_attributes.as_str()).as_str());
    push_line(&mut text, enumeration.as_str());
    let mut parser = String::from_str("#define RUNIC_PARSER   ");
    parser.append(attribute_string(parser_attributes.as_str()).as_str());
    push_line(&mut text, parser.as_str());
    let mut structure = String::from_str("#define RUNIC_STRUCT   ");
    structure.append(attribute_string(struct_attributes.as_str()).as_str());
    push_line(&mut text, structure.as_str());
    text.append("\n");
    text
}

/// The lines that depend on the schema.
pub fn message_definitions_text(configurations: &CConfigurations) -> (result: Result<
    String,
    CompilerError,
>)
    ensures
        text_of(result) == message_definitions(configurations),
{
    let c_standard: &CStandard = &configurations.compiler_configurations.c_standard;
    let field_size = metadata_type_text(configurations, configurations.field_size_type_size)?;
    let field_offset = metadata_type_text(configurations, configurations.field_offset_type_size)?;
    let message_size = metadata_type_text(configurations, configurations.message_size_type_size)?;
    let parser_index = metadata_type_text(configurations, configurations.parser_index_type_size)?;
    let count = if c_standard.allows_flexible_array_members() {
        String::new()
    } else if configurations.largest_message_index == usize::MAX {
        return Err(CompilerError::LogicError);
    } else {
        number_text((configurations.largest_message_index + 1) as u64, 10)
    };

    let mut text = line_of("// Message dependent definitions");
    push_line(&mut text, "// ——————————————————————————————");
    text.append("\n");
    push_line(
        &mut text,
        "/* These definitions are dependent on the declared data, and will vary to adapt to accommodate the sizes of the declared data structures */",
    );
    text.append("\n");

    let mut row = String::from_str("#define RUNE_FIELD_SIZE_TYPE   ");
    row.append(field_size.as_str());
    push_line(&mut text, row.as_str());
    let mut row = String::from_str("#define RUNE_FIELD_OFFSET_TYPE ");
    row.append(field_offset.as_str());
    push_line(&mut text, row.as_str());
    let mut row = String::from_str("#define RUNE_MESSAGE_SIZE_TYPE ");
    row.append(message_size.as_str());
    push_line(&mut text, row.as_str());
    let mut row = String::from_str("#define RUNE_PARSER_INDEX_TYPE ");
    row.append(parser_index.as_str());
    push_line(&mut text, row.as_str());
    let mut row = String::from_str("#define RUNE_FIELD_INFO_COUNT ");
    row.append(count.as_str());
    push_line(&mut text, row.as_str());
    text.append("\n");
    Ok(text)
}

/// The last lines of the definitions.
pub fn metadata_definitions_text(configurations: &CConfigurations) -> (text: String)
    ensures
        text@ == metadata_definitions(configurations),
{
    let metadata_attributes = if configurations.compiler_configurations.pack_metadata {
        String::from_str("packed")
    } else {
        String::new()
    };
    proof {
        lemma_known_lengths();
    }
    let mut text = line_of(
        "/** Defines whether and how metadata generated by the rune compiler should be packed optimized */",
    );
    let mut row = String::from_str("#define RUNIC_METADATA ");
    row.append(attribute_string(metadata_attributes.as_str()).as_str());
    push_line(&mut text, row.as_str());
    text.append("\n");
    push_line(&mut text, "#endif // RUNIC_DEFINITIONS_H");
    text
}

/// The file of the definitions that all generated files share. It depends
/// on the choices of the user and the widths that the schema decided, and on
/// nothing else of the schema.
pub fn output_runic_definitions(
    _file_descriptions: &Vec<RuneFileDescription>,
    configurations: &CConfigurations,
    output_path: &str,
) -> (result: Result<OutputFile, CompilerError>)
    ensures
        file_of(result) == definitions_file(configurations, output_path@),
{
    proof {
        reveal(definitions_file);
    }
    let messages = message_definitions_text(configurations)?;

    // Create output file
    let definitions_file_string: String = String::from_str("runic_definitions.h");
    proof {
        lemma_known_lengths();
    }
    let mut definitions_file: OutputFile = OutputFile::new(
        String::from_str(output_path),
        definitions_file_string,
    );

    let mut text = static_definitions_text();
    text.append(configuration_definitions_text(configurations).as_str());
    text.append(messages.as_str());
    text.append(metadata_definitions_text(configurations).as_str());
    definitions_file.add_text(text.as_str());
    proof {
        assert(definitions_file@.text =~= text@);
    }
    Ok(definitions_file)
}

} // verus!
