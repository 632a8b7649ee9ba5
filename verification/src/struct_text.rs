use vstd::prelude::*;

use crate::c_standard::CStandard;
use crate::c_utilities::{
    pascal_to_snake_case, pascal_to_uppercase, snake_case, spaces, upper_case, CConfigurations,
    CFieldType, CStructDefinition, CompileConfigurations,
};
use crate::compiler_error::CompilerError;
use crate::header::{comment_line, comment_text, member_comment, member_comment_text};
use crate::output_file::{appended, OutputFile};
use crate::schema::{StructDefinition, StructMember};
use crate::text::{
    byte_length, gap, gap_between, line, line_of, push_line, spaces_text, text_length,
};

verus! {

// Declaration of a struct

/// The lines that declare one member of a struct.
pub open spec fn struct_member_row(member: &StructMember, index: int, c_standard: &CStandard) -> Result<
    Seq<char>,
    CompilerError,
> {
    match member.data_type.spec_create_c_variable(snake_case(member.identifier@), 0, c_standard) {
        Ok(declaration) => Ok(
            member_comment(index, member.comment) + line("    "@ + declaration + ";"@),
        ),
        Err(error) => Err(error),
    }
}

/// The lines that declare the first `upto` members of a struct, or the
/// error of the first member that cannot be declared.
pub open spec fn struct_rows(members: Seq<StructMember>, c_standard: &CStandard, upto: int) -> Result<
    Seq<char>,
    CompilerError,
>
    decreases upto,
{
    if upto <= 0 {
        Ok(Seq::empty())
    } else {
        match struct_rows(members, c_standard, upto - 1) {
            Err(error) => Err(error),
            Ok(before) => match struct_member_row(&members[upto - 1], upto - 1, c_standard) {
                Err(error) => Err(error),
                Ok(row) => Ok(before + row),
            },
        }
    }
}

/// The lines of the declaration of a struct: its members in the order of
/// the layout, and the declaration of its descriptor.
#[verifier::opaque]
pub open spec fn struct_text(
    struct_definition: &StructDefinition,
    configurations: &CompileConfigurations,
) -> Result<Seq<char>, CompilerError> {
    let struct_name = snake_case(struct_definition.name@);
    match struct_definition.spec_layout(configurations) {
        Err(error) => Err(error),
        Ok(members) => match struct_rows(
            members,
            &configurations.c_standard,
            members.len() as int,
        ) {
            Err(error) => Err(error),
            Ok(rows) => Ok(
                comment_line(struct_definition.comment) + line(
                    "typedef struct RUNIC_STRUCT "@ + struct_name + " {"@,
                ) + rows + line("} "@ + struct_name + "_t;"@) + "\n"@ + line(
                    "extern const rune_descriptor_t "@ + struct_name + "_descriptor;"@,
                ) + "\n"@,
            ),
        },
    }
}

/// Once a member cannot be declared, more members do not change the outcome.
pub proof fn lemma_struct_rows_failure_stays(
    members: Seq<StructMember>,
    c_standard: &CStandard,
    earlier: int,
    later: int,
)
    requires
        earlier <= later,
        struct_rows(members, c_standard, earlier) is Err,
    ensures
        struct_rows(members, c_standard, later) == struct_rows(members, c_standard, earlier),
    decreases later - earlier,
{
    if earlier < later {
        lemma_struct_rows_failure_stays(members, c_standard, earlier, later - 1);
    }
}

/// Whether a list of references holds some members, one for one.
pub open spec fn holds_members(list: Seq<&StructMember>, members: Seq<StructMember>) -> bool {
    list.len() == members.len() && forall|k: int|
        0 <= k < list.len() ==> *(#[trigger] list[k]) == members[k]
}

/// Output a struct into the header file
pub fn output_struct<'a>(
    header_file: &mut OutputFile,
    configurations: &CConfigurations,
    struct_definition: &'a StructDefinition,
) -> (result: Result<Vec<&'a StructMember>, CompilerError>)
    ensures
        match struct_text(struct_definition, &configurations.compiler_configurations) {
            Ok(text) => {
                &&& appended(old(header_file)@, final(header_file)@, text)
                &&& result is Ok
                &&& struct_definition.spec_layout(&configurations.compiler_configurations) is Ok
                &&& holds_members(
                    result->Ok_0@,
                    struct_definition.spec_layout(&configurations.compiler_configurations)->Ok_0,
                )
            },
            Err(error) => result == Err::<Vec<&'a StructMember>, CompilerError>(error)
                && final(header_file)@ == old(header_file)@,
        },
{
    proof {
        reveal(struct_text);
    }
    let c_standard = &configurations.compiler_configurations.c_standard;

    // Print comment if present
    let mut text = comment_text(&struct_definition.comment);

    let struct_name: String = pascal_to_snake_case(struct_definition.name.as_str());

    let mut opening = String::from_str("typedef struct RUNIC_STRUCT ");
    opening.append(struct_name.as_str());
    opening.append(" {");
    push_line(&mut text, opening.as_str());

    // Sorted list --> Then use sorted list instead of other one
    let sorted_member_list: Vec<&'a StructMember> = struct_definition.layout(
        &configurations.compiler_configurations,
    )?;
    let ghost members = struct_definition.spec_layout(
        &configurations.compiler_configurations,
    )->Ok_0;

    // Print all struct members
    let mut rows = String::new();
    let mut i: usize = 0;
    while i < sorted_member_list.len()
        invariant
            i <= sorted_member_list.len(),
            holds_members(sorted_member_list@, members),
            c_standard == &configurations.compiler_configurations.c_standard,
            struct_definition.spec_layout(&configurations.compiler_configurations) == Ok::<
                Seq<StructMember>,
                CompilerError,
            >(members),
            struct_rows(members, c_standard, i as int) == Ok::<Seq<char>, CompilerError>(rows@),
        decreases sorted_member_list.len() - i,
    {
        let struct_member: &StructMember = sorted_member_list[i];
        proof {
            assert(*sorted_member_list@[i as int] == members[i as int]);
        }

        // Member comment
        let mut chunk = member_comment_text(i, &struct_member.comment);

        let member_name: String = pascal_to_snake_case(struct_member.identifier.as_str());
        let spacing: usize = 0;

        match struct_member.data_type.create_c_variable(member_name.as_str(), spacing, c_standard) {
            Err(error) => {
                proof {
                    reveal(struct_text);
                    assert(struct_rows(members, c_standard, i + 1) == Err::<
                        Seq<char>,
                        CompilerError,
                    >(error));
                    lemma_struct_rows_failure_stays(
                        members,
                        c_standard,
                        i + 1,
                        members.len() as int,
                    );
                    assert(struct_definition.spec_layout(&configurations.compiler_configurations)
                        == Ok::<Seq<StructMember>, CompilerError>(members));
                    assert(struct_text(struct_definition, &configurations.compiler_configurations)
                        == Err::<Seq<char>, CompilerError>(error));
                }
                return Err(error);
            },
            Ok(declaration) => {
                let mut row = String::from_str("    ");
                row.append(declaration.as_str());
                row.append(";");
                push_line(&mut chunk, row.as_str());
            },
        }
        rows.append(chunk.as_str());
        i = i + 1;
    }
    text.append(rows.as_str());

    let mut closing = String::from_str("} ");
    closing.append(struct_name.as_str());
    closing.append("_t;");
    push_line(&mut text, closing.as_str());
    text.append("\n");

    let mut descriptor = String::from_str("extern const rune_descriptor_t ");
    descriptor.append(struct_name.as_str());
    descriptor.append("_descriptor;");
    push_line(&mut text, descriptor.as_str());
    text.append("\n");

    header_file.add_text(text.as_str());
    Ok(sorted_member_list)
}

// Initializer of a struct

/// The length of the longest identifier among the first `upto` members.
pub open spec fn longest_identifier(members: Seq<StructMember>, upto: int) -> usize
    decreases upto,
{
    if upto <= 0 {
        0
    } else if byte_length(members[upto - 1].identifier@) > longest_identifier(members, upto - 1) {
        byte_length(members[upto - 1].identifier@)
    } else {
        longest_identifier(members, upto - 1)
    }
}

/// The comma behind every value of an initializer but the last.
pub open spec fn initializer_comma(index: int, count: int) -> Seq<char> {
    if index != count - 1 {
        ","@
    } else {
        ""@
    }
}

/// A number that is not negative, or zero in its place.
pub open spec fn at_least_zero(value: int) -> nat {
    if value < 0 {
        0
    } else {
        value as nat
    }
}

/// The first line of the macro that initializes a struct, up to the spaces
/// that line up the backslashes.
pub open spec fn initializer_opening(name: Seq<char>) -> Seq<char> {
    "#define "@ + upper_case(name) + "_INIT ("@ + (snake_case(name) + "_t"@) + ") {"@
}

/// A line of the macro that initializes a struct, with a given number of
/// spaces in front of the backslash.
pub open spec fn initializer_row(
    member: &StructMember,
    index: int,
    count: int,
    longest: usize,
    filler: nat,
    c_standard: &CStandard,
) -> Result<Seq<char>, CompilerError> {
    match member.data_type.spec_c_initializer(c_standard) {
        Err(error) => Err(error),
        Ok(value) => Ok(
            if c_standard.spec_allows_designated_initializers() {
                "    ."@ + member.identifier@ + spaces_text(
                    gap(longest, byte_length(member.identifier@)) as nat,
                ) + " = "@ + value + initializer_comma(index, count) + " "@ + spaces_text(filler)
                    + "\\"@
            } else {
                "    "@ + value + initializer_comma(index, count) + " "@ + spaces_text(filler)
                    + "\\"@
            },
        ),
    }
}

/// The column of the backslashes, as far as the first `upto` members
/// decide it: the length of the longest line without its last two characters,
/// and at least the length of the first line.
pub open spec fn backslash_column(
    members: Seq<StructMember>,
    longest: usize,
    opening: usize,
    c_standard: &CStandard,
    upto: int,
) -> Result<usize, CompilerError>
    decreases upto,
{
    if upto <= 0 {
        Ok(opening)
    } else {
        match backslash_column(members, longest, opening, c_standard, upto - 1) {
            Err(error) => Err(error),
            Ok(before) => match initializer_row(
                &members[upto - 1],
                upto - 1,
                members.len() as int,
                longest,
                0,
                c_standard,
            ) {
                Err(error) => Err(error),
                Ok(row) => Ok(
                    if byte_length(row) - 2 > before {
                        (byte_length(row) - 2) as usize
                    } else {
                        before
                    },
                ),
            },
        }
    }
}

/// The spaces in front of the backslash of the line of a member.
pub open spec fn row_filler(
    member: &StructMember,
    index: int,
    count: int,
    longest: usize,
    column: usize,
    c_standard: &CStandard,
) -> nat {
    let value = match member.data_type.spec_c_initializer(c_standard) {
        Ok(value) => byte_length(value),
        Err(_) => 0,
    };
    filler_width(
        column,
        longest,
        value,
        c_standard.spec_allows_designated_initializers(),
        index == count - 1,
    ) as nat
}

/// The spaces between a value and the backslash at the end of its line:
/// what the fixed parts of the line, the longest identifier and the value leave
/// of the column of the backslashes. The last line has no comma and gets one
/// space more.
pub open spec fn filler_width(
    column: usize,
    longest: usize,
    value: usize,
    designated: bool,
    last: bool,
) -> usize {
    let bonus: int = if last {
        1
    } else {
        0
    };
    if designated {
        at_least_zero(column - longest - value - 9 + bonus) as usize
    } else {
        at_least_zero(column - value - 5 + bonus) as usize
    }
}

/// The spaces between a value and the backslash at the end of its line.
pub fn filler_of(column: usize, longest: usize, value: usize, designated: bool, last: bool) -> (filler:
    usize)
    ensures
        filler == filler_width(column, longest, value, designated, last),
{
    let bonus: i128 = if last {
        1
    } else {
        0
    };
    let wanted: i128 = if designated {
        column as i128 - longest as i128 - value as i128 - 9 + bonus
    } else {
        column as i128 - value as i128 - 5 + bonus
    };
    if wanted < 0 {
        0
    } else {
        wanted as usize
    }
}

/// The lines of the first `upto` members of the macro that initializes a struct.
pub open spec fn initializer_rows(
    members: Seq<StructMember>,
    longest: usize,
    column: usize,
    c_standard: &CStandard,
    upto: int,
) -> Result<Seq<char>, CompilerError>
    decreases upto,
{
    if upto <= 0 {
        Ok(Seq::empty())
    } else {
        match initializer_rows(members, longest, column, c_standard, upto - 1) {
            Err(error) => Err(error),
            Ok(before) => match initializer_row(
                &members[upto - 1],
                upto - 1,
                members.len() as int,
                longest,
                row_filler(
                    &members[upto - 1],
                    upto - 1,
                    members.len() as int,
                    longest,
                    column,
                    c_standard,
                ),
                c_standard,
            ) {
                Err(error) => Err(error),
                Ok(row) => Ok(before + line(row)),
            },
        }
    }
}

/// The lines of the macro that initializes a struct with zeros, and of the
/// macro that names its descriptor.
#[verifier::opaque]
pub open spec fn struct_initializer_text(
    struct_definition: &StructDefinition,
    configurations: &CompileConfigurations,
) -> Result<Seq<char>, CompilerError> {
    let name = struct_definition.name@;
    let c_standard = &configurations.c_standard;
    match struct_definition.spec_layout(configurations) {
        Err(error) => Err(error),
        Ok(members) => {
            let longest = longest_identifier(members, members.len() as int);
            match backslash_column(
                members,
                longest,
                byte_length(initializer_opening(name)),
                c_standard,
                members.len() as int,
            ) {
                Err(error) => Err(error),
                Ok(column) => match initializer_rows(
                    members,
                    longest,
                    column,
                    c_standard,
                    members.len() as int,
                ) {
                    Err(error) => Err(error),
                    Ok(rows) => Ok(
                        line(
                            "#define "@ + upper_case(name) + "_INIT ("@ + snake_case(name)
                                + "_t) { "@ + spaces_text(
                                at_least_zero(
                                    column - (20 + byte_length(upper_case(name)) + byte_length(
                                        snake_case(name),
                                    )),
                                ),
                            ) + "\\"@,
                        ) + rows + line("}"@) + "\n"@ + line(
                            "#define "@ + upper_case(name) + "_DESCRIPTOR &"@ + snake_case(name)
                                + "_descriptor"@,
                        ) + "\n"@,
                    ),
                },
            }
        },
    }
}

/// Once a value cannot be had, more members do not change the outcome.
pub proof fn lemma_backslash_column_failure_stays(
    members: Seq<StructMember>,
    longest: usize,
    opening: usize,
    c_standard: &CStandard,
    earlier: int,
    later: int,
)
    requires
        earlier <= later,
        backslash_column(members, longest, opening, c_standard, earlier) is Err,
    ensures
        backslash_column(members, longest, opening, c_standard, later) == backslash_column(
            members,
            longest,
            opening,
            c_standard,
            earlier,
        ),
    decreases later - earlier,
{
    if earlier < later {
        lemma_backslash_column_failure_stays(
            members,
            longest,
            opening,
            c_standard,
            earlier,
            later - 1,
        );
    }
}

/// Once a line cannot be had, more members do not change the outcome.
pub proof fn lemma_initializer_rows_failure_stays(
    members: Seq<StructMember>,
    longest: usize,
    column: usize,
    c_standard: &CStandard,
    earlier: int,
    later: int,
)
    requires
        earlier <= later,
        initializer_rows(members, longest, column, c_standard, earlier) is Err,
    ensures
        initializer_rows(members, longest, column, c_standard, later) == initializer_rows(
            members,
            longest,
            column,
            c_standard,
            earlier,
        ),
    decreases later - earlier,
{
    if earlier < later {
        lemma_initializer_rows_failure_stays(
            members,
            longest,
            column,
            c_standard,
            earlier,
            later - 1,
        );
    }
}

/// A line of the macro that initializes a struct.
pub fn initializer_row_text(
    member: &StructMember,
    index: usize,
    count: usize,
    longest: usize,
    filler: usize,
    c_standard: &CStandard,
) -> (result: Result<String, CompilerError>)
    ensures
        match (
            result,
            initializer_row(member, index as int, count as int, longest, filler as nat, c_standard),
        ) {
            (Ok(text), Ok(expected)) => text@ == expected,
            (Err(error), Err(expected)) => error == expected,
            _ => false,
        },
{
    let value = member.data_type.c_initializer(c_standard)?;
    let mut text = if c_standard.allows_designated_initializers() {
        let mut text = String::from_str("    .");
        text.append(member.identifier.as_str());
        text.append(
            spaces(gap_between(longest, text_length(member.identifier.as_str()))).as_str(),
        );
        text.append(" = ");
        text
    } else {
        String::from_str("    ")
    };
    text.append(value.as_str());
    if count == 0 || index != count - 1 {
        text.append(",");
    } else {
        text.append("");
    }
    text.append(" ");
    text.append(spaces(filler).as_str());
    text.append("\\");
    Ok(text)
}

/// Outputs the macro that initializes a struct with zeros
pub fn output_struct_initializer(
    output_file: &mut OutputFile,
    configurations: &CConfigurations,
    struct_definition: &StructDefinition,
) -> (result: Result<(), CompilerError>)
    ensures
        match struct_initializer_text(struct_definition, &configurations.compiler_configurations) {
            Ok(text) => result is Ok && appended(old(output_file)@, final(output_file)@, text),
            Err(error) => result == Err::<(), CompilerError>(error) && final(output_file)@ == old(
                output_file,
            )@,
        },
{
    proof {
        reveal(struct_initializer_text);
    }
    let c_standard: &CStandard = &configurations.compiler_configurations.c_standard;
    let designated = c_standard.allows_designated_initializers();

    let sorted_member_list: Vec<&StructMember> = struct_definition.layout(
        &configurations.compiler_configurations,
    )?;
    let ghost members = struct_definition.spec_layout(
        &configurations.compiler_configurations,
    )->Ok_0;
    let count = sorted_member_list.len();

    // Calculate spacing for aligning the '=' sign
    let mut pre_equal_length: usize = 0;
    let mut i: usize = 0;
    while i < count
        invariant
            i <= count,
            count == sorted_member_list.len(),
            holds_members(sorted_member_list@, members),
            pre_equal_length == longest_identifier(members, i as int),
        decreases count - i,
    {
        proof {
            assert(*sorted_member_list@[i as int] == members[i as int]);
        }
        let length = text_length(sorted_member_list[i].identifier.as_str());
        if length > pre_equal_length {
            pre_equal_length = length;
        }
        i = i + 1;
    }

    // Calculate the space for aligning the '\' at the end
    let upper_name = pascal_to_uppercase(struct_definition.name.as_str());
    let snake_name = pascal_to_snake_case(struct_definition.name.as_str());
    let mut type_text = pascal_to_snake_case(struct_definition.name.as_str());
    type_text.append("_t");
    let mut initializer_string = String::from_str("#define ");
    initializer_string.append(upper_name.as_str());
    initializer_string.append("_INIT (");
    initializer_string.append(type_text.as_str());
    initializer_string.append(") {");
    let opening_length = text_length(initializer_string.as_str());
    let mut pre_newline_length: usize = opening_length;

    // Calculate spacing for after the newline
    let mut i: usize = 0;
    while i < count
        invariant
            i <= count,
            count == sorted_member_list.len(),
            holds_members(sorted_member_list@, members),
            c_standard == &configurations.compiler_configurations.c_standard,
            struct_definition.spec_layout(&configurations.compiler_configurations) == Ok::<
                Seq<StructMember>,
                CompilerError,
            >(members),
            pre_equal_length == longest_identifier(members, members.len() as int),
            opening_length == byte_length(initializer_opening(struct_definition.name@)),
            backslash_column(members, pre_equal_length, opening_length, c_standard, i as int)
                == Ok::<usize, CompilerError>(pre_newline_length),
        decreases count - i,
    {
        proof {
            assert(*sorted_member_list@[i as int] == members[i as int]);
        }
        match initializer_row_text(
            sorted_member_list[i],
            i,
            count,
            pre_equal_length,
            0,
            c_standard,
        ) {
            Err(error) => {
                proof {
                    reveal(struct_initializer_text);
                    assert(backslash_column(
                        members,
                        pre_equal_length,
                        opening_length,
                        c_standard,
                        i + 1,
                    ) == Err::<usize, CompilerError>(error));
                    lemma_backslash_column_failure_stays(
                        members,
                        pre_equal_length,
                        opening_length,
                        c_standard,
                        i + 1,
                        count as int,
                    );
                }
                return Err(error);
            },
            Ok(string) => {
                let length = text_length(string.as_str());
                if length >= 2 && length - 2 > pre_newline_length {
                    pre_newline_length = length - 2;
                }
            },
        }
        i = i + 1;
    }

    // 20 is the number of fixed characters on the define string
    let define_size: u128 = 20u128 + text_length(upper_name.as_str()) as u128 + text_length(
        snake_name.as_str(),
    ) as u128;
    let head_filler: usize = if pre_newline_length as u128 >= define_size {
        (pre_newline_length as u128 - define_size) as usize
    } else {
        0
    };

    let mut head = String::from_str("#define ");
    head.append(upper_name.as_str());
    head.append("_INIT (");
    head.append(snake_name.as_str());
    head.append("_t) { ");
    head.append(spaces(head_filler).as_str());
    head.append("\\");
    let mut text = line_of(head.as_str());

    let mut rows = String::new();
    let mut i: usize = 0;
    while i < count
        invariant
            i <= count,
            count == sorted_member_list.len(),
            designated == c_standard.spec_allows_designated_initializers(),
            holds_members(sorted_member_list@, members),
            c_standard == &configurations.compiler_configurations.c_standard,
            struct_definition.spec_layout(&configurations.compiler_configurations) == Ok::<
                Seq<StructMember>,
                CompilerError,
            >(members),
            pre_equal_length == longest_identifier(members, members.len() as int),
            backslash_column(
                members,
                pre_equal_length,
                byte_length(initializer_opening(struct_definition.name@)),
                c_standard,
                members.len() as int,
            ) == Ok::<usize, CompilerError>(pre_newline_length),
            initializer_rows(members, pre_equal_length, pre_newline_length, c_standard, i as int)
                == Ok::<Seq<char>, CompilerError>(rows@),
        decreases count - i,
    {
        let member: &StructMember = sorted_member_list[i];
        proof {
            assert(*sorted_member_list@[i as int] == members[i as int]);
        }
        let value_length: usize = match member.data_type.c_initializer(c_standard) {
            Ok(value) => text_length(value.as_str()),
            Err(_) => 0,
        };
        let pre_newline: usize = filler_of(
            pre_newline_length,
            pre_equal_length,
            value_length,
            designated,
            i == count - 1,
        );
        proof {
            assert(pre_newline == row_filler(
                &members[i as int],
                i as int,
                count as int,
                pre_equal_length,
                pre_newline_length,
                c_standard,
            ));
        }
        match initializer_row_text(member, i, count, pre_equal_length, pre_newline, c_standard) {
            Err(error) => {
                proof {
                    reveal(struct_initializer_text);
                    assert(initializer_rows(
                        members,
                        pre_equal_length,
                        pre_newline_length,
                        c_standard,
                        i + 1,
                    ) == Err::<Seq<char>, CompilerError>(error));
                    lemma_initializer_rows_failure_stays(
                        members,
                        pre_equal_length,
                        pre_newline_length,
                        c_standard,
                        i + 1,
                        count as int,
                    );
                }
                return Err(error);
            },
            Ok(initializer_string) => {
                push_line(&mut rows, initializer_string.as_str());
            },
        }
        i = i + 1;
    }
    text.append(rows.as_str());
    push_line(&mut text, "}");
    text.append("\n");

    let mut descriptor = String::from_str("#define ");
    descriptor.append(upper_name.as_str());
    descriptor.append("_DESCRIPTOR &");
    descriptor.append(snake_name.as_str());
    descriptor.append("_descriptor");
    push_line(&mut text, descriptor.as_str());
    text.append("\n");

    output_file.add_text(text.as_str());
    Ok(())
}

} // verus!
