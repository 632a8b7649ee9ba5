use vstd::arithmetic::power2::{lemma2_to64, pow2};
use vstd::prelude::*;

use crate::c_standard::CStandard;
use crate::c_utilities::{
    pascal_to_snake_case, pascal_to_uppercase, snake_case, spaces, text_of, upper_case,
    CConfigurations, CNumericValue, CPrimitive,
};
use crate::compiler_error::CompilerError;
use crate::output_file::{relative_name, written, OutputFile, OutputFileView};
use crate::schema::{
    BitSize, BitfieldDefinition, BitfieldMember, DefineDefinition, DefineValue, EnumDefinition,
    EnumMember, IncludeDefinition, NumericLiteral, Primitive, RuneFileDescription,
    StructDefinition,
};
use crate::struct_text::{
    output_struct, output_struct_initializer, struct_initializer_text, struct_text,
};
use crate::text::{
    byte_length, digits, gap, gap_between, line, line_of, number_text, push_line, same_text,
    spaces_text, text_length, to_uppercase, uppercase,
};

verus! {

// Comments

/// The line that holds the comment of a declaration, if it has one.
pub open spec fn comment_line(comment: Option<String>) -> Seq<char> {
    match comment {
        Some(text) => line("/**"@ + text@ + "*/"@),
        None => Seq::empty(),
    }
}

/// The text of a comment, if there is one.
pub open spec fn comment_view(comment: Option<String>) -> Option<Seq<char>> {
    match comment {
        Some(text) => Some(text@),
        None => None,
    }
}

/// The lines that hold the comment of a member, if it has one: an empty line
/// in front of it unless the member is the first, then the comment, indented.
pub open spec fn indented_comment(first: bool, comment: Option<Seq<char>>) -> Seq<char> {
    match comment {
        Some(text) => if first {
            line("    /**"@ + text + "*/"@)
        } else {
            "\n"@ + line("    /**"@ + text + "*/"@)
        },
        None => Seq::empty(),
    }
}

/// The lines that hold the comment of the member at a place of a list.
pub open spec fn member_comment(index: int, comment: Option<String>) -> Seq<char> {
    indented_comment(index == 0, comment_view(comment))
}

/// The line that holds the comment of a declaration, if it has one.
pub fn comment_text(comment: &Option<String>) -> (text: String)
    ensures
        text@ == comment_line(*comment),
{
    match comment {
        Some(comment) => {
            let mut row = String::from_str("/**");
            row.append(comment.as_str());
            row.append("*/");
            line_of(row.as_str())
        },
        None => String::new(),
    }
}

/// The lines that hold the comment of a member, if it has one.
pub fn member_comment_text(index: usize, comment: &Option<String>) -> (text: String)
    ensures
        text@ == member_comment(index as int, *comment),
{
    match comment {
        Some(comment) => {
            let mut row = String::from_str("    /**");
            row.append(comment.as_str());
            row.append("*/");
            if index != 0 {
                let mut text = String::from_str("\n");
                push_line(&mut text, row.as_str());
                text
            } else {
                line_of(row.as_str())
            }
        },
        None => String::new(),
    }
}

// Defines

/// The value that a definition has in the end: that of its redefinition, if
/// there is one.
pub open spec fn define_value(define: &DefineDefinition) -> Seq<char> {
    let value = match define.redefinition {
        Some(redefine) => redefine.value,
        None => define.value,
    };
    match value {
        DefineValue::NoValue => Seq::empty(),
        DefineValue::NumericLiteral(literal) => literal.text(),
    }
}

/// The lines of a define statement.
pub open spec fn define_text(define: &DefineDefinition) -> Seq<char> {
    comment_line(define.comment) + line("#define "@ + define.name@ + " "@ + define_value(define))
}

/// Outputs a define statement into the header file
pub fn output_define(header_file: &mut OutputFile, define: &DefineDefinition)
    ensures
        written::<CompilerError>(
            old(header_file)@,
            final(header_file)@,
            Ok(()),
            Ok(define_text(define)),
        ),
{
    // Print comment if present
    let mut text = comment_text(&define.comment);

    // Check if the value has been redefined. If so, use the redefined value
    let value: &DefineValue = match &define.redefinition {
        Some(redefine) => &redefine.value,
        None => &define.value,
    };
    let define_value: String = match value {
        DefineValue::NoValue => String::new(),
        DefineValue::NumericLiteral(value) => value.to_string(),
    };

    let mut row = String::from_str("#define ");
    row.append(define.name.as_str());
    row.append(" ");
    row.append(define_value.as_str());
    push_line(&mut text, row.as_str());
    header_file.add_text(text.as_str());
}

// Enums

/// Whether a literal is the zero of its kind: false, the integer 0, or a
/// floating point zero of either sign.
pub open spec fn literal_is_zero(value: &NumericLiteral) -> bool {
    match value {
        NumericLiteral::Boolean(value) => !*value,
        NumericLiteral::PositiveInteger(value, _) => *value == 0,
        NumericLiteral::NegativeInteger(value, _) => *value == 0,
        NumericLiteral::Float(bits, _) => *bits == 0 || *bits == 0x8000_0000_0000_0000,
    }
}

/// Whether a literal is the zero of its kind.
pub fn is_zero(value: &NumericLiteral) -> (zero: bool)
    ensures
        zero == literal_is_zero(value),
{
    match value {
        NumericLiteral::Boolean(value) => !*value,
        NumericLiteral::PositiveInteger(value, _) => *value == 0,
        NumericLiteral::NegativeInteger(value, _) => *value == 0,
        NumericLiteral::Float(bits, _) => *bits == 0 || *bits == 0x8000_0000_0000_0000,
    }
}

/// The value that sets an enum to zero, as far as the first `upto` members
/// decide it: the first member whose literal is zero, and `0` while there is none.
pub open spec fn enum_initializer(members: Seq<EnumMember>, upto: int) -> Seq<char>
    decreases upto,
{
    if upto <= 0 {
        "0"@
    } else if literal_is_zero(&members[upto - 1].value) && enum_initializer(members, upto - 1)
        == "0"@ {
        upper_case(members[upto - 1].identifier@)
    } else {
        enum_initializer(members, upto - 1)
    }
}

/// Whether the enum still needs a member that forces its width after the
/// first `upto` members: the standard cannot name the underlying type, and none
/// of those members has a value that asks for the full width.
pub open spec fn needs_sentinel(
    enum_definition: &EnumDefinition,
    c_standard: &CStandard,
    upto: int,
) -> bool
    decreases upto,
{
    if upto <= 0 {
        !c_standard.spec_allows_enum_backing_type()
    } else {
        needs_sentinel(enum_definition, c_standard, upto - 1)
            && enum_definition.members@[upto - 1].value.spec_requires_size()
            != enum_definition.backing_type.spec_c_size()
    }
}

/// The length of the longest name among the first `upto` members.
pub open spec fn longest_enum_name(members: Seq<EnumMember>, upto: int) -> usize
    decreases upto,
{
    if upto <= 0 {
        0
    } else if longest_enum_name(members, upto - 1) < byte_length(
        upper_case(members[upto - 1].identifier@),
    ) {
        byte_length(upper_case(members[upto - 1].identifier@))
    } else {
        longest_enum_name(members, upto - 1)
    }
}

/// The largest value that an unsigned integer of a width in bytes holds.
pub open spec fn sentinel_value(size: u64) -> nat {
    (pow2((8 * size) as nat) - 1) as nat
}

/// The literal of the member that forces the width of an enum: the largest
/// value of that width, in base 16. There is none for a width above 8 bytes.
pub open spec fn sentinel_literal(size: u64) -> Result<Seq<char>, CompilerError> {
    if size == 0 {
        Ok("0"@)
    } else if size == 1 || size == 2 || size == 4 || size == 8 {
        Ok("0x"@ + digits(sentinel_value(size), 16))
    } else {
        Err(CompilerError::LogicError)
    }
}

/// The member that forces the width of an enum holds the largest value of
/// that width, two to the power of the number of its bits less one: `0xFF`
/// for one byte, and so on up to eight bytes.
pub proof fn lemma_sentinel_values()
    ensures
        sentinel_value(1) == 0xFF,
        sentinel_value(2) == 0xFFFF,
        sentinel_value(4) == 0xFFFF_FFFF,
        sentinel_value(8) == 0xFFFF_FFFF_FFFF_FFFF,
        forall|size: u64|
            size == 1 || size == 2 || size == 4 || size == 8 ==> #[trigger] sentinel_literal(size)
                == Ok::<Seq<char>, CompilerError>(
                "0x"@ + digits((pow2((8 * size) as nat) - 1) as nat, 16),
            ),
{
    lemma2_to64();
}

/// An enum gets a member that forces its width exactly where the standard
/// cannot name the underlying type and no member has a value that asks for the
/// full width of the backing type.
pub proof fn lemma_needs_sentinel(
    enum_definition: &EnumDefinition,
    c_standard: &CStandard,
    upto: int,
)
    requires
        0 <= upto <= enum_definition.members@.len(),
    ensures
        needs_sentinel(enum_definition, c_standard, upto) <==> {
            &&& !c_standard.spec_allows_enum_backing_type()
            &&& forall|k: int|
                0 <= k < upto ==> (#[trigger] enum_definition.members@[k]).value.spec_requires_size()
                    != enum_definition.backing_type.spec_c_size()
        },
    decreases upto,
{
    if upto > 0 {
        lemma_needs_sentinel(enum_definition, c_standard, upto - 1);
    }
}

/// The literal of the member that forces the width of an enum.
pub fn sentinel_text(size: u64) -> (result: Result<String, CompilerError>)
    ensures
        match (result, sentinel_literal(size)) {
            (Ok(text), Ok(expected)) => text@ == expected,
            (Err(error), Err(expected)) => error == expected,
            _ => false,
        },
{
    proof {
        lemma2_to64();
    }
    let value: u64 = if size == 0 {
        return Ok(String::from_str("0"));
    } else if size == 1 {
        0xFF
    } else if size == 2 {
        0xFFFF
    } else if size == 4 {
        0xFFFF_FFFF
    } else if size == 8 {
        0xFFFF_FFFF_FFFF_FFFF
    } else {
        return Err(CompilerError::LogicError);
    };
    let mut text = String::from_str("0x");
    text.append(number_text(value, 16).as_str());
    Ok(text)
}

/// The first lines of an enum: its comment and the opening of the
/// declaration, with the underlying type where the standard can name it.
pub open spec fn enum_head(enum_definition: &EnumDefinition, c_standard: &CStandard) -> Result<
    Seq<char>,
    CompilerError,
> {
    let enum_name = snake_case(enum_definition.name@);
    if c_standard.spec_allows_enum_backing_type() {
        match enum_definition.backing_type.spec_to_c_type(c_standard) {
            Ok(c_type) => Ok(
                comment_line(enum_definition.comment) + line(
                    "typedef enum RUNIC_ENUM "@ + enum_name + ": "@ + c_type + " {"@,
                ),
            ),
            Err(error) => Err(error),
        }
    } else {
        Ok(
            comment_line(enum_definition.comment) + line(
                "typedef enum RUNIC_ENUM "@ + enum_name + " {"@,
            ),
        )
    }
}

/// The lines of one member of an enum. The last member ends without a comma,
/// unless the member that forces the width follows.
pub open spec fn enum_member_text(
    enum_definition: &EnumDefinition,
    c_standard: &CStandard,
    index: int,
) -> Seq<char> {
    let members = enum_definition.members@;
    let member_name = upper_case(members[index].identifier@);
    let last = index == members.len() - 1 && !needs_sentinel(
        enum_definition,
        c_standard,
        index + 1,
    );
    member_comment(index, members[index].comment) + line(
        "    "@ + member_name + spaces_text(
            gap(longest_enum_name(members, members.len() as int), byte_length(member_name)) as nat,
        ) + " = "@ + members[index].value.text() + (if last {
            ""@
        } else {
            ","@
        }),
    )
}

/// The lines of the first `upto` members of an enum.
pub open spec fn enum_members_text(
    enum_definition: &EnumDefinition,
    c_standard: &CStandard,
    upto: int,
) -> Seq<char>
    decreases upto,
{
    if upto <= 0 {
        Seq::empty()
    } else {
        enum_members_text(enum_definition, c_standard, upto - 1) + enum_member_text(
            enum_definition,
            c_standard,
            upto - 1,
        )
    }
}

/// The lines of the member that forces the width of an enum, where one is needed.
pub open spec fn enum_sentinel(enum_definition: &EnumDefinition, c_standard: &CStandard) -> Result<
    Seq<char>,
    CompilerError,
> {
    if needs_sentinel(enum_definition, c_standard, enum_definition.members@.len() as int) {
        match enum_definition.backing_type.spec_to_c_type(c_standard) {
            Err(error) => Err(error),
            Ok(c_type) => match sentinel_literal(enum_definition.backing_type.spec_c_size()) {
                Err(error) => Err(error),
                Ok(value) => Ok(
                    "\n"@ + line(
                        "    /** Value to coerce enum to minimum size of declared backing type "@
                            + c_type + " */"@,
                    ) + line(
                        "    "@ + upper_case(enum_definition.name@) + "_SIZE_RESERVE_VALUE = "@
                            + value,
                    ),
                ),
            },
        }
    } else {
        Ok(Seq::empty())
    }
}

/// The last lines of an enum: the end of the declaration, and the macro that
/// sets a value of the enum to zero.
pub open spec fn enum_tail(enum_definition: &EnumDefinition) -> Seq<char> {
    let enum_name = snake_case(enum_definition.name@);
    line("} "@ + enum_name + "_t;"@) + "\n"@ + line(
        "#define "@ + upper_case(enum_name) + "_INIT "@ + enum_initializer(
            enum_definition.members@,
            enum_definition.members@.len() as int,
        ),
    ) + "\n"@
}

/// The lines of an enum.
#[verifier::opaque]
pub open spec fn enum_text(enum_definition: &EnumDefinition, c_standard: &CStandard) -> Result<
    Seq<char>,
    CompilerError,
> {
    match enum_head(enum_definition, c_standard) {
        Err(error) => Err(error),
        Ok(head) => match enum_sentinel(enum_definition, c_standard) {
            Err(error) => Err(error),
            Ok(sentinel) => Ok(
                head + enum_members_text(
                    enum_definition,
                    c_standard,
                    enum_definition.members@.len() as int,
                ) + sentinel + enum_tail(enum_definition),
            ),
        },
    }
}

/// Outputs an enum into the header file
pub fn output_enum(
    header_file: &mut OutputFile,
    configurations: &CConfigurations,
    enum_definition: &EnumDefinition,
) -> (result: Result<(), CompilerError>)
    ensures
        written(
            old(header_file)@,
            final(header_file)@,
            result,
            enum_text(enum_definition, &configurations.compiler_configurations.c_standard),
        ),
{
    proof {
        reveal(enum_text);
    }
    let c_standard = &configurations.compiler_configurations.c_standard;
    let ghost members = enum_definition.members@;

    // Print comment if present
    let mut text = comment_text(&enum_definition.comment);

    let enum_name: String = pascal_to_snake_case(enum_definition.name.as_str());

    let allow_backing_type: bool = c_standard.allows_enum_backing_type();
    let mut needs_backing_value: bool = !allow_backing_type;

    let mut head = String::from_str("typedef enum RUNIC_ENUM ");
    head.append(enum_name.as_str());
    if allow_backing_type {
        let c_type = enum_definition.backing_type.to_c_type(c_standard)?;
        head.append(": ");
        head.append(c_type.as_str());
    }
    head.append(" {");
    push_line(&mut text, head.as_str());

    // Get longest name for spacing calculations
    let mut longest_member_name: usize = 0;
    let mut i: usize = 0;
    while i < enum_definition.members.len()
        invariant
            i <= enum_definition.members.len(),
            longest_member_name == longest_enum_name(enum_definition.members@, i as int),
        decreases enum_definition.members.len() - i,
    {
        let length = text_length(
            pascal_to_uppercase(enum_definition.members[i].identifier.as_str()).as_str(),
        );
        if longest_member_name < length {
            longest_member_name = length;
        }
        i = i + 1;
    }

    let mut initializer_value: String = String::from_str("0");
    let mut rows = String::new();

    // Print all enum members
    let mut i: usize = 0;
    while i < enum_definition.members.len()
        invariant
            i <= enum_definition.members.len(),
            longest_member_name == longest_enum_name(
                enum_definition.members@,
                enum_definition.members@.len() as int,
            ),
            initializer_value@ == enum_initializer(enum_definition.members@, i as int),
            needs_backing_value == needs_sentinel(enum_definition, c_standard, i as int),
            rows@ == enum_members_text(enum_definition, c_standard, i as int),
        decreases enum_definition.members.len() - i,
    {
        let enum_member = &enum_definition.members[i];

        // Member comment
        let mut chunk = member_comment_text(i, &enum_member.comment);

        let member_name: String = pascal_to_uppercase(enum_member.identifier.as_str());

        if is_zero(&enum_member.value) && same_text(initializer_value.as_str(), "0") {
            initializer_value = member_name.clone();
        }

        // Check if the value is large enough to trigger the desired backing type
        if needs_backing_value {
            if enum_member.value.requires_size() == enum_definition.backing_type.c_size() {
                needs_backing_value = false;
            }
        }
        let last = (i == enum_definition.members.len() - 1) && !needs_backing_value;

        let mut row = String::from_str("    ");
        row.append(member_name.as_str());
        row.append(
            spaces(gap_between(longest_member_name, text_length(member_name.as_str()))).as_str(),
        );
        row.append(" = ");
        row.append(enum_member.value.to_string().as_str());
        if last {
            row.append("");
        } else {
            row.append(",");
        }
        push_line(&mut chunk, row.as_str());
        rows.append(chunk.as_str());
        i = i + 1;
    }
    text.append(rows.as_str());

    let mut sentinel = String::new();
    if needs_backing_value {
        let c_type = enum_definition.backing_type.to_c_type(c_standard)?;
        let value = sentinel_text(enum_definition.backing_type.c_size())?;
        sentinel.append("\n");
        let mut note = String::from_str(
            "    /** Value to coerce enum to minimum size of declared backing type ",
        );
        note.append(c_type.as_str());
        note.append(" */");
        push_line(&mut sentinel, note.as_str());
        let mut row = String::from_str("    ");
        row.append(pascal_to_uppercase(enum_definition.name.as_str()).as_str());
        row.append("_SIZE_RESERVE_VALUE = ");
        row.append(value.as_str());
        push_line(&mut sentinel, row.as_str());
    }
    text.append(sentinel.as_str());

    // Output enum definitions
    let mut end = String::from_str("} ");
    end.append(enum_name.as_str());
    end.append("_t;");
    let mut tail = line_of(end.as_str());
    tail.append("\n");

    // Output enum initializer value
    let mut define = String::from_str("#define ");
    define.append(pascal_to_uppercase(enum_name.as_str()).as_str());
    define.append("_INIT ");
    define.append(initializer_value.as_str());
    push_line(&mut tail, define.as_str());
    tail.append("\n");
    text.append(tail.as_str());

    header_file.add_text(text.as_str());
    Ok(())
}

// Bitfields

/// One line of a bitfield declaration: a bit field, or the padding.
pub struct BitRow {
    /// Name of the field in C
    pub name: Seq<char>,
    /// Width of the field, and whether it is signed
    pub size: BitSize,
    /// Comment above the field
    pub comment: Option<Seq<char>>,
}

/// The unsigned and the signed integer of the width of the backing type of a
/// bitfield. Only integers of 8 to 64 bits can back a bitfield.
pub open spec fn bitfield_backing(backing_type: Primitive) -> Result<
    (Primitive, Primitive),
    CompilerError,
> {
    match backing_type {
        Primitive::I8 | Primitive::U8 => Ok((Primitive::U8, Primitive::I8)),
        Primitive::I16 | Primitive::U16 => Ok((Primitive::U16, Primitive::I16)),
        Primitive::I32 | Primitive::U32 => Ok((Primitive::U32, Primitive::I32)),
        Primitive::I64 | Primitive::U64 => Ok((Primitive::U64, Primitive::I64)),
        _ => Err(CompilerError::MalformedSource),
    }
}

/// The bits that the first `upto` members take together.
pub open spec fn total_bits(members: Seq<BitfieldMember>, upto: int) -> nat
    decreases upto,
{
    if upto <= 0 {
        0
    } else {
        total_bits(members, upto - 1) + (members[upto - 1].size.spec_absolute() as nat)
    }
}

/// The bits of the backing type that no member takes. A bitfield whose
/// members take more bits than the backing type has is malformed.
pub open spec fn padding_bits(bitfield_definition: &BitfieldDefinition) -> Result<
    u64,
    CompilerError,
> {
    let bits = bitfield_definition.backing_type.spec_c_size() * 8;
    let taken = total_bits(
        bitfield_definition.members@,
        bitfield_definition.members@.len() as int,
    );
    if bitfield_backing(bitfield_definition.backing_type) is Err || taken > bits {
        Err(CompilerError::MalformedSource)
    } else {
        Ok((bits - taken) as u64)
    }
}

/// The members among the first `upto` that are declared with a given index,
/// in the order of declaration.
pub open spec fn members_with_index(members: Seq<BitfieldMember>, index: u64, upto: int) -> Seq<
    BitfieldMember,
>
    decreases upto,
{
    if upto <= 0 {
        Seq::empty()
    } else if members[upto - 1].index == index {
        members_with_index(members, index, upto - 1).push(members[upto - 1])
    } else {
        members_with_index(members, index, upto - 1)
    }
}

/// The members with an index below `count`, by ascending index.
pub open spec fn ascending(members: Seq<BitfieldMember>, count: int) -> Seq<BitfieldMember>
    decreases count,
{
    if count <= 0 {
        Seq::empty()
    } else {
        ascending(members, count - 1) + members_with_index(
            members,
            (count - 1) as u64,
            members.len() as int,
        )
    }
}

/// The members with one of the `count` largest indexes below the number of
/// members, by descending index.
pub open spec fn descending(members: Seq<BitfieldMember>, count: int) -> Seq<BitfieldMember>
    decreases count,
{
    if count <= 0 {
        Seq::empty()
    } else {
        descending(members, count - 1) + members_with_index(
            members,
            (members.len() - count) as u64,
            members.len() as int,
        )
    }
}

/// The line of a member.
pub open spec fn row_of(member: &BitfieldMember) -> BitRow {
    BitRow {
        name: snake_case(member.identifier@),
        size: member.size,
        comment: comment_view(member.comment),
    }
}

/// The line of the padding.
pub open spec fn padding_row(bits: u64) -> BitRow {
    BitRow {
        name: snake_case("padding"@),
        size: BitSize::Unsigned(bits),
        comment: Some(" Padding to ensure proper alignment "@),
    }
}

/// The lines of some members.
pub open spec fn rows_of(members: Seq<BitfieldMember>) -> Seq<BitRow> {
    Seq::new(members.len(), |k: int| row_of(&members[k]))
}

/// The lines of a bitfield where the least significant bits come first:
/// the members by ascending index, then the padding.
pub open spec fn little_endian_rows(members: Seq<BitfieldMember>, padding: u64) -> Seq<BitRow> {
    rows_of(ascending(members, members.len() as int)).push(padding_row(padding))
}

/// The lines of a bitfield where the most significant bits come first:
/// the padding, then the members by descending index.
pub open spec fn big_endian_rows(members: Seq<BitfieldMember>, padding: u64) -> Seq<BitRow> {
    seq![padding_row(padding)] + rows_of(descending(members, members.len() as int))
}

/// The length of the longest name of a line: that of the padding, where
/// there is any, and those of the first `upto` members.
pub open spec fn longest_bit_name(members: Seq<BitfieldMember>, padding: u64, upto: int) -> usize
    decreases upto,
{
    if upto <= 0 {
        if padding == 0 {
            0
        } else {
            byte_length("padding"@)
        }
    } else if byte_length(snake_case(members[upto - 1].identifier@)) > longest_bit_name(
        members,
        padding,
        upto - 1,
    ) {
        byte_length(snake_case(members[upto - 1].identifier@))
    } else {
        longest_bit_name(members, padding, upto - 1)
    }
}

/// The text of one line of a bitfield, with its comment.
pub open spec fn bit_row_text(
    row: BitRow,
    first: bool,
    unsigned_type: Seq<char>,
    signed_type: Seq<char>,
    longest: usize,
) -> Seq<char> {
    let backing = match row.size {
        BitSize::Signed(_) => signed_type + " "@,
        BitSize::Unsigned(_) => unsigned_type,
    };
    indented_comment(first, row.comment) + line(
        "    "@ + backing + " "@ + row.name + spaces_text(
            gap(longest, byte_length(row.name)) as nat,
        ) + " : "@ + digits(row.size.spec_absolute() as nat, 10) + ";"@,
    )
}

/// The text of the first `upto` lines of a bitfield.
pub open spec fn bit_rows_text(
    rows: Seq<BitRow>,
    unsigned_type: Seq<char>,
    signed_type: Seq<char>,
    longest: usize,
    upto: int,
) -> Seq<char>
    decreases upto,
{
    if upto <= 0 {
        Seq::empty()
    } else {
        bit_rows_text(rows, unsigned_type, signed_type, longest, upto - 1) + bit_row_text(
            rows[upto - 1],
            upto == 1,
            unsigned_type,
            signed_type,
            longest,
        )
    }
}

/// The declaration of a bitfield for one order of the bits.
pub open spec fn bitfield_struct(
    bitfield_definition: &BitfieldDefinition,
    rows: Seq<BitRow>,
    unsigned_type: Seq<char>,
    signed_type: Seq<char>,
    longest: usize,
) -> Seq<char> {
    let bitfield_name = snake_case(bitfield_definition.name@);
    line("typedef struct RUNIC_BITFIELD "@ + bitfield_name + " {"@) + comment_line(
        bitfield_definition.comment,
    ) + bit_rows_text(rows, unsigned_type, signed_type, longest, rows.len() as int) + line(
        "} "@ + bitfield_name + "_t;"@,
    )
}

/// The last lines of a bitfield: the other byte orders are refused, and the
/// macro that sets a value of the bitfield to zero.
pub open spec fn bitfield_tail(bitfield_definition: &BitfieldDefinition) -> Seq<char> {
    line("#else"@) + line(
        "#error \"Only little and big endianness is supported by this Rune C implementation\""@,
    ) + line("#endif // __BYTE_ORDER__"@) + "\n"@ + line(
        "#define "@ + upper_case(bitfield_definition.name@) + "_INIT 0"@,
    ) + "\n"@
}

/// The lines of a bitfield: its declaration for both orders of the bits.
#[verifier::opaque]
pub open spec fn bitfield_text(
    bitfield_definition: &BitfieldDefinition,
    c_standard: &CStandard,
) -> Result<Seq<char>, CompilerError> {
    let members = bitfield_definition.members@;
    match bitfield_backing(bitfield_definition.backing_type) {
        Err(error) => Err(error),
        Ok(backing) => match padding_bits(bitfield_definition) {
            Err(error) => Err(error),
            Ok(padding) => match backing.0.spec_to_c_type(c_standard) {
                Err(error) => Err(error),
                Ok(unsigned_type) => match backing.1.spec_to_c_type(c_standard) {
                    Err(error) => Err(error),
                    Ok(signed_type) => {
                        let longest = longest_bit_name(members, padding, members.len() as int);
                        Ok(
                            comment_line(bitfield_definition.comment) + line(
                                "// Disclaimer ! Run rune_bitfield_tester() function to check whether bitfields are behaving as intended"@,
                            ) + line("#if defined __LITTLE_ENDIAN__"@) + bitfield_struct(
                                bitfield_definition,
                                little_endian_rows(members, padding),
                                unsigned_type,
                                signed_type,
                                longest,
                            ) + line("#elif defined __BIG_ENDIAN__"@) + bitfield_struct(
                                bitfield_definition,
                                big_endian_rows(members, padding),
                                unsigned_type,
                                signed_type,
                                longest,
                            ) + bitfield_tail(bitfield_definition),
                        )
                    },
                },
            },
        },
    }
}

/// The padding of a bitfield is the same for both orders of the bits, and
/// only its place differs: it is the last line where the least significant
/// bits come first and the first line where the most significant bits come
/// first, and in both it has the bits that the members leave of the backing type.
pub proof fn lemma_padding_is_shared(bitfield_definition: &BitfieldDefinition)
    requires
        padding_bits(bitfield_definition) is Ok,
    ensures
        ({
            let members = bitfield_definition.members@;
            let padding = padding_bits(bitfield_definition)->Ok_0;
            &&& little_endian_rows(members, padding).last() == padding_row(padding)
            &&& big_endian_rows(members, padding).first() == padding_row(padding)
            &&& padding_row(padding).size == BitSize::Unsigned(padding)
            &&& padding + total_bits(members, members.len() as int)
                == bitfield_definition.backing_type.spec_c_size() * 8
        }),
{
}

/// The bits taken never get fewer as more members are counted.
pub proof fn lemma_total_bits_grows(members: Seq<BitfieldMember>, earlier: int, later: int)
    requires
        earlier <= later,
    ensures
        total_bits(members, earlier) <= total_bits(members, later),
    decreases later - earlier,
{
    if earlier < later {
        lemma_total_bits_grows(members, earlier, later - 1);
    }
}

/// The lines of the members that a list refers to.
pub open spec fn rows_held(list: Seq<&BitfieldMember>) -> Seq<BitRow> {
    Seq::new(list.len(), |k: int| row_of(list[k]))
}

/// Whether a list of references holds the lines of some members.
pub open spec fn holds_rows(list: Seq<&BitfieldMember>, rows: Seq<BitRow>) -> bool {
    list.len() == rows.len() && forall|k: int|
        0 <= k < list.len() ==> row_of(#[trigger] list[k]) == rows[k]
}

/// The unsigned and the signed integer of the width of the backing type.
pub fn backing_types(backing_type: Primitive) -> (result: Result<
    (Primitive, Primitive),
    CompilerError,
>)
    ensures
        result == bitfield_backing(backing_type),
{
    match backing_type {
        Primitive::I8 | Primitive::U8 => Ok((Primitive::U8, Primitive::I8)),
        Primitive::I16 | Primitive::U16 => Ok((Primitive::U16, Primitive::I16)),
        Primitive::I32 | Primitive::U32 => Ok((Primitive::U32, Primitive::I32)),
        Primitive::I64 | Primitive::U64 => Ok((Primitive::U64, Primitive::I64)),
        _ => Err(CompilerError::MalformedSource),
    }
}

/// The bits of the backing type that no member takes.
pub fn padding_size(bitfield_definition: &BitfieldDefinition) -> (result: Result<
    u64,
    CompilerError,
>)
    ensures
        result == padding_bits(bitfield_definition),
{
    backing_types(bitfield_definition.backing_type)?;
    let bits: u64 = bitfield_definition.backing_type.c_size() * 8;

    // Calculate required padding for ensuring proper alignment
    let mut total_size: u64 = 0;
    let mut i: usize = 0;
    while i < bitfield_definition.members.len()
        invariant
            i <= bitfield_definition.members.len(),
            bits == bitfield_definition.backing_type.spec_c_size() * 8,
            bits <= 64,
            bitfield_backing(bitfield_definition.backing_type) is Ok,
            total_size == total_bits(bitfield_definition.members@, i as int),
            total_size <= bits,
        decreases bitfield_definition.members.len() - i,
    {
        let size = bitfield_definition.members[i].size.absolute();
        if size > bits - total_size {
            proof {
                lemma_total_bits_grows(
                    bitfield_definition.members@,
                    i + 1,
                    bitfield_definition.members@.len() as int,
                );
            }
            return Err(CompilerError::MalformedSource);
        }
        total_size = total_size + size;
        i = i + 1;
    }
    Ok(bits - total_size)
}

/// The members by ascending index.
pub fn members_ascending<'a>(members: &'a Vec<BitfieldMember>) -> (order: Vec<
    &'a BitfieldMember,
>)
    ensures
        holds_rows(order@, rows_of(ascending(members@, members@.len() as int))),
{
    let mut order: Vec<&'a BitfieldMember> = Vec::new();
    let mut i: usize = 0;
    while i < members.len()
        invariant
            i <= members.len(),
            holds_rows(order@, rows_of(ascending(members@, i as int))),
        decreases members.len() - i,
    {
        let ghost before = ascending(members@, i as int);
        let mut j: usize = 0;
        while j < members.len()
            invariant
                j <= members.len(),
                i < members.len(),
                before == ascending(members@, i as int),
                holds_rows(
                    order@,
                    rows_of(before + members_with_index(members@, i as u64, j as int)),
                ),
            decreases members.len() - j,
        {
            let ghost found = members_with_index(members@, i as u64, j as int);
            if members[j].index == i as u64 {
                order.push(&members[j]);
                proof {
                    assert(before + found.push(members@[j as int]) =~= (before + found).push(
                        members@[j as int],
                    ));
                }
            }
            j = j + 1;
        }
        i = i + 1;
    }
    order
}

/// The members by descending index.
pub fn members_descending<'a>(members: &'a Vec<BitfieldMember>) -> (order: Vec<&'a BitfieldMember>)
    ensures
        holds_rows(order@, rows_of(descending(members@, members@.len() as int))),
{
    let mut order: Vec<&'a BitfieldMember> = Vec::new();
    let mut z: usize = 0;
    while z < members.len()
        invariant
            z <= members.len(),
            holds_rows(order@, rows_of(descending(members@, z as int))),
        decreases members.len() - z,
    {
        let i: usize = members.len() - 1 - z;
        let ghost before = descending(members@, z as int);
        let mut j: usize = 0;
        while j < members.len()
            invariant
                j <= members.len(),
                z < members.len(),
                i == members.len() - 1 - z,
                before == descending(members@, z as int),
                holds_rows(
                    order@,
                    rows_of(before + members_with_index(members@, i as u64, j as int)),
                ),
            decreases members.len() - j,
        {
            let ghost found = members_with_index(members@, i as u64, j as int);
            if members[j].index == i as u64 {
                order.push(&members[j]);
                proof {
                    assert(before + found.push(members@[j as int]) =~= (before + found).push(
                        members@[j as int],
                    ));
                }
            }
            j = j + 1;
        }
        z = z + 1;
    }
    order
}

/// The text of the lines of a bitfield.
pub fn bit_rows(
    order: &Vec<&BitfieldMember>,
    unsigned_type: &str,
    signed_type: &str,
    longest_name: usize,
) -> (text: String)
    ensures
        text@ == bit_rows_text(
            rows_held(order@),
            unsigned_type@,
            signed_type@,
            longest_name,
            order@.len() as int,
        ),
{
    let ghost rows = rows_held(order@);
    let mut text = String::new();
    let mut k: usize = 0;
    while k < order.len()
        invariant
            k <= order.len(),
            holds_rows(order@, rows),
            text@ == bit_rows_text(rows, unsigned_type@, signed_type@, longest_name, k as int),
        decreases order.len() - k,
    {
        let member = order[k];
        proof {
            assert(row_of(order@[k as int]) == rows[k as int]);
        }
        // Member comment
        let mut chunk = match &member.comment {
            Some(comment) => {
                let mut row = String::from_str("    /**");
                row.append(comment.as_str());
                row.append("*/");
                if k == 0 {
                    line_of(row.as_str())
                } else {
                    let mut spaced = String::from_str("\n");
                    push_line(&mut spaced, row.as_str());
                    spaced
                }
            },
            None => String::new(),
        };

        let member_name = pascal_to_snake_case(member.identifier.as_str());

        // Get bit size
        let mut row = String::from_str("    ");
        match member.size {
            BitSize::Signed(_) => {
                let mut backing_string = String::from_str(signed_type);
                backing_string.append(" ");
                row.append(backing_string.as_str());
            },
            BitSize::Unsigned(_) => {
                row.append(unsigned_type);
            },
        }
        row.append(" ");
        row.append(member_name.as_str());
        row.append(
            spaces(gap_between(longest_name, text_length(member_name.as_str()))).as_str(),
        );
        row.append(" : ");
        row.append(number_text(member.size.absolute(), 10).as_str());
        row.append(";");
        push_line(&mut chunk, row.as_str());
        text.append(chunk.as_str());
        k = k + 1;
    }
    text
}

/// Outputs a bitfield definition into the header file
pub fn output_bitfield(
    header_file: &mut OutputFile,
    configurations: &CConfigurations,
    bitfield_definition: &BitfieldDefinition,
) -> (result: Result<(), CompilerError>)
    ensures
        written(
            old(header_file)@,
            final(header_file)@,
            result,
            bitfield_text(
                bitfield_definition,
                &configurations.compiler_configurations.c_standard,
            ),
        ),
{
    proof {
        reveal(bitfield_text);
    }
    let c_standard = &configurations.compiler_configurations.c_standard;
    let ghost members = bitfield_definition.members@;

    // Print comment if present
    let mut text = comment_text(&bitfield_definition.comment);

    let bitfield_name: String = pascal_to_snake_case(bitfield_definition.name.as_str());

    // Get the backing type with signed and unsigned variants
    let backing_type = backing_types(bitfield_definition.backing_type)?;

    // Calculate required padding for ensuring proper alignment
    let padding_bits = padding_size(bitfield_definition)?;
    let padding: BitfieldMember = BitfieldMember {
        identifier: String::from_str("padding"),
        size: BitSize::Unsigned(padding_bits),
        index: 0,  // Does not matter
        comment: Some(String::from_str(" Padding to ensure proper alignment ")),
    };

    let unsigned_type = backing_type.0.to_c_type(c_standard)?;
    let signed_type = backing_type.1.to_c_type(c_standard)?;

    // Calculate longest member name for spacing
    let mut longest_name: usize = if padding_bits == 0 {
        0
    } else {
        text_length("padding")
    };
    let mut i: usize = 0;
    while i < bitfield_definition.members.len()
        invariant
            i <= bitfield_definition.members.len(),
            longest_name == longest_bit_name(
                bitfield_definition.members@,
                padding_bits,
                i as int,
            ),
        decreases bitfield_definition.members.len() - i,
    {
        let member_name = pascal_to_snake_case(
            bitfield_definition.members[i].identifier.as_str(),
        );
        if text_length(member_name.as_str()) > longest_name {
            longest_name = text_length(member_name.as_str());
        }
        i = i + 1;
    }

    let mut opening = String::from_str("typedef struct RUNIC_BITFIELD ");
    opening.append(bitfield_name.as_str());
    opening.append(" {");
    let mut closing = String::from_str("} ");
    closing.append(bitfield_name.as_str());
    closing.append("_t;");

    // Disclaimer
    push_line(
        &mut text,
        "// Disclaimer ! Run rune_bitfield_tester() function to check whether bitfields are behaving as intended",
    );

    // Little endian order
    push_line(&mut text, "#if defined __LITTLE_ENDIAN__");

    // Add padding - In the end for little endian
    let mut little_endian_order = members_ascending(&bitfield_definition.members);
    little_endian_order.push(&padding);
    let ghost little = little_endian_rows(members, padding_bits);
    proof {
        assert(row_of(&padding) == padding_row(padding_bits));
        assert(holds_rows(little_endian_order@, little));
        assert(rows_held(little_endian_order@) =~= little);
    }
    let mut little_struct = line_of(opening.as_str());
    little_struct.append(comment_text(&bitfield_definition.comment).as_str());
    little_struct.append(
        bit_rows(
            &little_endian_order,
            unsigned_type.as_str(),
            signed_type.as_str(),
            longest_name,
        ).as_str(),
    );
    push_line(&mut little_struct, closing.as_str());
    text.append(little_struct.as_str());

    // Big endian order
    push_line(&mut text, "#elif defined __BIG_ENDIAN__");

    // Add padding - In the beginning for big endian
    let mut big_endian_order: Vec<&BitfieldMember> = Vec::new();
    big_endian_order.push(&padding);
    let mut rest = members_descending(&bitfield_definition.members);
    let ghost rest_rows = rest@;
    big_endian_order.append(&mut rest);
    let ghost big = big_endian_rows(members, padding_bits);
    proof {
        assert(big_endian_order@ =~= seq![&padding] + rest_rows);
        assert(holds_rows(big_endian_order@, big)) by {
            assert forall|k: int| 0 <= k < big_endian_order@.len() implies row_of(
                #[trigger] big_endian_order@[k],
            ) == big[k] by {
                if k > 0 {
                    assert(big_endian_order@[k] == rest_rows[k - 1]);
                }
            }
        }
        assert(rows_held(big_endian_order@) =~= big);
    }
    let mut big_struct = line_of(opening.as_str());
    big_struct.append(comment_text(&bitfield_definition.comment).as_str());
    big_struct.append(
        bit_rows(
            &big_endian_order,
            unsigned_type.as_str(),
            signed_type.as_str(),
            longest_name,
        ).as_str(),
    );
    push_line(&mut big_struct, closing.as_str());
    text.append(big_struct.as_str());

    // Error
    let mut tail = line_of("#else");
    push_line(
        &mut tail,
        "#error \"Only little and big endianness is supported by this Rune C implementation\"",
    );
    push_line(&mut tail, "#endif // __BYTE_ORDER__");
    tail.append("\n");

    // Initializer
    let mut define = String::from_str("#define ");
    define.append(pascal_to_uppercase(bitfield_definition.name.as_str()).as_str());
    define.append("_INIT 0");
    push_line(&mut tail, define.as_str());
    tail.append("\n");
    text.append(tail.as_str());

    header_file.add_text(text.as_str());
    Ok(())
}

// The header of a schema file

/// The name of the header of a schema file: its folder, its name, and `.rune.h`.
pub open spec fn header_file_name(file: &RuneFileDescription) -> Seq<char> {
    (if file.relative_path@.len() == 0 {
        Seq::empty()
    } else {
        "/"@ + file.relative_path@
    }) + file.name@ + ".rune.h"@
}

/// The first lines of a header: the guard against a second inclusion, the
/// opening of the block for C++, and the headers that every file needs.
pub open spec fn header_opening(guard: Seq<char>) -> Seq<char> {
    line("#ifndef "@ + guard + "_RUNE_H"@) + line("#define "@ + guard + "_RUNE_H"@) + "\n"@ + line(
        "#ifdef __cplusplus"@,
    ) + line("extern \"C\" {"@) + line("#endif /* __cplusplus */"@) + "\n"@ + line(
        "#include <stdbool.h>"@,
    ) + line("#include <stdint.h>"@) + "\n"@ + line("#include \"rune.h\""@) + "\n"@
}

/// The lines that bring in the headers of the first `upto` schema files
/// that this one depends on.
pub open spec fn includes_text(includes: Seq<IncludeDefinition>, upto: int) -> Seq<char>
    decreases upto,
{
    if upto <= 0 {
        Seq::empty()
    } else {
        includes_text(includes, upto - 1) + line(
            "#include \""@ + includes[upto - 1].file@ + ".rune.h\""@,
        )
    }
}

/// The headers of the schema files that this one depends on, with an empty
/// line behind them, or nothing.
pub open spec fn includes_block(includes: Seq<IncludeDefinition>) -> Seq<char> {
    if includes.len() == 0 {
        Seq::empty()
    } else {
        includes_text(includes, includes.len() as int) + "\n"@
    }
}

/// The lines of the first `upto` define statements.
pub open spec fn defines_text(defines: Seq<DefineDefinition>, upto: int) -> Seq<char>
    decreases upto,
{
    if upto <= 0 {
        Seq::empty()
    } else {
        defines_text(defines, upto - 1) + define_text(&defines[upto - 1])
    }
}

/// The define statements, with an empty line behind them, or nothing.
pub open spec fn defines_block(defines: Seq<DefineDefinition>) -> Seq<char> {
    if defines.len() == 0 {
        Seq::empty()
    } else {
        defines_text(defines, defines.len() as int) + "\n"@
    }
}

/// The lines of the first `upto` enums, or the error of the first enum that fails.
pub open spec fn enums_text(enums: Seq<EnumDefinition>, c_standard: &CStandard, upto: int) -> Result<
    Seq<char>,
    CompilerError,
>
    decreases upto,
{
    if upto <= 0 {
        Ok(Seq::empty())
    } else {
        match enums_text(enums, c_standard, upto - 1) {
            Err(error) => Err(error),
            Ok(before) => match enum_text(&enums[upto - 1], c_standard) {
                Err(error) => Err(error),
                Ok(text) => Ok(before + text),
            },
        }
    }
}

/// The lines of the first `upto` bitfields, or the error of the first
/// bitfield that fails.
pub open spec fn bitfields_text(
    bitfields: Seq<BitfieldDefinition>,
    c_standard: &CStandard,
    upto: int,
) -> Result<Seq<char>, CompilerError>
    decreases upto,
{
    if upto <= 0 {
        Ok(Seq::empty())
    } else {
        match bitfields_text(bitfields, c_standard, upto - 1) {
            Err(error) => Err(error),
            Ok(before) => match bitfield_text(&bitfields[upto - 1], c_standard) {
                Err(error) => Err(error),
                Ok(text) => Ok(before + text),
            },
        }
    }
}

/// The lines of the first `upto` structs, each with its initializer, or the
/// error of the first struct that fails.
pub open spec fn structs_text(
    structs: Seq<StructDefinition>,
    configurations: &CConfigurations,
    upto: int,
) -> Result<Seq<char>, CompilerError>
    decreases upto,
{
    if upto <= 0 {
        Ok(Seq::empty())
    } else {
        match structs_text(structs, configurations, upto - 1) {
            Err(error) => Err(error),
            Ok(before) => match struct_text(
                &structs[upto - 1],
                &configurations.compiler_configurations,
            ) {
                Err(error) => Err(error),
                Ok(declaration) => match struct_initializer_text(
                    &structs[upto - 1],
                    &configurations.compiler_configurations,
                ) {
                    Err(error) => Err(error),
                    Ok(initializer) => Ok(before + declaration + initializer),
                },
            },
        }
    }
}

/// The last lines of a header: the end of the block for C++ and of the guard.
pub open spec fn header_closing(guard: Seq<char>) -> Seq<char> {
    line("#ifdef __cplusplus"@) + line("}"@) + line("#endif /* __cplusplus */"@) + "\n"@ + line(
        "#endif /* "@ + guard + "_RUNE_H */"@,
    )
}

/// The text of the header of a schema file, with a given name in its guard:
/// the headers it depends on, its defines, enums, bitfields and structs.
#[verifier::opaque]
pub open spec fn header_text(
    file: &RuneFileDescription,
    configurations: &CConfigurations,
    guard: Seq<char>,
) -> Result<Seq<char>, CompilerError> {
    let definitions = file.definitions;
    let c_standard = &configurations.compiler_configurations.c_standard;
    match enums_text(definitions.enums@, c_standard, definitions.enums@.len() as int) {
        Err(error) => Err(error),
        Ok(enums) => match bitfields_text(
            definitions.bitfields@,
            c_standard,
            definitions.bitfields@.len() as int,
        ) {
            Err(error) => Err(error),
            Ok(bitfields) => match structs_text(
                definitions.structs@,
                configurations,
                definitions.structs@.len() as int,
            ) {
                Err(error) => Err(error),
                Ok(structs) => Ok(
                    header_opening(guard) + includes_block(definitions.includes@) + defines_block(
                        definitions.defines@,
                    ) + enums + bitfields + structs + header_closing(guard),
                ),
            },
        },
    }
}

/// The header file of a schema file, or the error that generating it ends in.
pub open spec fn header_file(
    file: &RuneFileDescription,
    configurations: &CConfigurations,
    output_path: Seq<char>,
    guard: Seq<char>,
) -> Result<OutputFileView, CompilerError> {
    match header_text(file, configurations, guard) {
        Err(error) => Err(error),
        Ok(text) => Ok(
            OutputFileView {
                path: output_path,
                name: relative_name(header_file_name(file)),
                text,
            },
        ),
    }
}

/// What a generated file is, or the error.
pub open spec fn file_of(result: Result<OutputFile, CompilerError>) -> Result<
    OutputFileView,
    CompilerError,
> {
    match result {
        Ok(file) => Ok(file@),
        Err(error) => Err(error),
    }
}

/// Once an enum has failed, more enums do not change the outcome.
pub proof fn lemma_enums_failure_stays(
    enums: Seq<EnumDefinition>,
    c_standard: &CStandard,
    earlier: int,
    later: int,
)
    requires
        earlier <= later,
        enums_text(enums, c_standard, earlier) is Err,
    ensures
        enums_text(enums, c_standard, later) == enums_text(enums, c_standard, earlier),
    decreases later - earlier,
{
    if earlier < later {
        lemma_enums_failure_stays(enums, c_standard, earlier, later - 1);
    }
}

/// Once a bitfield has failed, more bitfields do not change the outcome.
pub proof fn lemma_bitfields_failure_stays(
    bitfields: Seq<BitfieldDefinition>,
    c_standard: &CStandard,
    earlier: int,
    later: int,
)
    requires
        earlier <= later,
        bitfields_text(bitfields, c_standard, earlier) is Err,
    ensures
        bitfields_text(bitfields, c_standard, later) == bitfields_text(
            bitfields,
            c_standard,
            earlier,
        ),
    decreases later - earlier,
{
    if earlier < later {
        lemma_bitfields_failure_stays(bitfields, c_standard, earlier, later - 1);
    }
}

/// Once a struct has failed, more structs do not change the outcome.
pub proof fn lemma_structs_failure_stays(
    structs: Seq<StructDefinition>,
    configurations: &CConfigurations,
    earlier: int,
    later: int,
)
    requires
        earlier <= later,
        structs_text(structs, configurations, earlier) is Err,
    ensures
        structs_text(structs, configurations, later) == structs_text(
            structs,
            configurations,
            earlier,
        ),
    decreases later - earlier,
{
    if earlier < later {
        lemma_structs_failure_stays(structs, configurations, earlier, later - 1);
    }
}

/// The first lines of a header.
pub fn header_opening_text(guard: &str) -> (text: String)
    ensures
        text@ == header_opening(guard@),
{
    // Start & C++ guards
    let mut first = String::from_str("#ifndef ");
    first.append(guard);
    first.append("_RUNE_H");
    let mut text = line_of(first.as_str());
    let mut second = String::from_str("#define ");
    second.append(guard);
    second.append("_RUNE_H");
    push_line(&mut text, second.as_str());
    text.append("\n");

    push_line(&mut text, "#ifdef __cplusplus");
    push_line(&mut text, "extern \"C\" {");
    push_line(&mut text, "#endif /* __cplusplus */");
    text.append("\n");

    // Standard library
    push_line(&mut text, "#include <stdbool.h>");
    push_line(&mut text, "#include <stdint.h>");
    text.append("\n");

    // Include Runic Definitions
    push_line(&mut text, "#include \"rune.h\"");
    text.append("\n");
    text
}

/// The last lines of a header.
pub fn header_closing_text(guard: &str) -> (text: String)
    ensures
        text@ == header_closing(guard@),
{
    // End & C++ guards
    let mut text = line_of("#ifdef __cplusplus");
    push_line(&mut text, "}");
    push_line(&mut text, "#endif /* __cplusplus */");
    text.append("\n");
    let mut last = String::from_str("#endif /* ");
    last.append(guard);
    last.append("_RUNE_H */");
    push_line(&mut text, last.as_str());
    text
}

/// The headers of the schema files that this one depends on.
pub fn includes_block_text(includes: &Vec<IncludeDefinition>) -> (text: String)
    ensures
        text@ == includes_block(includes@),
{
    if includes.len() == 0 {
        return String::new();
    }
    // Print out includes
    let mut rows = String::new();
    let mut i: usize = 0;
    while i < includes.len()
        invariant
            i <= includes.len(),
            rows@ == includes_text(includes@, i as int),
        decreases includes.len() - i,
    {
        let mut row = String::from_str("#include \"");
        row.append(includes[i].file.as_str());
        row.append(".rune.h\"");
        push_line(&mut rows, row.as_str());
        i = i + 1;
    }
    // Separation line
    rows.append("\n");
    rows
}

/// The define statements of a schema file.
pub fn defines_block_text(defines: &Vec<DefineDefinition>) -> (text: String)
    ensures
        text@ == defines_block(defines@),
{
    if defines.len() == 0 {
        return String::new();
    }
    let mut rows = OutputFile::new(String::new(), String::new());
    let mut i: usize = 0;
    while i < defines.len()
        invariant
            i <= defines.len(),
            rows@.text == defines_text(defines@, i as int),
        decreases defines.len() - i,
    {
        output_define(&mut rows, &defines[i]);
        i = i + 1;
    }
    rows.add_newline();
    String::from_str(rows.contents())
}

/// The enums of a schema file.
pub fn enums_block(enums: &Vec<EnumDefinition>, configurations: &CConfigurations) -> (result:
    Result<String, CompilerError>)
    ensures
        text_of(result) == enums_text(
            enums@,
            &configurations.compiler_configurations.c_standard,
            enums@.len() as int,
        ),
{
    let c_standard = &configurations.compiler_configurations.c_standard;
    let mut rows = OutputFile::new(String::new(), String::new());
    let mut i: usize = 0;
    while i < enums.len()
        invariant
            i <= enums.len(),
            c_standard == &configurations.compiler_configurations.c_standard,
            enums_text(enums@, c_standard, i as int) == Ok::<Seq<char>, CompilerError>(
                rows@.text,
            ),
        decreases enums.len() - i,
    {
        match output_enum(&mut rows, configurations, &enums[i]) {
            Ok(()) => {},
            Err(error) => {
                proof {
                    assert(enums_text(enums@, c_standard, i + 1) == Err::<
                        Seq<char>,
                        CompilerError,
                    >(error));
                    lemma_enums_failure_stays(enums@, c_standard, i + 1, enums@.len() as int);
                }
                return Err(error);
            },
        }
        i = i + 1;
    }
    Ok(String::from_str(rows.contents()))
}

/// The bitfields of a schema file.
pub fn bitfields_block(
    bitfields: &Vec<BitfieldDefinition>,
    configurations: &CConfigurations,
) -> (result: Result<String, CompilerError>)
    ensures
        text_of(result) == bitfields_text(
            bitfields@,
            &configurations.compiler_configurations.c_standard,
            bitfields@.len() as int,
        ),
{
    let c_standard = &configurations.compiler_configurations.c_standard;
    let mut rows = OutputFile::new(String::new(), String::new());
    let mut i: usize = 0;
    while i < bitfields.len()
        invariant
            i <= bitfields.len(),
            c_standard == &configurations.compiler_configurations.c_standard,
            bitfields_text(bitfields@, c_standard, i as int) == Ok::<Seq<char>, CompilerError>(
                rows@.text,
            ),
        decreases bitfields.len() - i,
    {
        match output_bitfield(&mut rows, configurations, &bitfields[i]) {
            Ok(()) => {},
            Err(error) => {
                proof {
                    assert(bitfields_text(bitfields@, c_standard, i + 1) == Err::<
                        Seq<char>,
                        CompilerError,
                    >(error));
                    lemma_bitfields_failure_stays(
                        bitfields@,
                        c_standard,
                        i + 1,
                        bitfields@.len() as int,
                    );
                }
                return Err(error);
            },
        }
        i = i + 1;
    }
    Ok(String::from_str(rows.contents()))
}

/// The declaration of a struct and the macro that initializes it.
pub fn struct_block(struct_definition: &StructDefinition, configurations: &CConfigurations) -> (result:
    Result<String, CompilerError>)
    ensures
        match struct_text(struct_definition, &configurations.compiler_configurations) {
            Err(error) => result is Err && result->Err_0 == error,
            Ok(declaration) => match struct_initializer_text(
                struct_definition,
                &configurations.compiler_configurations,
            ) {
                Err(error) => result is Err && result->Err_0 == error,
                Ok(initializer) => result is Ok && result->Ok_0@ == declaration + initializer,
            },
        },
{
    let mut one = OutputFile::new(String::new(), String::new());
    match output_struct(&mut one, configurations, struct_definition) {
        Ok(_) => {},
        Err(error) => {
            return Err(error);
        },
    }
    // Add struct initializer
    output_struct_initializer(&mut one, configurations, struct_definition)?;
    let text = String::from_str(one.contents());
    proof {
        let declaration = struct_text(
            struct_definition,
            &configurations.compiler_configurations,
        )->Ok_0;
        let initializer = struct_initializer_text(
            struct_definition,
            &configurations.compiler_configurations,
        )->Ok_0;
        assert(text@ =~= declaration + initializer);
    }
    Ok(text)
}

/// The structs of a schema file.
pub fn structs_block(structs: &Vec<StructDefinition>, configurations: &CConfigurations) -> (result:
    Result<String, CompilerError>)
    ensures
        text_of(result) == structs_text(structs@, configurations, structs@.len() as int),
{
    let mut rows = String::new();
    let mut i: usize = 0;
    while i < structs.len()
        invariant
            i <= structs.len(),
            structs_text(structs@, configurations, i as int) == Ok::<Seq<char>, CompilerError>(
                rows@,
            ),
        decreases structs.len() - i,
    {
        let ghost before = rows@;
        match struct_block(&structs[i], configurations) {
            Ok(text) => {
                rows.append(text.as_str());
                proof {
                    let declaration = struct_text(
                        &structs@[i as int],
                        &configurations.compiler_configurations,
                    )->Ok_0;
                    let initializer = struct_initializer_text(
                        &structs@[i as int],
                        &configurations.compiler_configurations,
                    )->Ok_0;
                    assert(before + (declaration + initializer) =~= before + declaration
                        + initializer);
                }
            },
            Err(error) => {
                proof {
                    assert(structs_text(structs@, configurations, i + 1) == Err::<
                        Seq<char>,
                        CompilerError,
                    >(error));
                    lemma_structs_failure_stays(
                        structs@,
                        configurations,
                        i + 1,
                        structs@.len() as int,
                    );
                }
                return Err(error);
            },
        }
        i = i + 1;
    }
    Ok(rows)
}

/// The header of a schema file, with a given name in its guard.
pub fn output_header_guarded(
    file: &RuneFileDescription,
    configurations: &CConfigurations,
    output_path: &str,
    guard: &str,
) -> (result: Result<OutputFile, CompilerError>)
    ensures
        file_of(result) == header_file(file, configurations, output_path@, guard@),
{
    proof {
        reveal(header_text);
    }
    let mut h_file_string = if text_is_empty(file.relative_path.as_str()) {
        String::new()
    } else {
        let mut folder = String::from_str("/");
        folder.append(file.relative_path.as_str());
        folder
    };
    h_file_string.append(file.name.as_str());
    h_file_string.append(".rune.h");

    let mut text = header_opening_text(guard);

    // File inclusions
    text.append(includes_block_text(&file.definitions.includes).as_str());

    // User defines
    text.append(defines_block_text(&file.definitions.defines).as_str());

    // Print all enum definitions
    let enums = enums_block(&file.definitions.enums, configurations)?;
    text.append(enums.as_str());

    // Bitfields
    let bitfields = bitfields_block(&file.definitions.bitfields, configurations)?;
    text.append(bitfields.as_str());

    // Print out structs
    let structs = structs_block(&file.definitions.structs, configurations)?;
    text.append(structs.as_str());
    text.append(header_closing_text(guard).as_str());

    let mut header_file: OutputFile = OutputFile::new(
        String::from_str(output_path),
        h_file_string,
    );
    header_file.add_text(text.as_str());
    proof {
        assert(header_file@.text =~= text@);
    }
    Ok(header_file)
}

/// Whether a text is empty.
pub fn text_is_empty(text: &str) -> (empty: bool)
    ensures
        empty == (text@.len() == 0),
{
    text.unicode_len() == 0
}

/// The header of a schema file. The name in its guard is the name of the
/// file in upper case.
pub fn output_header(
    file: &RuneFileDescription,
    configurations: &CConfigurations,
    output_path: &str,
) -> (result: Result<OutputFile, CompilerError>)
    ensures
        file_of(result) == header_file(
            file,
            configurations,
            output_path@,
            uppercase(file.name@),
        ),
{
    let guard = to_uppercase(file.name.as_str());
    output_header_guarded(file, configurations, output_path, guard.as_str())
}

} // verus!
