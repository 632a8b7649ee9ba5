use vstd::prelude::*;

use crate::architecture::Architecture;
use crate::c_standard::CStandard;
use crate::compiler_error::CompilerError;
use crate::schema::{
    ArrayType, FieldType, NumericLiteral, Primitive, RuneFileDescription, StructDefinition,
};
pub use crate::structs::{CStructDefinition, CStructMember};
use crate::structs::largest_index;
use crate::text::{
    digits, is_upper, lower, lower_letter, number_text, spaces_text, upper, upper_letter,
};

verus! {

/// The text of a result, or its error.
pub open spec fn text_of(result: Result<String, CompilerError>) -> Result<
    Seq<char>,
    CompilerError,
> {
    match result {
        Ok(text) => Ok(text@),
        Err(error) => Err(error),
    }
}

// String helper functions

/// `NamedVariable` written as `named_variable`: every letter in lower case,
/// and an underscore in front of each upper case letter but the first character.
pub open spec fn snake_case(pascal: Seq<char>) -> Seq<char>
    decreases pascal.len(),
{
    if pascal.len() == 0 {
        Seq::empty()
    } else if pascal.len() > 1 && is_upper(pascal.last()) {
        snake_case(pascal.drop_last()).push('_').push(lower(pascal.last()))
    } else {
        snake_case(pascal.drop_last()).push(lower(pascal.last()))
    }
}

/// `NamedVariable` written as `NAMED_VARIABLE`: every letter in upper case,
/// and an underscore in front of each upper case letter but the first character.
pub open spec fn upper_case(pascal: Seq<char>) -> Seq<char>
    decreases pascal.len(),
{
    if pascal.len() == 0 {
        Seq::empty()
    } else if pascal.len() > 1 && is_upper(pascal.last()) {
        upper_case(pascal.drop_last()).push('_').push(upper(pascal.last()))
    } else {
        upper_case(pascal.drop_last()).push(upper(pascal.last()))
    }
}

/// Output the amount of ' ' spaces
pub fn spaces(amount: usize) -> (text: String)
    ensures
        text@ == spaces_text(amount as nat),
{
    let mut text = String::new();
    let mut count: usize = 0;
    while count < amount
        invariant
            count <= amount,
            text@ == spaces_text(count as nat),
        decreases amount - count,
    {
        text.push(' ');
        count = count + 1;
        assert(text@ =~= spaces_text(count as nat));
    }
    text
}

/// Convert NamedVariable to named_variable
pub fn pascal_to_snake_case(pascal: &str) -> (snake: String)
    ensures
        snake@ == snake_case(pascal@),
{
    let mut snake = String::new();
    let length = pascal.unicode_len();
    let mut i: usize = 0;
    while i < length
        invariant
            length == pascal@.len(),
            i <= length,
            snake@ == snake_case(pascal@.take(i as int)),
        decreases length - i,
    {
        let letter = pascal.get_char(i);
        proof {
            let next = pascal@.take(i + 1);
            assert(next.drop_last() =~= pascal@.take(i as int));
            assert(next.last() == letter);
        }
        if i != 0 && letter >= 'A' && letter <= 'Z' {
            snake.push('_');
        }
        snake.push(lower_letter(letter));
        i = i + 1;
    }
    assert(pascal@.take(length as int) =~= pascal@);
    snake
}

/// Convert NamedVariable to NAMED_VARIABLE
pub fn pascal_to_uppercase(pascal: &str) -> (uppercase: String)
    ensures
        uppercase@ == upper_case(pascal@),
{
    let mut uppercase = String::new();
    let length = pascal.unicode_len();
    let mut i: usize = 0;
    while i < length
        invariant
            length == pascal@.len(),
            i <= length,
            uppercase@ == upper_case(pascal@.take(i as int)),
        decreases length - i,
    {
        let letter = pascal.get_char(i);
        proof {
            let next = pascal@.take(i + 1);
            assert(next.drop_last() =~= pascal@.take(i as int));
            assert(next.last() == letter);
        }
        if i != 0 && letter >= 'A' && letter <= 'Z' {
            uppercase.push('_');
        }
        uppercase.push(upper_letter(letter));
        i = i + 1;
    }
    assert(pascal@.take(length as int) =~= pascal@);
    uppercase
}

// C Configuration

/// What the user chose for one run.
#[derive(Debug, Clone)]
pub struct CompileConfigurations {
    /// Which architecture to optimize for
    pub architecture: Architecture,
    /// Whether or not to pack message data structures
    pub pack_data: bool,
    /// Whether or not to pack parsing metadata structures
    pub pack_metadata: bool,
    /// Whether to declare all rune data in a specific section
    pub section: Option<String>,
    /// Whether to size sort structs to optimize packing
    pub sort: bool,
    /// Specifies which C standard the output source should comply with
    pub c_standard: CStandard,
}

/// The choices of the user, and what the whole schema decides: the widths of
/// the integers that hold sizes, offsets and counts in the descriptors.
#[derive(Debug)]
pub struct CConfigurations {
    // Configurations
    pub compiler_configurations: CompileConfigurations,
    // Data definitions
    pub field_size_type_size: usize,
    pub field_offset_type_size: usize,
    pub message_size_type_size: usize,
    pub parser_index_type_size: usize,
    // Largest encountered declared message index
    pub largest_message_index: usize,
}

/// All the structs of the first `upto` files, file by file.
pub open spec fn all_structs(files: Seq<RuneFileDescription>, upto: int) -> Seq<StructDefinition>
    decreases upto,
{
    if upto <= 0 {
        Seq::empty()
    } else {
        all_structs(files, upto - 1) + files[upto - 1].definitions.structs@
    }
}

/// The width in bytes of the smallest unsigned integer that holds a value.
pub open spec fn unsigned_width(value: nat) -> usize {
    if value <= 0xFF {
        1
    } else if value <= 0xFFFF {
        2
    } else if value <= 0xFFFF_FFFF {
        4
    } else {
        8
    }
}

/// The largest of the estimated sizes of some structs, or the error of the
/// first struct whose size cannot be estimated.
pub open spec fn largest_estimate(
    structs: Seq<StructDefinition>,
    configurations: &CompileConfigurations,
) -> Result<u64, CompilerError>
    decreases structs.len(),
{
    if structs.len() == 0 {
        Ok(0)
    } else {
        match largest_estimate(structs.drop_last(), configurations) {
            Err(error) => Err(error),
            Ok(largest) => match structs.last().spec_estimate_size(configurations) {
                Err(error) => Err(error),
                Ok(size) => Ok(
                    if size > largest {
                        size
                    } else {
                        largest
                    },
                ),
            },
        }
    }
}

/// The largest slot that a member of one of some structs uses.
pub open spec fn largest_message_index(structs: Seq<StructDefinition>) -> u64
    decreases structs.len(),
{
    if structs.len() == 0 {
        0
    } else {
        let before = largest_message_index(structs.drop_last());
        let here = largest_index(structs.last().members@, structs.last().members@.len() as int);
        if here > before {
            here
        } else {
            before
        }
    }
}

/// Once a struct has failed, more structs do not change the outcome.
pub proof fn lemma_first_failure_stays(
    seen: Seq<StructDefinition>,
    all: Seq<StructDefinition>,
    configurations: &CompileConfigurations,
)
    requires
        seen.is_prefix_of(all),
        largest_estimate(seen, configurations) is Err,
    ensures
        largest_estimate(all, configurations) == largest_estimate(seen, configurations),
    decreases all.len(),
{
    if all.len() == seen.len() {
        assert(all =~= seen);
    } else {
        assert(seen.is_prefix_of(all.drop_last()));
        lemma_first_failure_stays(seen, all.drop_last(), configurations);
    }
}

/// The structs of the first files come first among the structs of all files.
pub proof fn lemma_all_structs_prefix(files: Seq<RuneFileDescription>, earlier: int, later: int)
    requires
        0 <= earlier <= later,
    ensures
        all_structs(files, earlier).is_prefix_of(all_structs(files, later)),
    decreases later - earlier,
{
    if earlier < later {
        lemma_all_structs_prefix(files, earlier, later - 1);
    }
}

impl CConfigurations {
    /// What the schema as a whole decides: the width of the integer that
    /// holds sizes and offsets, from the largest estimated size of a struct;
    /// the width of the integer that counts the structs; and the largest slot in
    /// use. A schema without a struct is a configuration error.
    #[verifier::opaque]
    pub open spec fn spec_parse(
        file_descriptions: Seq<RuneFileDescription>,
        configurations: &CompileConfigurations,
    ) -> Result<CConfigurations, CompilerError> {
        let structs = all_structs(file_descriptions, file_descriptions.len() as int);
        match largest_estimate(structs, configurations) {
            Err(error) => Err(error),
            Ok(largest_message_size) => if largest_message_size == 0 {
                Err(CompilerError::ConfigurationError)
            } else {
                Ok(
                    CConfigurations {
                        compiler_configurations: *configurations,
                        field_size_type_size: unsigned_width(largest_message_size as nat),
                        field_offset_type_size: unsigned_width(largest_message_size as nat),
                        message_size_type_size: unsigned_width(largest_message_size as nat),
                        parser_index_type_size: unsigned_width(structs.len()),
                        largest_message_index: largest_message_index(structs) as usize,
                    },
                )
            },
        }
    }

    /// Looks at every struct of every file and settles the widths of the
    /// integers that the descriptors share. It fails with the error of the first
    /// struct whose size cannot be estimated.
    pub fn parse(
        file_descriptions: &Vec<RuneFileDescription>,
        configurations: &CompileConfigurations,
    ) -> (result: Result<CConfigurations, CompilerError>)
        ensures
            result == Self::spec_parse(file_descriptions@, configurations),
    {
        proof {
            reveal(CConfigurations::spec_parse);
        }
        let mut amount_of_messages: u128 = 0;
        let mut largest_message_size: u64 = 0;
        let mut largest_index_found: u64 = 0;
        let ghost files = file_descriptions@;
        let ghost all = all_structs(files, files.len() as int);

        // Get the largest overall message size, and the amount of messages
        let mut i: usize = 0;
        while i < file_descriptions.len()
            invariant
                i <= file_descriptions.len(),
                files == file_descriptions@,
                all == all_structs(files, files.len() as int),
                amount_of_messages == all_structs(files, i as int).len(),
                amount_of_messages <= i * usize::MAX,
                largest_estimate(all_structs(files, i as int), configurations) == Ok::<
                    u64,
                    CompilerError,
                >(largest_message_size),
                largest_index_found == largest_message_index(all_structs(files, i as int)),
            decreases file_descriptions.len() - i,
        {
            let file = &file_descriptions[i];
            let ghost before = all_structs(files, i as int);
            let mut j: usize = 0;
            while j < file.definitions.structs.len()
                invariant
                    j <= file.definitions.structs.len(),
                    i < file_descriptions.len(),
                    files == file_descriptions@,
                    *file == files[i as int],
                    before == all_structs(files, i as int),
                    all == all_structs(files, files.len() as int),
                    largest_estimate(
                        before + file.definitions.structs@.take(j as int),
                        configurations,
                    ) == Ok::<u64, CompilerError>(largest_message_size),
                    largest_index_found == largest_message_index(
                        before + file.definitions.structs@.take(j as int),
                    ),
                decreases file.definitions.structs.len() - j,
            {
                let struct_definition = &file.definitions.structs[j];
                let ghost seen = before + file.definitions.structs@.take(j as int);
                let ghost next = before + file.definitions.structs@.take(j + 1);
                proof {
                    assert(next.drop_last() =~= seen);
                    assert(next.last() == *struct_definition);
                }
                match struct_definition.estimate_size(configurations) {
                    Err(error) => {
                        proof {
                            reveal(CConfigurations::spec_parse);
                            lemma_all_structs_prefix(files, i + 1, files.len() as int);
                            assert(next.is_prefix_of(all_structs(files, i + 1)));
                            assert(next.is_prefix_of(all));
                            lemma_first_failure_stays(next, all, configurations);
                        }
                        return Err(error);
                    },
                    Ok(estimated_size) => {
                        if estimated_size > largest_message_size {
                            largest_message_size = estimated_size;
                        }
                    },
                }
                let highest = struct_definition.highest_index();
                if highest > largest_index_found {
                    largest_index_found = highest;
                }
                j = j + 1;
            }
            proof {
                assert(file.definitions.structs@.take(file.definitions.structs@.len() as int)
                    =~= file.definitions.structs@);
                assert(amount_of_messages + file.definitions.structs@.len() <= (i + 1)
                    * usize::MAX) by (nonlinear_arith)
                    requires
                        amount_of_messages <= i * usize::MAX,
                        file.definitions.structs@.len() <= usize::MAX,
                ;
                assert((i + 1) * usize::MAX <= u128::MAX) by (nonlinear_arith)
                    requires
                        i + 1 <= usize::MAX,
                        usize::MAX <= u64::MAX,
                ;
            }
            // Add struct definition amount to amount of messages
            amount_of_messages = amount_of_messages + file.definitions.structs.len() as u128;
            i = i + 1;
        }

        // Get the unsigned integer size needed to describe the number of messages
        let parser_index_type_size: usize = if amount_of_messages <= 0xFF {
            1
        } else if amount_of_messages <= 0xFFFF {
            2
        } else if amount_of_messages <= 0xFFFF_FFFF {
            4
        } else {
            8
        };

        // Field size type and offset size type will be based on the largest message size
        let message_size_type_size: usize = if largest_message_size == 0 {
            return Err(CompilerError::ConfigurationError);
        } else if largest_message_size <= 0xFF {
            1
        } else if largest_message_size <= 0xFFFF {
            2
        } else if largest_message_size <= 0xFFFF_FFFF {
            4
        } else {
            8
        };

        let field_size_type_size: usize = message_size_type_size;
        let field_offset_type_size: usize = message_size_type_size;

        Ok(
            CConfigurations {
                compiler_configurations: copy_of(configurations),
                field_size_type_size,
                field_offset_type_size,
                message_size_type_size,
                parser_index_type_size,
                largest_message_index: #[verifier::truncate]
                (largest_index_found as usize),
            },
        )
    }
}

/// A copy of the choices of the user.
pub fn copy_of(configurations: &CompileConfigurations) -> (copy: CompileConfigurations)
    ensures
        copy == *configurations,
{
    CompileConfigurations {
        architecture: configurations.architecture,
        pack_data: configurations.pack_data,
        pack_metadata: configurations.pack_metadata,
        section: match &configurations.section {
            Some(name) => Some(name.clone()),
            None => None,
        },
        sort: configurations.sort,
        c_standard: configurations.c_standard,
    }
}

// Numeric value helper functions

/// How many of the 8 bytes of a value are zero, counted from the most significant one.
pub open spec fn leading_zero_bytes(bits: u64) -> nat {
    if bits == 0 {
        8
    } else if bits < 0x100 {
        7
    } else if bits < 0x1_0000 {
        6
    } else if bits < 0x100_0000 {
        5
    } else if bits < 0x1_0000_0000 {
        4
    } else if bits < 0x100_0000_0000 {
        3
    } else if bits < 0x1_0000_0000_0000 {
        2
    } else if bits < 0x100_0000_0000_0000 {
        1
    } else {
        0
    }
}

/// The width in bytes of the smallest C integer that holds a value with so
/// many leading zero bytes.
pub open spec fn width_for_zero_bytes(zero_bytes: nat) -> u64 {
    if zero_bytes < 4 {
        8
    } else if zero_bytes < 6 {
        4
    } else if zero_bytes < 7 {
        2
    } else {
        1
    }
}

/// The 64 bits that hold a signed value.
pub open spec fn bit_pattern(value: i64) -> u64 {
    if value < 0 {
        (value + 0x1_0000_0000_0000_0000) as u64
    } else {
        value as u64
    }
}

/// The width in bytes that the 64 bits of a value ask for.
pub fn width_of_bits(bits: u64) -> (width: u64)
    ensures
        width == width_for_zero_bytes(leading_zero_bytes(bits)),
{
    if bits >= 0x1_0000_0000 {
        8
    } else if bits >= 0x1_0000 {
        4
    } else if bits >= 0x100 {
        2
    } else {
        1
    }
}

/// What the generator asks of a literal value.
pub trait CNumericValue {
    /// The width in bytes of the smallest C integer that holds the value.
    spec fn spec_requires_size(&self) -> u64;

    /// The width in bytes of the smallest C integer that holds the value:
    /// 1, 2, 4 or 8.
    fn requires_size(&self) -> (size: u64)
        ensures
            size == self.spec_requires_size(),
    ;
}

impl CNumericValue for NumericLiteral {
    open spec fn spec_requires_size(&self) -> u64 {
        match self {
            NumericLiteral::Boolean(_) => 1,
            NumericLiteral::PositiveInteger(value, _) => width_for_zero_bytes(
                leading_zero_bytes(*value),
            ),
            NumericLiteral::NegativeInteger(value, _) => width_for_zero_bytes(
                leading_zero_bytes(bit_pattern(*value)),
            ),
            NumericLiteral::Float(bits, _) => width_for_zero_bytes(leading_zero_bytes(*bits)),
        }
    }

    fn requires_size(&self) -> (size: u64) {
        match self {
            NumericLiteral::Boolean(_) => 1,
            NumericLiteral::PositiveInteger(value, _) => width_of_bits(*value),
            NumericLiteral::NegativeInteger(value, _) => {
                if *value < 0 {
                    8
                } else {
                    width_of_bits(*value as u64)
                }
            },
            NumericLiteral::Float(bits, _) => width_of_bits(*bits),
        }
    }
}

// Primitive methods

/// The C type of one unsigned byte.
pub open spec fn byte_type(c_standard: &CStandard) -> Seq<char> {
    if c_standard.spec_allows_integer_types() {
        "uint8_t"@
    } else {
        "unsigned char"@
    }
}

/// What the generator asks of a scalar type: its size, its name in C and
/// the literal that stands for its zero.
pub trait CPrimitive {
    /// Size in bytes.
    spec fn spec_c_size(&self) -> u64;

    /// The literal that sets a variable of the type to zero.
    spec fn spec_c_initializer(&self, c_standard: &CStandard) -> Seq<char>;

    /// The declaration of a variable of the type.
    spec fn spec_create_c_variable(
        &self,
        name: Seq<char>,
        spacing: usize,
        c_standard: &CStandard,
    ) -> Result<Seq<char>, CompilerError>;

    /// The name of the type in C.
    spec fn spec_to_c_type(&self, c_standard: &CStandard) -> Result<Seq<char>, CompilerError>;

    /// Size in bytes: 1, 2, 4, 8 or 16.
    fn c_size(&self) -> (size: u64)
        ensures
            size == self.spec_c_size(),
    ;

    /// The literal that sets a variable of the type to zero.
    fn c_initializer(&self, c_standard: &CStandard) -> (text: String)
        ensures
            text@ == self.spec_c_initializer(c_standard),
    ;

    /// The declaration of a variable of the type, without the semicolon:
    /// the type, one space and `spacing` more, and the name.
    fn create_c_variable(&self, name: &str, spacing: usize, c_standard: &CStandard) -> (result:
        Result<String, CompilerError>)
        ensures
            text_of(result) == self.spec_create_c_variable(name@, spacing, c_standard),
    ;

    /// The name of the type in C, which depends on the standard. An integer
    /// of 64 bits is refused where the standard has no type of that width.
    fn to_c_type(&self, c_standard: &CStandard) -> (result: Result<String, CompilerError>)
        ensures
            text_of(result) == self.spec_to_c_type(c_standard),
    ;
}

impl CPrimitive for Primitive {
    open spec fn spec_c_size(&self) -> u64 {
        match self {
            Primitive::Bool | Primitive::Char | Primitive::I8 | Primitive::U8 => 1,
            Primitive::I16 | Primitive::U16 => 2,
            Primitive::F32 | Primitive::I32 | Primitive::U32 => 4,
            Primitive::F64 | Primitive::I64 | Primitive::U64 => 8,
            Primitive::I128 | Primitive::U128 => 16,
        }
    }

    open spec fn spec_c_initializer(&self, c_standard: &CStandard) -> Seq<char> {
        match self {
            Primitive::Bool => if c_standard.spec_allows_boolean() {
                "false"@
            } else {
                "0"@
            },
            Primitive::F32 | Primitive::F64 => "0.0"@,
            // 128 bit integers are byte arrays
            Primitive::I128 | Primitive::U128 => "{ 0 }"@,
            _ => "0"@,
        }
    }

    open spec fn spec_create_c_variable(
        &self,
        name: Seq<char>,
        spacing: usize,
        c_standard: &CStandard,
    ) -> Result<Seq<char>, CompilerError> {
        match self {
            // 128 bit integers get converted into a byte array
            Primitive::I128 | Primitive::U128 => Ok(
                byte_type(c_standard) + " "@ + spaces_text(spacing as nat) + name + "["@ + digits(
                    16,
                    10,
                ) + "]"@,
            ),
            _ => match self.spec_to_c_type(c_standard) {
                Ok(c_type) => Ok(c_type + " "@ + spaces_text(spacing as nat) + name),
                Err(error) => Err(error),
            },
        }
    }

    open spec fn spec_to_c_type(&self, c_standard: &CStandard) -> Result<Seq<char>, CompilerError> {
        let sized = c_standard.spec_allows_integer_types();
        match self {
            // 8 Bit
            Primitive::Bool => Ok(
                if c_standard.spec_allows_boolean() {
                    "bool"@
                } else {
                    "char"@
                },
            ),
            Primitive::Char => Ok("char"@),
            Primitive::I8 => Ok(
                if sized {
                    "int8_t"@
                } else {
                    "signed char"@
                },
            ),
            Primitive::U8 => Ok(byte_type(c_standard)),
            // 16 Bit
            Primitive::I16 => Ok(
                if sized {
                    "int16_t"@
                } else {
                    "signed short"@
                },
            ),
            Primitive::U16 => Ok(
                if sized {
                    "uint16_t"@
                } else {
                    "unsigned short"@
                },
            ),
            // 32 Bit
            Primitive::F32 => Ok("float"@),
            Primitive::I32 => Ok(
                if sized {
                    "int32_t"@
                } else {
                    "signed long"@
                },
            ),
            Primitive::U32 => Ok(
                if sized {
                    "uint32_t"@
                } else {
                    "unsigned long"@
                },
            ),
            // 64 Bit
            Primitive::F64 => Ok("double"@),
            Primitive::I64 => if sized {
                Ok("int64_t"@)
            } else {
                Err(CompilerError::SourceAndCStandardMismatch)
            },
            Primitive::U64 => if sized {
                Ok("uint64_t"@)
            } else {
                Err(CompilerError::SourceAndCStandardMismatch)
            },
            // 128 Bit - Devolve into unsigned 16 Byte arrays
            Primitive::I128 | Primitive::U128 => Ok(
                if sized {
                    "uint8_t[16]"@
                } else {
                    "unsigned char[16]"@
                },
            ),
        }
    }

    fn c_size(&self) -> (size: u64) {
        match self {
            Primitive::Bool | Primitive::Char | Primitive::I8 | Primitive::U8 => 1,
            Primitive::I16 | Primitive::U16 => 2,
            Primitive::F32 | Primitive::I32 | Primitive::U32 => 4,
            Primitive::F64 | Primitive::I64 | Primitive::U64 => 8,
            Primitive::I128 | Primitive::U128 => 16,
        }
    }

    fn c_initializer(&self, c_standard: &CStandard) -> (text: String) {
        match self {
            Primitive::Bool => {
                if c_standard.allows_boolean() {
                    String::from_str("false")
                } else {
                    String::from_str("0")
                }
            },
            Primitive::F32 | Primitive::F64 => String::from_str("0.0"),
            Primitive::I128 | Primitive::U128 => String::from_str("{ 0 }"),
            _ => String::from_str("0"),
        }
    }

    fn create_c_variable(&self, name: &str, spacing: usize, c_standard: &CStandard) -> (result:
        Result<String, CompilerError>) {
        match self {
            Primitive::I128 | Primitive::U128 => {
                let mut text = Primitive::U8.to_c_type(c_standard)?;
                text.append(" ");
                text.append(spaces(spacing).as_str());
                text.append(name);
                text.append("[");
                text.append(number_text(self.c_size(), 10).as_str());
                text.append("]");
                Ok(text)
            },
            _ => {
                let mut text = self.to_c_type(c_standard)?;
                text.append(" ");
                text.append(spaces(spacing).as_str());
                text.append(name);
                Ok(text)
            },
        }
    }

    fn to_c_type(&self, c_standard: &CStandard) -> (result: Result<String, CompilerError>) {
        let sized = c_standard.allows_integer_types();
        let string: &str = match self {
            Primitive::Bool => if c_standard.allows_boolean() {
                "bool"
            } else {
                "char"
            },
            Primitive::Char => "char",
            Primitive::I8 => if sized {
                "int8_t"
            } else {
                "signed char"
            },
            Primitive::U8 => if sized {
                "uint8_t"
            } else {
                "unsigned char"
            },
            Primitive::I16 => if sized {
                "int16_t"
            } else {
                "signed short"
            },
            Primitive::U16 => if sized {
                "uint16_t"
            } else {
                "unsigned short"
            },
            Primitive::F32 => "float",
            Primitive::I32 => if sized {
                "int32_t"
            } else {
                "signed long"
            },
            Primitive::U32 => if sized {
                "uint32_t"
            } else {
                "unsigned long"
            },
            Primitive::F64 => "double",
            Primitive::I64 => if sized {
                "int64_t"
            } else {
                return Err(CompilerError::SourceAndCStandardMismatch);
            },
            Primitive::U64 => if sized {
                "uint64_t"
            } else {
                return Err(CompilerError::SourceAndCStandardMismatch);
            },
            Primitive::I128 | Primitive::U128 => if sized {
                "uint8_t[16]"
            } else {
                "unsigned char[16]"
            },
        };
        Ok(String::from_str(string))
    }
}

/// A primitive has no name in C exactly where it is an integer of 64 bits
/// and the standard has no integer types of fixed width: asking for it then
/// ends in a mismatch of source and standard, and never in a narrower type.
pub proof fn lemma_wide_integers_need_fixed_width(primitive: Primitive, c_standard: &CStandard)
    ensures
        primitive.spec_to_c_type(c_standard) is Err <==> (primitive == Primitive::I64 || primitive
            == Primitive::U64) && !c_standard.at_least(CStandard::C99),
        primitive.spec_to_c_type(c_standard) is Err ==> primitive.spec_to_c_type(c_standard)
            == Err::<Seq<char>, CompilerError>(CompilerError::SourceAndCStandardMismatch),
{
}

// Array Type

/// The C name of a type that the schema declares.
pub open spec fn user_type(name: Seq<char>) -> Seq<char> {
    snake_case(name) + "_t"@
}

/// The C name of the macro that sets a value of a user defined type to zero.
pub open spec fn user_initializer(name: Seq<char>) -> Seq<char> {
    upper_case(name) + "_INIT"@
}

/// What the generator asks of the type of the elements of an array.
pub trait CArrayType {
    /// The name in C of the type of the elements.
    spec fn spec_to_c_type(&self, c_standard: &CStandard) -> Result<Seq<char>, CompilerError>;

    /// The name in C of the type of the elements.
    fn to_c_type(&self, c_standard: &CStandard) -> (result: Result<String, CompilerError>)
        ensures
            text_of(result) == self.spec_to_c_type(c_standard),
    ;
}

impl CArrayType for ArrayType {
    open spec fn spec_to_c_type(&self, c_standard: &CStandard) -> Result<Seq<char>, CompilerError> {
        match self {
            ArrayType::Primitive(primitive) => primitive.spec_to_c_type(c_standard),
            ArrayType::UserDefined(definition) => Ok(user_type(definition@)),
        }
    }

    fn to_c_type(&self, c_standard: &CStandard) -> (result: Result<String, CompilerError>) {
        match self {
            ArrayType::Primitive(primitive) => primitive.to_c_type(c_standard),
            ArrayType::UserDefined(definition) => {
                let mut text = pascal_to_snake_case(definition.as_str());
                text.append("_t");
                Ok(text)
            },
        }
    }
}

// Field type methods

/// The value that fills an array of elements of a type with zeros.
pub open spec fn element_initializer(array_type: &ArrayType, c_standard: &CStandard) -> Seq<char> {
    match array_type {
        // Special 128 bit case
        ArrayType::Primitive(Primitive::I128) | ArrayType::Primitive(Primitive::U128) => "0"@,
        ArrayType::Primitive(primitive) => primitive.spec_c_initializer(c_standard),
        ArrayType::UserDefined(name) => user_initializer(name@),
    }
}

/// What the generator asks of the type of a struct member.
pub trait CFieldType {
    /// The value that sets a field of the type to zero.
    spec fn spec_c_initializer(&self, c_standard: &CStandard) -> Result<Seq<char>, CompilerError>;

    /// The declaration of a field of the type.
    spec fn spec_create_c_variable(
        &self,
        name: Seq<char>,
        spacing: usize,
        c_standard: &CStandard,
    ) -> Result<Seq<char>, CompilerError>;

    /// The value that sets a field of the type to zero. An empty field has
    /// none: asking for it is a logic error.
    fn c_initializer(&self, c_standard: &CStandard) -> (result: Result<String, CompilerError>)
        ensures
            text_of(result) == self.spec_c_initializer(c_standard),
    ;

    /// The declaration of a field of the type, without the semicolon. An
    /// empty field cannot be declared: asking for it is a logic error.
    fn create_c_variable(&self, name: &str, spacing: usize, c_standard: &CStandard) -> (result:
        Result<String, CompilerError>)
        ensures
            text_of(result) == self.spec_create_c_variable(name@, spacing, c_standard),
    ;
}

impl CFieldType for FieldType {
    open spec fn spec_c_initializer(&self, c_standard: &CStandard) -> Result<
        Seq<char>,
        CompilerError,
    > {
        match self {
            FieldType::Primitive(primitive) => Ok(primitive.spec_c_initializer(c_standard)),
            FieldType::UserDefined(name) => Ok(user_initializer(name@)),
            FieldType::Array(array_type, _) => Ok(
                "{ "@ + element_initializer(array_type, c_standard) + " }"@,
            ),
            FieldType::Empty => Err(CompilerError::LogicError),
        }
    }

    open spec fn spec_create_c_variable(
        &self,
        name: Seq<char>,
        spacing: usize,
        c_standard: &CStandard,
    ) -> Result<Seq<char>, CompilerError> {
        match self {
            FieldType::Primitive(primitive) => primitive.spec_create_c_variable(
                name,
                spacing,
                c_standard,
            ),
            FieldType::UserDefined(string) => Ok(
                user_type(string@) + " "@ + spaces_text(spacing as nat) + name,
            ),
            FieldType::Array(field_type, field_size) => match field_type.spec_to_c_type(
                c_standard,
            ) {
                Ok(c_type) => Ok(
                    c_type + " "@ + spaces_text(spacing as nat) + name + "["@
                        + field_size.text() + "]"@,
                ),
                Err(error) => Err(error),
            },
            FieldType::Empty => Err(CompilerError::LogicError),
        }
    }

    fn c_initializer(&self, c_standard: &CStandard) -> (result: Result<String, CompilerError>) {
        match self {
            FieldType::Primitive(primitive) => Ok(primitive.c_initializer(c_standard)),
            FieldType::UserDefined(name) => {
                let mut text = pascal_to_uppercase(name.as_str());
                text.append("_INIT");
                Ok(text)
            },
            FieldType::Array(array_type, _) => {
                let mut text = String::from_str("{ ");
                match array_type {
                    ArrayType::Primitive(Primitive::I128) | ArrayType::Primitive(
                        Primitive::U128,
                    ) => {
                        text.append("0");
                    },
                    ArrayType::Primitive(primitive) => {
                        text.append(primitive.c_initializer(c_standard).as_str());
                    },
                    ArrayType::UserDefined(name) => {
                        let mut inner = pascal_to_uppercase(name.as_str());
                        inner.append("_INIT");
                        text.append(inner.as_str());
                    },
                }
                text.append(" }");
                Ok(text)
            },
            FieldType::Empty => Err(CompilerError::LogicError),
        }
    }

    fn create_c_variable(&self, name: &str, spacing: usize, c_standard: &CStandard) -> (result:
        Result<String, CompilerError>) {
        match self {
            FieldType::Primitive(primitive) => primitive.create_c_variable(
                name,
                spacing,
                c_standard,
            ),
            FieldType::UserDefined(string) => {
                let mut text = pascal_to_snake_case(string.as_str());
                text.append("_t");
                text.append(" ");
                text.append(spaces(spacing).as_str());
                text.append(name);
                Ok(text)
            },
            FieldType::Array(field_type, field_size) => {
                let mut text = field_type.to_c_type(c_standard)?;
                text.append(" ");
                text.append(spaces(spacing).as_str());
                text.append(name);
                text.append("[");
                text.append(field_size.to_string().as_str());
                text.append("]");
                Ok(text)
            },
            FieldType::Empty => Err(CompilerError::LogicError),
        }
    }
}

} // verus!
