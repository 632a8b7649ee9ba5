use vstd::prelude::*;

verus! {

/// The scalar types of the schema language.
#[derive(Clone, Copy, Debug, PartialEq, Eq, Structural)]
pub enum Primitive {
    // 1 byte primitives
    Bool,
    Char,
    I8,
    U8,
    // 2 byte primitives
    I16,
    U16,
    // 4 byte primitives
    F32,
    I32,
    U32,
    // 8 byte primitives
    F64,
    I64,
    U64,
    // 16 byte primitives
    I128,
    U128,
}

/// The base in which a number was written in the schema.
#[derive(Clone, Copy, Debug, PartialEq, Eq, Structural)]
pub enum NumeralSystem {
    Binary,
    Decimal,
    Hexadecimal,
}

/// A literal value of the schema.
///
/// A number with a fraction is held as the 64 bits of its IEEE 754 double
/// and the text that stands for it in generated code.
#[derive(Clone, Debug)]
pub enum NumericLiteral {
    Boolean(bool),
    PositiveInteger(u64, NumeralSystem),
    NegativeInteger(i64, NumeralSystem),
    Float(u64, String),
}

/// The value of a definition.
#[derive(Clone, Debug)]
pub enum DefineValue {
    /// Definition with no value
    NoValue,
    /// Numeric value of a user definition
    NumericLiteral(NumericLiteral),
}

/// A later definition that replaces the value of an earlier one.
#[derive(Clone, Debug)]
pub struct RedefineDefinition {
    /// Name of the definition that is replaced
    pub name: String,
    /// New value of the definition
    pub value: DefineValue,
    /// Comment describing the new value
    pub comment: Option<String>,
}

/// A named constant.
#[derive(Clone, Debug)]
pub struct DefineDefinition {
    /// Name of the definition
    pub name: String,
    /// Value of the definition
    pub value: DefineValue,
    /// Comment describing the definition
    pub comment: Option<String>,
    /// A later value that replaces the first one
    pub redefinition: Option<RedefineDefinition>,
}

/// Number of elements of an array, as the schema wrote it.
#[derive(Clone, Debug)]
pub enum ArraySize {
    /// A number, in the base in which it was written
    Integer(u64, NumeralSystem),
    /// A named constant
    UserDefinition(DefineDefinition),
}

/// Type of the elements of an array.
#[derive(Clone, Debug)]
pub enum ArrayType {
    Primitive(Primitive),
    UserDefined(String),
}

/// Type of a struct member.
#[derive(Clone, Debug)]
pub enum FieldType {
    /// Stands in for an index that no member uses
    Empty,
    Primitive(Primitive),
    Array(ArrayType, ArraySize),
    UserDefined(String),
}

/// Place of a member in the message: one of the slots 0 to 31, or the slot of
/// the field that verifies the message, which shares slot 0.
#[derive(Clone, Copy, Debug)]
pub enum FieldIndex {
    Numeric(u64),
    Verifier,
}

/// Slots run from 0 to `FIELD_INDEX_LIMIT - 1`.
pub const FIELD_INDEX_LIMIT: u64 = 32;

impl FieldIndex {
    /// The slot that the index stands for.
    pub open spec fn spec_value(&self) -> u64 {
        match self {
            FieldIndex::Numeric(value) => *value,
            FieldIndex::Verifier => 0,
        }
    }

    /// The slot that the index stands for.
    #[verifier::when_used_as_spec(spec_value)]
    pub fn value(&self) -> (value: u64)
        ensures
            value == self.spec_value(),
    {
        match self {
            FieldIndex::Numeric(value) => *value,
            FieldIndex::Verifier => 0,
        }
    }

    /// Whether this is the slot of the verifying field.
    pub fn is_verifier(&self) -> (verifier: bool)
        ensures
            verifier == (self is Verifier),
    {
        match self {
            FieldIndex::Numeric(_) => false,
            FieldIndex::Verifier => true,
        }
    }
}

/// What a name of a user defined type refers to.
#[derive(Debug)]
pub enum UserDefinitionLink {
    /// The name was not resolved
    NoLink,
    BitfieldLink(BitfieldDefinition),
    EnumLink(EnumDefinition),
    StructLink(StructDefinition),
}

/// One data field of a struct.
#[derive(Debug)]
pub struct StructMember {
    /// Name of the data field
    pub identifier: String,
    /// Type of the data field
    pub data_type: FieldType,
    /// Index of the data field
    pub index: FieldIndex,
    /// The definition behind a user defined type
    pub user_definition_link: UserDefinitionLink,
    /// Comment describing the data field
    pub comment: Option<String>,
}

/// A message: a struct whose members are found by their slots.
#[derive(Debug)]
pub struct StructDefinition {
    /// Name of the struct
    pub name: String,
    /// Data fields of the struct, in the order of declaration
    pub members: Vec<StructMember>,
    /// Comment describing the struct
    pub comment: Option<String>,
}

/// Width of a bit field in bits, and whether it holds signed values.
#[derive(Clone, Copy, Debug)]
pub enum BitSize {
    Signed(u64),
    Unsigned(u64),
}

impl BitSize {
    /// The width in bits.
    pub open spec fn spec_absolute(&self) -> u64 {
        match self {
            BitSize::Signed(size) => *size,
            BitSize::Unsigned(size) => *size,
        }
    }

    /// The width in bits.
    #[verifier::when_used_as_spec(spec_absolute)]
    pub fn absolute(&self) -> (size: u64)
        ensures
            size == self.spec_absolute(),
    {
        match self {
            BitSize::Signed(size) => *size,
            BitSize::Unsigned(size) => *size,
        }
    }
}

/// One field of a bitfield.
#[derive(Clone, Debug)]
pub struct BitfieldMember {
    /// Name of the bit field
    pub identifier: String,
    /// Size of the bit field
    pub size: BitSize,
    /// Index of the bit field
    pub index: u64,
    /// Comment describing the bit field
    pub comment: Option<String>,
}

/// Fields of a few bits each that share one integer.
#[derive(Clone, Debug)]
pub struct BitfieldDefinition {
    /// Name of the bitfield
    pub name: String,
    /// The primitive backing type of the bitfield. Only integers are valid
    pub backing_type: Primitive,
    /// Members of the bitfield
    pub members: Vec<BitfieldMember>,
    /// Comment describing the bitfield
    pub comment: Option<String>,
}

/// One named value of an enum.
#[derive(Clone, Debug)]
pub struct EnumMember {
    /// Name of the enum member
    pub identifier: String,
    /// Value of the enum member
    pub value: NumericLiteral,
    /// Comment describing the enum member
    pub comment: Option<String>,
}

/// Named values held in an integer of a chosen width.
#[derive(Clone, Debug)]
pub struct EnumDefinition {
    /// Name of the enum
    pub name: String,
    /// The primitive backing type of the enum
    pub backing_type: Primitive,
    /// Members of the enum
    pub members: Vec<EnumMember>,
    /// Comment describing the enum
    pub comment: Option<String>,
}

/// Another schema file that this one depends on.
#[derive(Clone, Debug)]
pub struct IncludeDefinition {
    pub file: String,
}

/// All the declarations of one schema file.
#[derive(Debug)]
pub struct Definitions {
    pub bitfields: Vec<BitfieldDefinition>,
    pub defines: Vec<DefineDefinition>,
    pub enums: Vec<EnumDefinition>,
    pub includes: Vec<IncludeDefinition>,
    pub structs: Vec<StructDefinition>,
}

/// One schema file, parsed and linked.
#[derive(Debug)]
pub struct RuneFileDescription {
    /// Folder of the file below the input folder, empty or ending in `/`
    pub relative_path: String,
    /// Name of the file without its extension
    pub name: String,
    pub definitions: Definitions,
}

} // verus!
