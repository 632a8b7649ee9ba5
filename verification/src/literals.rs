use rune_parser::scanner::NumeralSystem as LoaderSystem;
use rune_parser::scanner::NumericLiteral as LoaderLiteral;
use rune_parser::types::ArraySize as LoaderArraySize;
use rune_parser::types::DefineDefinition as LoaderDefine;
use rune_parser::types::DefineValue as LoaderValue;
use vstd::prelude::*;

use crate::schema::{ArraySize, NumeralSystem, NumericLiteral};
use crate::text::{digits, padded_number_text, zero_padded};

verus! {

/// A number that is not negative, written in a base as the schema language writes it:
/// `0b` and at least two binary digits, plain decimal digits, or `0x` and at
/// least two hexadecimal digits in upper case.
pub open spec fn unsigned_text(value: nat, system: NumeralSystem) -> Seq<char> {
    match system {
        NumeralSystem::Binary => "0b"@ + zero_padded(digits(value, 2), 2),
        NumeralSystem::Decimal => digits(value, 10),
        NumeralSystem::Hexadecimal => "0x"@ + zero_padded(digits(value, 16), 2),
    }
}

/// The distance of a number from zero.
pub open spec fn magnitude(value: int) -> nat {
    if value < 0 {
        (-value) as nat
    } else {
        value as nat
    }
}

/// A number of the negative kind, written in a base: in base 10 the sign
/// stands only in front of a number below zero, in the other bases always.
pub open spec fn signed_text(value: int, system: NumeralSystem) -> Seq<char> {
    match system {
        NumeralSystem::Binary => "-0b"@ + zero_padded(digits(magnitude(value), 2), 2),
        NumeralSystem::Decimal => if value < 0 {
            "-"@ + digits(magnitude(value), 10)
        } else {
            digits(magnitude(value), 10)
        },
        NumeralSystem::Hexadecimal => "-0x"@ + zero_padded(digits(magnitude(value), 16), 2),
    }
}

impl NumericLiteral {
    /// The literal as it stands in generated code.
    pub open spec fn text(&self) -> Seq<char> {
        match self {
            NumericLiteral::Boolean(value) => if *value {
                "true"@
            } else {
                "false"@
            },
            NumericLiteral::PositiveInteger(value, system) => unsigned_text(*value as nat, *system),
            NumericLiteral::NegativeInteger(value, system) => signed_text(*value as int, *system),
            NumericLiteral::Float(_, text) => text@,
        }
    }

    /// The literals that the schema loader itself can write out: the booleans
    /// and the integers, but for the smallest integer in base 2 or 16, whose
    /// magnitude the loader cannot form.
    pub open spec fn written_by_loader(&self) -> bool {
        match self {
            NumericLiteral::Boolean(_) => true,
            NumericLiteral::PositiveInteger(_, _) => true,
            NumericLiteral::NegativeInteger(value, system) => *value > i64::MIN
                || *system == NumeralSystem::Decimal,
            NumericLiteral::Float(_, _) => false,
        }
    }

    /// The literal as it stands in generated code.
    pub fn to_string(&self) -> (text: String)
        ensures
            text@ == self.text(),
    {
        match self {
            NumericLiteral::Float(_, text) => text.clone(),
            NumericLiteral::NegativeInteger(value, system) => {
                if *value == i64::MIN {
                    // The magnitude does not fit the signed type: write it from the unsigned one.
                    let size: u64 = 0x8000_0000_0000_0000;
                    match system {
                        NumeralSystem::Binary => {
                            let mut text = String::from_str("-0b");
                            text.append(padded_number_text(size, 2, 2).as_str());
                            text
                        },
                        NumeralSystem::Decimal => loader_literal_text(self),
                        NumeralSystem::Hexadecimal => {
                            let mut text = String::from_str("-0x");
                            text.append(padded_number_text(size, 16, 2).as_str());
                            text
                        },
                    }
                } else {
                    loader_literal_text(self)
                }
            },
            _ => loader_literal_text(self),
        }
    }
}

impl ArraySize {
    /// The number of elements as it stands between the brackets of a C array:
    /// a number in the base in which the schema wrote it, or the name of the
    /// constant that holds it.
    pub open spec fn text(&self) -> Seq<char> {
        match self {
            ArraySize::Integer(value, system) => match system {
                NumeralSystem::Binary => "0b"@ + digits(*value as nat, 2),
                NumeralSystem::Decimal => digits(*value as nat, 10),
                NumeralSystem::Hexadecimal => "0x"@ + zero_padded(digits(*value as nat, 16), 2),
            },
            ArraySize::UserDefinition(definition) => definition.name@,
        }
    }

    /// The number of elements as it stands between the brackets of a C array.
    pub fn to_string(&self) -> (text: String)
        ensures
            text@ == self.text(),
    {
        loader_array_size_text(self)
    }
}

/// `Display` of `rune_parser::scanner::NumericLiteral`, reached through
/// `to_string`. Not proved: that it writes `true` or `false` for a boolean, and
/// an integer in its base as `NumericLiteral::text` says, the digits being
/// those of std's `{}`, `{:02b}` and `{:02X}`. The smallest integer in base 2
/// or 16 is left out, because the loader takes its absolute value first.
#[verifier::external_body]
fn loader_literal_text(literal: &NumericLiteral) -> (text: String)
    requires
        literal.written_by_loader(),
    ensures
        text@ == literal.text(),
{
    let system = |system: &NumeralSystem| match system {
        NumeralSystem::Binary => LoaderSystem::Binary,
        NumeralSystem::Decimal => LoaderSystem::Decimal,
        NumeralSystem::Hexadecimal => LoaderSystem::Hexadecimal,
    };
    match literal {
        NumericLiteral::Boolean(value) => LoaderLiteral::Boolean(*value).to_string(),
        NumericLiteral::PositiveInteger(value, base) => LoaderLiteral::PositiveInteger(*value, system(base)).to_string(),
        NumericLiteral::NegativeInteger(value, base) => LoaderLiteral::NegativeInteger(*value, system(base)).to_string(),
        NumericLiteral::Float(_, text) => text.clone(),
    }
}

/// `Display` of `rune_parser::types::ArraySize`, reached through `to_string`.
/// Not proved: that it writes a number in its base as `ArraySize::text` says
/// (std's `{}`, `{:b}` and `{:02X}`), and for a named constant the name alone.
#[verifier::external_body]
fn loader_array_size_text(size: &ArraySize) -> (text: String)
    ensures
        text@ == size.text(),
{
    let outside = match size {
        ArraySize::Integer(value, NumeralSystem::Binary) => LoaderArraySize::Integer(*value, LoaderSystem::Binary),
        ArraySize::Integer(value, NumeralSystem::Decimal) => LoaderArraySize::Integer(*value, LoaderSystem::Decimal),
        ArraySize::Integer(value, NumeralSystem::Hexadecimal) => LoaderArraySize::Integer(*value, LoaderSystem::Hexadecimal),
        ArraySize::UserDefinition(definition) => LoaderArraySize::UserDefinition(LoaderDefine {
            name: definition.name.clone(),
            value: LoaderValue::NoValue,
            comment: None,
            redefinition: None,
        }),
    };
    outside.to_string()
}

} // verus!
