use vstd::prelude::*;

use crate::compiler_error::CompilerError;

verus! {

/// Word width of the machine that the generated code is meant for.
#[derive(Clone, Copy, Debug, PartialEq, Eq, Structural)]
pub enum Architecture {
    _32Bit,
    _64Bit,
}

impl Architecture {
    /// The architecture that a bit width names, if it names one.
    pub open spec fn spec_from_value(value: usize) -> Result<Architecture, CompilerError> {
        if value == 32 {
            Ok(Architecture::_32Bit)
        } else if value == 64 {
            Ok(Architecture::_64Bit)
        } else {
            Err(CompilerError::InvalidArgument)
        }
    }

    /// Size of a machine word in bytes.
    pub open spec fn spec_byte_size(&self) -> usize {
        match self {
            Architecture::_32Bit => 4,
            Architecture::_64Bit => 8,
        }
    }

    /// Reads an architecture from its width in bits: 32 or 64, anything else
    /// is an invalid argument.
    pub fn from_value(value: usize) -> (result: Result<Architecture, CompilerError>)
        ensures
            result == Self::spec_from_value(value),
    {
        if value == 32 {
            Ok(Architecture::_32Bit)
        } else if value == 64 {
            Ok(Architecture::_64Bit)
        } else {
            Err(CompilerError::InvalidArgument)
        }
    }

    /// Size of a machine word in bytes: 4 on 32 bit targets, 8 on 64 bit ones.
    #[verifier::when_used_as_spec(spec_byte_size)]
    pub fn byte_size(&self) -> (size: usize)
        ensures
            size == self.spec_byte_size(),
            size == 4 || size == 8,
    {
        match self {
            Architecture::_32Bit => 4,
            Architecture::_64Bit => 8,
        }
    }

    /// The widths that `from_value` accepts, as shown to the user.
    pub fn valid_values() -> (text: String)
        ensures
            text@ == "64, 32"@,
    {
        String::from_str("64, 32")
    }
}

} // verus!
