use vstd::prelude::*;

use crate::compiler_error::CompilerError;
use crate::text::same_text;

verus! {

/// Revisions of the C language, oldest first. C90 is another name for C89.
#[derive(Clone, Copy, Debug, PartialEq, Eq, PartialOrd, Structural)]
pub enum CStandard {
    C89,
    C95,
    C99,
    C11,
    C17,
    C23,
}

impl CStandard {
    /// Position of the revision in the order of publication.
    pub open spec fn ordinal(self) -> nat {
        match self {
            CStandard::C89 => 0,
            CStandard::C95 => 1,
            CStandard::C99 => 2,
            CStandard::C11 => 3,
            CStandard::C17 => 4,
            CStandard::C23 => 5,
        }
    }

    /// Whether this revision is `other` or a later one.
    pub open spec fn at_least(self, other: CStandard) -> bool {
        self.ordinal() >= other.ordinal()
    }

    /// The revision that a name given by the user stands for.
    pub open spec fn spec_from_string(string: Seq<char>) -> Result<CStandard, CompilerError> {
        if string == "c89"@ || string == "C89"@ || string == "c90"@ || string == "C90"@ {
            Ok(CStandard::C89)
        } else if string == "c95"@ || string == "C95"@ {
            Ok(CStandard::C95)
        } else if string == "c99"@ || string == "C99"@ {
            Ok(CStandard::C99)
        } else if string == "c11"@ || string == "C11"@ {
            Ok(CStandard::C11)
        } else if string == "c17"@ || string == "C17"@ {
            Ok(CStandard::C17)
        } else if string == "c23"@ || string == "C23"@ {
            Ok(CStandard::C23)
        } else {
            Err(CompilerError::InvalidArgument)
        }
    }

    /// The name under which the revision is shown.
    pub open spec fn spec_name(self) -> Seq<char> {
        match self {
            CStandard::C89 => "C89"@,
            CStandard::C95 => "C95"@,
            CStandard::C99 => "C99"@,
            CStandard::C11 => "C11"@,
            CStandard::C17 => "C17"@,
            CStandard::C23 => "C23"@,
        }
    }

    /// `bool` exists from C99 on.
    pub open spec fn spec_allows_boolean(&self) -> bool {
        self.at_least(CStandard::C99)
    }

    /// Designated initializers exist from C99 on.
    pub open spec fn spec_allows_designated_initializers(&self) -> bool {
        self.at_least(CStandard::C99)
    }

    /// Flexible array members exist from C99 on.
    pub open spec fn spec_allows_flexible_array_members(&self) -> bool {
        self.at_least(CStandard::C99)
    }

    /// `inline` exists from C99 on.
    pub open spec fn spec_allows_inline(&self) -> bool {
        self.at_least(CStandard::C99)
    }

    /// The integer types of fixed width exist from C99 on.
    pub open spec fn spec_allows_integer_types(&self) -> bool {
        self.at_least(CStandard::C99)
    }

    /// An enum can name its underlying type from C23 on.
    pub open spec fn spec_allows_enum_backing_type(&self) -> bool {
        self.at_least(CStandard::C23)
    }

    /// Reads a revision from its name, in lower or upper case.
    /// Any other text is an invalid argument.
    pub fn from_string(string: &str) -> (result: Result<CStandard, CompilerError>)
        ensures
            result == Self::spec_from_string(string@),
    {
        if same_text(string, "c89") || same_text(string, "C89") || same_text(string, "c90")
            || same_text(string, "C90") {
            Ok(CStandard::C89)
        } else if same_text(string, "c95") || same_text(string, "C95") {
            Ok(CStandard::C95)
        } else if same_text(string, "c99") || same_text(string, "C99") {
            Ok(CStandard::C99)
        } else if same_text(string, "c11") || same_text(string, "C11") {
            Ok(CStandard::C11)
        } else if same_text(string, "c17") || same_text(string, "C17") {
            Ok(CStandard::C17)
        } else if same_text(string, "c23") || same_text(string, "C23") {
            Ok(CStandard::C23)
        } else {
            Err(CompilerError::InvalidArgument)
        }
    }

    /// The names that `from_string` accepts, as shown to the user.
    pub fn valid_values() -> (text: String)
        ensures
            text@ == "C89/C90, C95, C99, C11, C17, C23"@,
    {
        String::from_str("C89/C90, C95, C99, C11, C17, C23")
    }

    /// Position of the revision in the order of publication.
    pub fn rank(&self) -> (rank: u8)
        ensures
            rank == self.ordinal(),
    {
        match self {
            CStandard::C89 => 0,
            CStandard::C95 => 1,
            CStandard::C99 => 2,
            CStandard::C11 => 3,
            CStandard::C17 => 4,
            CStandard::C23 => 5,
        }
    }

    /// `bool` exists from C99 on.
    #[verifier::when_used_as_spec(spec_allows_boolean)]
    pub fn allows_boolean(&self) -> (allowed: bool)
        ensures
            allowed == self.at_least(CStandard::C99),
    {
        self.rank() >= 2
    }

    /// Designated initializers exist from C99 on.
    #[verifier::when_used_as_spec(spec_allows_designated_initializers)]
    pub fn allows_designated_initializers(&self) -> (allowed: bool)
        ensures
            allowed == self.at_least(CStandard::C99),
    {
        self.rank() >= 2
    }

    /// Flexible array members exist from C99 on.
    #[verifier::when_used_as_spec(spec_allows_flexible_array_members)]
    pub fn allows_flexible_array_members(&self) -> (allowed: bool)
        ensures
            allowed == self.at_least(CStandard::C99),
    {
        self.rank() >= 2
    }

    /// `inline` exists from C99 on.
    #[verifier::when_used_as_spec(spec_allows_inline)]
    pub fn allows_inline(&self) -> (allowed: bool)
        ensures
            allowed == self.at_least(CStandard::C99),
    {
        self.rank() >= 2
    }

    /// The integer types of fixed width exist from C99 on.
    #[verifier::when_used_as_spec(spec_allows_integer_types)]
    pub fn allows_integer_types(&self) -> (allowed: bool)
        ensures
            allowed == self.at_least(CStandard::C99),
    {
        self.rank() >= 2
    }

    /// An enum can name its underlying type from C23 on.
    #[verifier::when_used_as_spec(spec_allows_enum_backing_type)]
    pub fn allows_enum_backing_type(&self) -> (allowed: bool)
        ensures
            allowed == self.at_least(CStandard::C23),
    {
        self.rank() >= 5
    }

    /// The name under which the revision is shown.
    pub fn to_string(&self) -> (text: String)
        ensures
            text@ == self.spec_name(),
    {
        match self {
            CStandard::C89 => String::from_str("C89"),
            CStandard::C95 => String::from_str("C95"),
            CStandard::C99 => String::from_str("C99"),
            CStandard::C11 => String::from_str("C11"),
            CStandard::C17 => String::from_str("C17"),
            CStandard::C23 => String::from_str("C23"),
        }
    }
}

} // verus!
