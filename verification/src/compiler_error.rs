use vstd::prelude::*;

verus! {

/// The ways in which generating code can fail.
///
/// Every failure ends the run: either all files are produced or none is.
#[derive(Clone, Copy, Debug, PartialEq, Eq, Structural)]
pub enum CompilerError {
    /// A configuration value is not one of the accepted ones.
    InvalidArgument,
    /// The folder holding the schema files cannot be used.
    InvalidInputPath,
    /// The schema leaves the configuration without a usable value.
    ConfigurationError,
    /// The schema asks for something that the chosen C standard cannot guarantee.
    SourceAndCStandardMismatch,
    /// A state that a valid schema cannot produce was reached.
    LogicError,
    /// The schema is not linked or not well formed.
    MalformedSource,
    /// The schema uses a feature that has no C rendering yet.
    UnsupportedFeature,
}

} // verus!
