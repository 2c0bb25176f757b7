use vstd::prelude::*;

verus! {

/// The error taxonomy of the host.
///
/// `DecodeError` is local to the failing op call and is delivered to the
/// guest as a catchable failure; all the others are unrecoverable at the
/// host level and become the terminal result of the run.
#[derive(Clone, Copy, Debug, PartialEq, Eq, Structural)]
pub enum HostError {
    /// The specifier is outside the known namespace.
    NotFound,
    /// A dynamic import was attempted (always, unconditionally refused).
    UnsupportedOperation,
    /// Malformed input to a decoding op, or an op argument that fails to
    /// decode against the op's declared schema.
    DecodeError,
    /// A failure while installing or validating the baseline guest globals;
    /// always aborts the run immediately.
    FatalBootstrapError,
    /// An uncaught failure raised during guest module evaluation.
    EvaluationError,
}

} // verus!
