use vstd::prelude::*;

verus! {

/// The ways an operation of the runner can fail.
#[derive(Debug)]
pub enum LambdaError {
    /// The bytecode is malformed or uses unsupported features.
    CompileError(String),
    /// The module does not export the `handle` entry point.
    MissingEntryPoint,
    /// A host operation was asked to touch guest memory out of its bounds.
    MemoryAccessViolation,
    /// No function is registered under the given id.
    FunctionNotFound(String),
    /// Reading or writing durable storage failed.
    StorageError(String),
    /// The persisted registry contents are corrupt.
    MalformedState(String),
    /// The guest stopped on a trap of its own.
    GuestTrap(String),
}

} // verus!
