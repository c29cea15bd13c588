//! Failure values returned by compilation, validation and deserialization.

use vstd::prelude::*;

verus! {

/// Why compiling or validating a module failed.
#[derive(Debug)]
pub enum CompileError {
    /// Code generation failed, or no compiler is attached (headless mode).
    Codegen(String),
    /// The module is invalid, or validation is unsupported (headless mode).
    Validate(String),
    /// Memory for the compiled code could not be allocated or mapped.
    Resource(String),
}

impl CompileError {
    /// The diagnostic carried by this error.
    pub fn message(&self) -> (r: &String)
        ensures
            r@ == self.spec_message(),
    {
        match self {
            CompileError::Codegen(s) => s,
            CompileError::Validate(s) => s,
            CompileError::Resource(s) => s,
        }
    }

    /// The diagnostic carried by this error.
    pub open spec fn spec_message(&self) -> Seq<char> {
        match self {
            CompileError::Codegen(s) => s@,
            CompileError::Validate(s) => s@,
            CompileError::Resource(s) => s@,
        }
    }
}

/// Why deserializing a previously serialized artifact failed.
#[derive(Debug)]
pub enum DeserializeError {
    /// The bytes are not a well-formed serialized artifact.
    CorruptedBinary(String),
    /// Loading the decoded artifact into the engine failed.
    Compiler(CompileError),
}

} // verus!
