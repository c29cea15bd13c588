//! A verified model of the native-code execution core of a WebAssembly
//! runtime: a signature registry that interns function types, code memory
//! that places machine-code bodies and publishes them as executable, an
//! unwind registry for published regions, a trampoline table keyed by shared
//! signature indices, a cloneable engine facade over the lock-protected
//! aggregate of those parts, and a store-scoped handle system for
//! type-erased host values.

pub mod code_memory;
pub mod engine;
pub mod error;
pub mod extern_ref;
pub mod serialize;
pub mod signature;
pub mod store;
pub mod types;
pub mod unwind;
