//! The two ways in which work can fail: while bindings are generated, and
//! while a value is marshaled through a buffer.

use crate::interface::{TypeKind, TypeReference};
use vstd::prelude::*;

verus! {

/// A failure of binding generation. It aborts the whole run: nothing is
/// emitted for a model that holds a construct the generator cannot handle.
#[derive(Debug, PartialEq, Eq)]
pub enum GenerationError {
    /// No rule of the type mapper covers this type.
    UnsupportedType(TypeReference),
    /// The object does not have exactly one constructor.
    UnsupportedConstructorArity { object: String, count: usize },
}

/// The mathematical model of a [`GenerationError`].
pub enum GenerationFailure {
    UnsupportedType(TypeKind),
    UnsupportedConstructorArity { object: Seq<char>, count: nat },
}

impl View for GenerationError {
    type V = GenerationFailure;

    open spec fn view(&self) -> GenerationFailure {
        match self {
            GenerationError::UnsupportedType(t) => GenerationFailure::UnsupportedType(t.kind()),
            GenerationError::UnsupportedConstructorArity { object, count } => {
                GenerationFailure::UnsupportedConstructorArity {
                    object: object@,
                    count: *count as nat,
                }
            },
        }
    }
}

/// A read or write would have gone past the end of a buffer. The buffer and
/// the cursor are left as they were.
#[derive(Clone, Copy, Debug, PartialEq, Eq, Structural)]
pub struct OutOfBounds;

/// What building something of model `T` comes to: the model, or the failure
/// that gave generation up.
pub type Outcome<T> = Result<T, GenerationFailure>;

} // verus!
