use vstd::prelude::*;

verus! {

/// Why a key-binding string was rejected.
///
/// `EmptyKey` and `InvalidMode` are kept for callers that match on them; the binding
/// grammar reports an empty key slot as `NoKey` and reads no mode, so it produces
/// neither.
#[derive(Debug, Clone, Copy, PartialEq, Eq, Structural)]
pub enum KeyFromStrError {
    EmptyString,
    NoKey,
    EmptyKey,
    InvalidKey,
    InvalidRepeat,
    InvalidModifier,
    InvalidMode,
}

/// Why a mode name was rejected.
#[derive(Debug, Clone, Copy, PartialEq, Eq, Structural)]
pub enum ModeFromStrError {
    ModeNameNotFound,
}

} // verus!
