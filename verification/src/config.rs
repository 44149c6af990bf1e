//! Configuration from the environment: what a variable's absence means.

use vstd::prelude::*;

verus! {

/// Why the environment gave no text for a variable, as `std::env::VarError`
/// tells it.
#[derive(Clone, Copy, Debug, PartialEq, Eq, Structural)]
pub enum VarFailure {
    /// The variable is not set.
    NotPresent,
    /// The variable is set to something that is no Unicode text.
    NotUnicode,
}

/// Why a variable gave no value.
#[derive(Clone, Copy, Debug, PartialEq, Eq, Structural)]
pub enum EnvErrorKind {
    /// The environment gave no text.
    Env(VarFailure),
    /// The text is not a value of the wanted type.
    Parse,
}

/// A variable that gave no value: its name and the reason.
#[derive(Debug)]
pub struct EnvError<'a>(pub &'a str, pub EnvErrorKind);

/// What a variable's outcome comes to with a default at hand: the default
/// where the variable is not set, else the outcome as it is.
pub open spec fn defaulted<'a, T>(var_opt: Result<T, EnvError<'a>>, default: T) -> Result<
    T,
    EnvError<'a>,
> {
    match var_opt {
        Err(EnvError(_, EnvErrorKind::Env(VarFailure::NotPresent))) => Ok(default),
        other => other,
    }
}

/// Puts a default in the place of a variable that is not set. Every other
/// outcome stays: a variable that is set but unusable is still an error.
pub fn with_default<'a, T>(var_opt: Result<T, EnvError<'a>>, default: T) -> (outcome: Result<
    T,
    EnvError<'a>,
>)
    ensures
        outcome == defaulted(var_opt, default),
{
    match var_opt {
        Err(EnvError(_, EnvErrorKind::Env(VarFailure::NotPresent))) => Ok(default),
        res => res,
    }
}

} // verus!
