//! The ways in which an operation on alias environments fails.

use vstd::prelude::*;

verus! {

/// Why an operation was refused. Every error ends the invocation: nothing is
/// applied in part.
#[derive(Clone, Copy, Debug, PartialEq, Eq, Structural)]
pub enum Error {
    /// The environment name has a character outside letters, digits, `.`, `_`
    /// and `-`, is empty, or is the reserved sentinel.
    InvalidName,
    /// An environment of that name is already there.
    AlreadyExists,
    /// No environment, or no alias, of that name is there.
    NotFound,
    /// The environment to load is the active one.
    AlreadyLoaded,
    /// An alias was to be added or removed while no environment is active.
    NoActiveEnvironment,
    /// A line of an alias file is no alias record.
    CorruptFile,
    /// The alias file or the storage directory could not be read or written.
    FileError,
}

/// Replaces whatever error `r` carries by `err`, and keeps a success as it is.
pub fn err_check<T, K>(r: Result<T, K>, err: Error) -> (out: Result<T, Error>)
    ensures
        out == match r {
            Ok(v) => Ok::<T, Error>(v),
            Err(_) => Err::<T, Error>(err),
        },
{
    match r {
        Ok(val) => Ok(val),
        Err(_) => Err(err),
    }
}

} // verus!
