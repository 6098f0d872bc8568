//! What can end a run other than its completion.

use crate::vm;
use vstd::prelude::*;
use vstd::std_specs::convert::FromSpecImpl;

verus! {

/// A fatal condition. None of them can be recovered from: a machine that
/// reported one is done.
#[derive(Debug)]
pub enum Error {
    /// Execution reached a loop bracket that has no partner and had to jump.
    Language(vm::Error),
    /// The byte source or the byte sink failed. Exhausted input is not a
    /// failure and is never reported as one.
    Io(std::io::Error),
    /// The run went on for more steps than its counter can hold.
    StepLimit,
}

impl FromSpecImpl<vm::Error> for Error {
    open spec fn obeys_from_spec() -> bool {
        true
    }

    open spec fn from_spec(e: vm::Error) -> Error {
        Error::Language(e)
    }
}

impl From<vm::Error> for Error {
    fn from(e: vm::Error) -> (r: Error)
        ensures
            r == Error::Language(e),
    {
        Error::Language(e)
    }
}

impl FromSpecImpl<std::io::Error> for Error {
    open spec fn obeys_from_spec() -> bool {
        true
    }

    open spec fn from_spec(e: std::io::Error) -> Error {
        Error::Io(e)
    }
}

impl From<std::io::Error> for Error {
    fn from(e: std::io::Error) -> (r: Error)
        ensures
            r == Error::Io(e),
    {
        Error::Io(e)
    }
}

} // verus!
