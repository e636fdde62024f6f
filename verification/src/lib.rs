//! A typed view of the operating system's error codes.
//!
//! An [`Errno`] wraps the raw integer that the platform's thread-local error
//! indicator holds.  The crate turns what the platform's message facility
//! reported for such a code into a description, and renders a code together
//! with that description as text.
pub mod decimal;
pub mod encoding;
pub mod os_error;
pub mod render;
pub mod text;
pub mod unix;
pub mod windows;

use std::cmp::Ordering;
use vstd::prelude::*;
use vstd::std_specs::cmp::PartialOrdSpecImpl;
use vstd::std_specs::convert::FromSpecImpl;

verus! {

/// Wraps a platform-specific error code.
///
/// Two codes are equal, and ordered, as their raw integers are.
#[derive(Copy, Clone, Eq, Ord, PartialEq, Hash, Structural)]
pub struct Errno(pub i32);

impl PartialOrd for Errno {
    fn partial_cmp(&self, other: &Errno) -> (order: Option<Ordering>) {
        if self.0 < other.0 {
            Some(Ordering::Less)
        } else if self.0 == other.0 {
            Some(Ordering::Equal)
        } else {
            Some(Ordering::Greater)
        }
    }
}

impl PartialOrdSpecImpl for Errno {
    open spec fn obeys_partial_cmp_spec() -> bool {
        true
    }

    open spec fn partial_cmp_spec(&self, other: &Errno) -> Option<Ordering> {
        if self.0 < other.0 {
            Some(Ordering::Less)
        } else if self.0 == other.0 {
            Some(Ordering::Equal)
        } else {
            Some(Ordering::Greater)
        }
    }
}

impl From<i32> for Errno {
    fn from(code: i32) -> (errno: Errno) {
        Errno(code)
    }
}

impl FromSpecImpl<i32> for Errno {
    open spec fn obeys_from_spec() -> bool {
        true
    }

    open spec fn from_spec(code: i32) -> Errno {
        Errno(code)
    }
}

impl From<Errno> for i32 {
    fn from(errno: Errno) -> (code: i32) {
        errno.0
    }
}

impl FromSpecImpl<Errno> for i32 {
    open spec fn obeys_from_spec() -> bool {
        true
    }

    open spec fn from_spec(errno: Errno) -> i32 {
        errno.0
    }
}

/// A code that is turned into a plain integer and back is the code it was.
pub proof fn lemma_code_round_trip(errno: Errno)
    ensures
        <Errno as vstd::std_specs::convert::FromSpec<i32>>::from_spec(
            <i32 as vstd::std_specs::convert::FromSpec<Errno>>::from_spec(errno),
        ) == errno,
{
}

/// A plain integer that is wrapped as a code and unwrapped is the integer it was.
pub proof fn lemma_integer_round_trip(code: i32)
    ensures
        <i32 as vstd::std_specs::convert::FromSpec<Errno>>::from_spec(
            <Errno as vstd::std_specs::convert::FromSpec<i32>>::from_spec(code),
        ) == code,
{
}

} // verus!
