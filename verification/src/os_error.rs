//! Handing a code on as the standard library's I/O error.
use crate::Errno;
use vstd::prelude::*;
use vstd::std_specs::convert::FromSpecImpl;

verus! {

/// `std::io::Error`, declared so that it can be named: nothing inside an
/// error of this type is seen here.
#[verifier::external_type_specification]
#[verifier::external_body]
pub struct ExIoError(std::io::Error);

/// The I/O error that the standard library makes of a raw code of the
/// operating system.
pub uninterp spec fn os_error(code: i32) -> std::io::Error;

/// `std::io::Error::from_raw_os_error`: trusted to make, of one code, always
/// the same error.
pub assume_specification[ std::io::Error::from_raw_os_error ](code: i32) -> (error: std::io::Error)
    ensures
        error == os_error(code),
;

impl From<Errno> for std::io::Error {
    fn from(errno: Errno) -> (error: std::io::Error) {
        std::io::Error::from_raw_os_error(errno.0)
    }
}

impl FromSpecImpl<Errno> for std::io::Error {
    open spec fn obeys_from_spec() -> bool {
        true
    }

    open spec fn from_spec(errno: Errno) -> std::io::Error {
        os_error(errno.0)
    }
}

} // verus!
