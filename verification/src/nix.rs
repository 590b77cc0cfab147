use vstd::prelude::*;

verus! {

/// The error type of the standard library's input and output.
#[verifier::external_type_specification]
#[verifier::external_body]
pub struct ExIoError(std::io::Error);

/// `std::io::Error::last_os_error`: the error that the operating system
/// reported last on this thread. What it holds depends on the calls made
/// before, so nothing is claimed of it.
#[verifier::external_body]
fn last_os_error() -> std::io::Error {
    std::io::Error::last_os_error()
}

/// Whether a value returned by a system call reports a failure.
pub open spec fn is_failure(num: int) -> bool {
    num < 0
}

/// Turns the value returned by a system call into a result: a negative
/// value is a failure, and the error is the one that the operating system
/// reported last; any other value is handed on as it is.
pub fn check_err(num: i64) -> (r: Result<i64, std::io::Error>)
    ensures
        r is Err <==> is_failure(num as int),
        r is Ok ==> r == Ok::<i64, std::io::Error>(num),
{
    if num < 0 {
        Err(last_os_error())
    } else {
        Ok(num)
    }
}

} // verus!
