use vstd::prelude::*;

verus! {

#[verifier::external_type_specification]
#[verifier::external_body]
pub struct ExIoError(std::io::Error);

/// The ways the runtime can fail.
pub enum Error {
    /// Reading from or writing to the terminal failed.
    IO(std::io::Error),
    /// A call into the operating system failed, for the reason given.
    FFI(&'static str),
}

/// Turn the return code of a C call into a result: 0 is success, anything
/// else fails for `reason`.
pub fn c_err(value: i32, reason: &'static str) -> (r: Result<(), Error>)
    ensures
        value == 0 ==> r == Ok::<(), Error>(()),
        value != 0 ==> r == Err::<(), Error>(Error::FFI(reason)),
{
    if value != 0 {
        return Err(Error::FFI(reason));
    }
    Ok(())
}

impl From<std::io::Error> for Error {
    fn from(value: std::io::Error) -> (r: Self) {
        Error::IO(value)
    }
}

impl vstd::std_specs::convert::FromSpecImpl<std::io::Error> for Error {
    open spec fn obeys_from_spec() -> bool {
        true
    }

    open spec fn from_spec(v: std::io::Error) -> Self {
        Error::IO(v)
    }
}

} // verus!
