use locket::error::c_err;
use locket::Error;

#[test]
fn c_err_zero_is_ok() {
    assert!(c_err(0, "never").is_ok());
}

#[test]
fn c_err_nonzero_is_ffi_error() {
    match c_err(-1, "unable to determine terminal size") {
        Err(Error::FFI(reason)) => assert_eq!(reason, "unable to determine terminal size"),
        _ => panic!("expected an FFI error"),
    }
}

#[test]
fn io_error_converts() {
    let io = std::io::Error::new(std::io::ErrorKind::Other, "boom");
    match Error::from(io) {
        Error::IO(e) => assert_eq!(e.to_string(), "boom"),
        Error::FFI(_) => panic!("expected an IO error"),
    }
}
