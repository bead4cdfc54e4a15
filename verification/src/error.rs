//! The library's error type.

use vstd::prelude::*;
use vstd::string::StringExecFns;

verus! {

/// `std::io::Error` declared for Verus: values of it are carried through
/// opaquely (shader sources are read from files by the surrounding
/// program).
#[verifier::external_type_specification]
#[verifier::external_body]
pub struct ExIoError(std::io::Error);

/// What can go wrong around the pipeline: shader compilation, I/O when
/// loading sources, or a lost device.
#[derive(Debug)]
pub enum Error {
    Shader { cause: String },
    Io(std::io::Error),
    DeviceLost,
}

impl From<std::io::Error> for Error {
    fn from(err: std::io::Error) -> (r: Self) {
        Error::Io(err)
    }
}

impl vstd::std_specs::convert::FromSpecImpl<std::io::Error> for Error {
    open spec fn obeys_from_spec() -> bool {
        true
    }

    open spec fn from_spec(err: std::io::Error) -> Self {
        Error::Io(err)
    }
}

/// Relies on std::io::Error's Display implementation (through format!)
/// for the text of an I/O error.
#[verifier::external_body]
fn io_error_text(err: &std::io::Error) -> (r: String) {
    format!("{}", err)
}

impl Error {
    /// A human-readable description of the error, each variant under its
    /// own prefix.
    pub fn message(&self) -> (r: String)
        ensures
            self matches Error::Shader { cause } ==> r@ == "Shader: "@ + cause@,
            self is Io ==> r@.len() >= "I/O: "@.len() && r@.subrange(0, "I/O: "@.len() as int)
                == "I/O: "@,
            self is DeviceLost ==> r@ == "Device Lost"@,
    {
        match self {
            Error::Shader { cause } => "Shader: ".to_owned().concat(cause.as_str()),
            Error::Io(err) => {
                let text = io_error_text(err);
                let r = "I/O: ".to_owned().concat(text.as_str());
                proof {
                    assert(r@.subrange(0, "I/O: "@.len() as int) =~= "I/O: "@);
                }
                r
            },
            Error::DeviceLost => "Device Lost".to_owned(),
        }
    }
}

} // verus!
