use vstd::prelude::*;

verus! {

/// The agent's error taxonomy. Failures that originate outside the
/// library cross into it as their message text.
#[derive(Debug)]
pub enum SpoolerError {
    /// HTTP/API communication errors.
    Api(String),
    /// Network/request errors.
    Network(String),
    /// JSON decode errors.
    Json(String),
    /// File I/O errors.
    Io(String),
    /// Print-related errors.
    Print(String),
    /// Configuration errors.
    Config(String),
}

impl SpoolerError {
    /// The message the error carries.
    pub fn message(&self) -> (r: &String)
        ensures
            r@ == self.spec_message(),
    {
        match self {
            SpoolerError::Api(m) => m,
            SpoolerError::Network(m) => m,
            SpoolerError::Json(m) => m,
            SpoolerError::Io(m) => m,
            SpoolerError::Print(m) => m,
            SpoolerError::Config(m) => m,
        }
    }

    pub open spec fn spec_message(&self) -> Seq<char> {
        match self {
            SpoolerError::Api(m) => m@,
            SpoolerError::Network(m) => m@,
            SpoolerError::Json(m) => m@,
            SpoolerError::Io(m) => m@,
            SpoolerError::Print(m) => m@,
            SpoolerError::Config(m) => m@,
        }
    }
}

} // verus!
