use vstd::prelude::*;

verus! {

/// An error that the `Authorization` header is missing or incorrect.
#[derive(Debug, Clone, Copy, PartialEq, Eq, Structural)]
pub struct BadAuth;

impl BadAuth {
    /// The message under which this error is shown.
    pub fn message(&self) -> (r: &'static str)
        ensures
            r@ == "BadAuth"@,
    {
        "BadAuth"
    }
}

/// A plain message that stands as an error.
#[derive(Debug)]
pub struct ErrorString(pub String);

impl ErrorString {
    /// The message under which this error is shown.
    pub fn message(&self) -> (r: String)
        ensures
            r@ == self.0@,
    {
        self.0.clone()
    }
}

} // verus!
