use vstd::prelude::*;

verus! {

/// An error carrying a human-readable message.
#[derive(Debug, Clone)]
pub struct SMError {
    pub message: String,
}

impl SMError {
    pub fn new(msg: &str) -> (r: SMError)
        ensures
            r.message@ == msg@,
    {
        SMError { message: msg.to_owned() }
    }

    /// The message that this error carries.
    pub fn message(&self) -> (r: String)
        ensures
            r@ == self.message@,
    {
        self.message.clone()
    }
}

/// Builds an error from a message.
pub fn make_error(msg: &str) -> (r: SMError)
    ensures
        r.message@ == msg@,
{
    SMError::new(msg)
}

/// Builds a boxed error from a message.
pub fn box_error(msg: &str) -> (r: Box<SMError>)
    ensures
        r.message@ == msg@,
{
    Box::new(make_error(msg))
}

} // verus!
