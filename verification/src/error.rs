use vstd::prelude::*;

verus! {

/// The crate's own error type: a plain message, built where a fatal
/// condition is detected and carried up to the caller.
#[derive(Debug, Clone)]
pub struct PlatoCalibreError {
    msg: String,
}

impl PlatoCalibreError {
    /// The message this error carries.
    pub closed spec fn spec_message(&self) -> Seq<char> {
        self.msg@
    }

    pub fn new(message: &str) -> (e: PlatoCalibreError)
        ensures
            e.spec_message() == message@,
    {
        PlatoCalibreError { msg: message.to_owned() }
    }

    pub fn message(&self) -> (m: &str)
        ensures
            m@ == self.spec_message(),
    {
        self.msg.as_str()
    }
}

} // verus!
