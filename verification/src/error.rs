use vstd::prelude::*;

verus! {

/// A conversion failure, with a message saying what could not be converted.
#[derive(Debug, Clone, PartialEq, Eq)]
pub struct BridgeError {
    pub message: String,
}

impl BridgeError {
    pub fn new(msg: &str) -> (e: BridgeError)
        ensures
            e.message@ == msg@,
    {
        BridgeError { message: msg.to_owned() }
    }

    /// A `BridgeError` made from a message that is already a `String`.
    pub(crate) fn from_message(message: String) -> (e: BridgeError)
        ensures
            e.message@ == message@,
    {
        BridgeError { message }
    }

    /// The displayed text of the error: "BridgeError: " followed by the message.
    pub fn to_string(&self) -> (s: String)
        ensures
            s@ == "BridgeError: "@ + self.message@,
    {
        let mut s = "BridgeError: ".to_owned();
        s.append(self.message.as_str());
        s
    }
}

} // verus!
