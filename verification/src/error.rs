//! The unified graph error.

use vstd::prelude::*;

verus! {

/// The single error kind of the engine.  It carries the offending node's
/// name, its role, and a human-readable message; every structural failure
/// (unknown factory kind, failed connection, release of a port that is not
/// exposed) is reported through it.
#[derive(Debug)]
pub struct DkcError {
    pub src_name: String,
    pub src_type: String,
    pub error_msg: String,
}

impl DkcError {
    /// Builds an error from the offending node's name, its role and a
    /// message.
    pub fn new(src_name: &str, src_type: &str, error_msg: &str) -> (r: DkcError)
        ensures
            r.src_name@ == src_name@,
            r.src_type@ == src_type@,
            r.error_msg@ == error_msg@,
    {
        DkcError {
            src_name: String::from_str(src_name),
            src_type: String::from_str(src_type),
            error_msg: String::from_str(error_msg),
        }
    }

    /// Renders the error as one line of text.
    pub fn message(&self) -> (r: String)
        ensures
            r@ == "DankCaster error from "@ + self.src_name@ + " ("@ + self.src_type@ + "): "@
                + self.error_msg@,
    {
        let mut s = String::from_str("DankCaster error from ");
        s.append(self.src_name.as_str());
        s.append(" (");
        s.append(self.src_type.as_str());
        s.append("): ");
        s.append(self.error_msg.as_str());
        s
    }
}

} // verus!
