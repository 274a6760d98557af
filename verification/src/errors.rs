use vstd::prelude::*;
use vstd::string::StringExecFns;

verus! {

/// Why an event could not be processed.  Decode failures abort the one
/// event's processing; they never abort the serving process.
#[derive(Debug, PartialEq)]
pub enum Error {
    /// The payload could not be decoded as the recognized event's shape:
    /// it was not well-formed JSON, or a required field was missing or had
    /// the wrong type.  Carries the underlying cause.
    Parse(String),
    /// A failure reported by the outbound delivery boundary; never produced
    /// by the core, only carried through it.
    Delivery(String),
}

impl Error {
    /// A parse failure whose cause names the payload field that was
    /// missing or mistyped.
    pub fn shape(field: &str) -> (e: Error)
        ensures
            e matches Error::Parse(m) && m@ == "missing or mistyped field: "@ + field@,
    {
        Error::Parse("missing or mistyped field: ".to_owned().concat(field))
    }
}

} // verus!
