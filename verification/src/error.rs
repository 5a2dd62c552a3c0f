use vstd::prelude::*;
use vstd::string::StringExecFns;

verus! {

/// An error produced by a deduplicated execution: it carries either the
/// message of the user operation's own failure, or the fixed message recorded
/// when the user operation panicked instead of returning.
#[derive(Eq, Clone, Debug)]
pub struct Error(pub String);

impl View for Error {
    type V = Seq<char>;

    open spec fn view(&self) -> Seq<char> {
        self.0@
    }
}

impl PartialEq for Error {
    fn eq(&self, other: &Error) -> bool {
        self.0 == other.0
    }
}

impl vstd::std_specs::cmp::PartialEqSpecImpl for Error {
    open spec fn obeys_eq_spec() -> bool {
        true
    }

    open spec fn eq_spec(&self, other: &Error) -> bool {
        self.0@ == other.0@
    }
}

impl Error {
    /// The fixed error recorded when a user operation panics instead of
    /// returning a result.
    pub fn panicked() -> (e: Error)
        ensures
            e@ == "function of user panic"@,
    {
        Error(String::from_str("function of user panic"))
    }

    /// The display form of the error: a fixed prefix followed by the carried
    /// message.
    pub fn to_display_string(&self) -> (s: String)
        ensures
            s@ == "panic from user function: "@ + self@,
    {
        let mut s = String::from_str("panic from user function: ");
        s.append(self.0.as_str());
        s
    }
}

} // verus!
