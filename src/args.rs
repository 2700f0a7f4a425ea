use vstd::prelude::*;

verus! {

/// The terms given on the command line.
pub struct Args {
    pub terms: Vec<String>,
}

impl Args {
    /// With no terms the tool prompts for them; otherwise it answers at once.
    pub fn is_interactive(&self) -> (r: bool)
        ensures
            r == (self.terms@.len() == 0),
    {
        self.terms.len() == 0
    }
}

} // verus!
