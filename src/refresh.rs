use vstd::prelude::*;

verus! {

/// The settings of the command that drops stale repositories from the cache.
#[derive(Debug, Clone, Copy, PartialEq, Eq, Structural)]
pub struct RefreshCommand {
    pub verbose: bool,
}

impl RefreshCommand {
    pub fn new(verbose: bool) -> (r: RefreshCommand)
        ensures
            r.verbose == verbose,
    {
        RefreshCommand { verbose }
    }

    /// Whether each dropped repository is reported.
    pub fn verbose(&self) -> (r: bool)
        ensures
            r == self.verbose,
    {
        self.verbose
    }
}

} // verus!
