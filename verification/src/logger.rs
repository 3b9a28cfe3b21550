//! The switch that decides whether verbose lines are shown.

use vstd::prelude::*;

verus! {

/// Says how much the program reports: every line, or only the plain ones.
#[derive(Debug)]
pub struct Logger {
    verbose: bool,
}

impl Logger {
    /// Whether verbose lines are shown.
    pub closed spec fn is_verbose(&self) -> bool {
        self.verbose
    }

    /// A logger that shows only plain lines.
    pub fn new() -> (logger: Self)
        ensures
            !logger.is_verbose(),
    {
        Logger { verbose: false }
    }

    /// Whether verbose lines are shown.
    pub fn verbose(&self) -> (on: bool)
        ensures
            on == self.is_verbose(),
    {
        self.verbose
    }

    /// Turns verbose lines on or off.
    pub fn set_verbose(&mut self, verbose: bool)
        ensures
            final(self).is_verbose() == verbose,
    {
        self.verbose = verbose;
    }
}

impl Default for Logger {
    fn default() -> (logger: Self)
        ensures
            !logger.is_verbose(),
    {
        Logger::new()
    }
}

} // verus!
