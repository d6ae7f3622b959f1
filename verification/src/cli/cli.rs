use vstd::prelude::*;

verus! {

/// What the command line asks for: to run the program, or to build an executable of it;
/// either way optimized or not.
#[derive(Debug, PartialEq, Eq, Structural, Clone, Copy)]
pub enum Cli {
    Run { release: bool },
    Build { release: bool },
}

impl Cli {
    /// Whether the code is to be optimized.
    pub fn release(&self) -> (r: bool)
        ensures
            r == match *self {
                Cli::Run { release } => release,
                Cli::Build { release } => release,
            },
    {
        match self {
            Cli::Run { release } => *release,
            Cli::Build { release } => *release,
        }
    }
}

} // verus!
