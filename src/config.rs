//! Parameters of a benchmark run.
use vstd::prelude::*;

verus! {

/// Rounds run where no command line is available.
pub const DEFAULT_ROUNDS: u32 = 10000;

/// Bytes written and read back in each round.
pub const DEFAULT_BYTES: u64 = 4096;

/// What a run measures and how much it reports.
#[derive(Clone, Copy, Debug, PartialEq, Eq)]
pub struct Config {
    /// Number of measured rounds.
    pub rounds: u32,
    /// Size of the payload written and read back in each round.
    pub bytes: u64,
    /// Whether each round is reported.
    pub verbose: bool,
}

impl Config {
    /// The configuration of a run without a command line.
    pub fn parse() -> (r: Config)
        ensures
            r.rounds == DEFAULT_ROUNDS,
            r.bytes == DEFAULT_BYTES,
            !r.verbose,
    {
        Config { rounds: DEFAULT_ROUNDS, bytes: DEFAULT_BYTES, verbose: false }
    }

    pub fn rounds_and_bytes(&self) -> (r: (u32, u64))
        ensures
            r == (self.rounds, self.bytes),
    {
        (self.rounds, self.bytes)
    }

    pub fn verbose(&self) -> (r: bool)
        ensures
            r == self.verbose,
    {
        self.verbose
    }
}

} // verus!
