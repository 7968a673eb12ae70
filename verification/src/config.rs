//! The constants of a search, and the values they take by default.

use vstd::prelude::*;

verus! {

/// The default multiplier applied to a candidate before it is hashed.
pub const BASE: usize = 42;

/// The default number of workers.
pub const THREADS: usize = 8;

/// The default prefix that a digest must begin with.
pub const DIFFICULTY: &'static str = "00000";

/// What a search is run with. None of it changes while the search runs.
pub struct Config {
    /// The multiplier applied to a candidate before it is hashed.
    pub base: usize,
    /// The number of workers, which is also the stride of each worker.
    pub threads: usize,
    /// The text that the hexadecimal digest must begin with.
    pub difficulty: String,
}

impl Config {
    /// A search can run with this configuration: there is at least one worker.
    pub open spec fn runnable(&self) -> bool {
        self.threads > 0
    }

    /// The configuration with the given multiplier, worker count and prefix.
    pub fn new(base: usize, threads: usize, difficulty: &str) -> (config: Config)
        ensures
            config.base == base,
            config.threads == threads,
            config.difficulty@ == difficulty@,
    {
        Config { base, threads, difficulty: difficulty.to_owned() }
    }
}

impl Default for Config {
    /// Multiplier 42, eight workers, and five leading zeros.
    fn default() -> (config: Config)
        ensures
            config.base == BASE,
            config.threads == THREADS,
            config.difficulty@ == DIFFICULTY@,
            config.runnable(),
    {
        Config::new(BASE, THREADS, DIFFICULTY)
    }
}

} // verus!
