//! What a pool reads of the connection options.

use vstd::prelude::*;

use crate::host::Host;

verus! {

/// A length of time.
#[derive(Clone, Copy, Debug, PartialEq, Eq, Structural)]
pub struct Delay {
    /// Whole seconds.
    pub secs: u64,
    /// Nanoseconds beyond them.
    pub nanos: u32,
}

/// The options of a pool.
#[derive(Debug)]
pub struct Options {
    /// The server to connect to.
    pub addr: Host,
    /// Further servers, which take their turn after it.
    pub alt_hosts: Vec<Host>,
    /// How many idle connections the pool keeps.
    pub pool_min: usize,
    /// How many connections the pool has at most.
    pub pool_max: usize,
    /// How many times a refused connection is tried again.
    pub send_retries: usize,
    /// How long to wait before each such time.
    pub retry_timeout: Delay,
}

/// The options could not be read.
#[derive(Debug, PartialEq, Eq, Structural)]
pub struct InvalidOptions;

/// Where the options of a pool come from.
#[derive(Debug)]
pub enum OptionsSource {
    /// Options that were read.
    Loaded(Options),
    /// Options that could not be read.
    Invalid,
}

impl OptionsSource {
    /// The options, where they could be read.
    pub fn get(&self) -> (options: Result<&Options, InvalidOptions>)
        ensures
            match options {
                Ok(options) => *self == OptionsSource::Loaded(*options),
                Err(_) => *self == OptionsSource::Invalid,
            },
    {
        match self {
            OptionsSource::Loaded(options) => Ok(options),
            OptionsSource::Invalid => Err(InvalidOptions),
        }
    }
}

/// A value that options can be read from.
pub trait IntoOptions: Sized {
    /// The source that the value stands for.
    spec fn options_src(self) -> OptionsSource;

    /// Turns the value into a source of options.
    fn into_options_src(self) -> (source: OptionsSource)
        ensures
            source == self.options_src(),
    ;
}

impl IntoOptions for Options {
    open spec fn options_src(self) -> OptionsSource {
        OptionsSource::Loaded(self)
    }

    fn into_options_src(self) -> (source: OptionsSource) {
        OptionsSource::Loaded(self)
    }
}

impl IntoOptions for OptionsSource {
    open spec fn options_src(self) -> OptionsSource {
        self
    }

    fn into_options_src(self) -> (source: OptionsSource) {
        self
    }
}

} // verus!
