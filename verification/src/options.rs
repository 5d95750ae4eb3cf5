//! What the command line says: how much to log, which credentials to use
//! and where the URLs are.

use std::path::PathBuf;
use vstd::prelude::*;
use crate::level::LevelFilter;

verus! {

/// `std::path::PathBuf`: a path is carried through and never looked into.
#[verifier::external_type_specification]
#[verifier::external_body]
pub struct ExPathBuf(PathBuf);

/// The three switches that set how much is logged.
#[derive(Clone, Copy, Debug, PartialEq, Eq)]
pub struct Verbosity {
    /// Log everything.
    pub debug: bool,
    /// Log debugging output too.
    pub verbose: bool,
    /// Log warnings and errors only.
    pub quiet: bool,
}

impl Verbosity {
    /// The threshold that the switches ask for: `debug` goes before
    /// `verbose` and `verbose` before `quiet`; without any of them
    /// informational lines are logged.
    pub open spec fn filter(self) -> LevelFilter {
        if self.debug {
            LevelFilter::Trace
        } else if self.verbose {
            LevelFilter::Debug
        } else if self.quiet {
            LevelFilter::Warn
        } else {
            LevelFilter::Info
        }
    }

    /// The threshold that the switches ask for.
    pub fn to_filter(&self) -> (filter: LevelFilter)
        ensures
            filter == self.filter(),
    {
        if self.debug {
            LevelFilter::Trace
        } else if self.verbose {
            LevelFilter::Debug
        } else if self.quiet {
            LevelFilter::Warn
        } else {
            LevelFilter::Info
        }
    }
}

/// The access key and the secret key, as far as they are known.
#[derive(Debug, PartialEq, Eq)]
pub struct Credentials {
    pub access_key: Option<String>,
    pub secret_key: Option<String>,
}

impl Credentials {
    /// These credentials, with each key that is missing taken from
    /// `fallback`.
    pub fn or(self, fallback: Credentials) -> (merged: Credentials)
        ensures
            merged.access_key == if self.access_key is Some {
                self.access_key
            } else {
                fallback.access_key
            },
            merged.secret_key == if self.secret_key is Some {
                self.secret_key
            } else {
                fallback.secret_key
            },
    {
        let access_key = match self.access_key {
            Some(key) => Some(key),
            None => fallback.access_key,
        };
        let secret_key = match self.secret_key {
            Some(key) => Some(key),
            None => fallback.secret_key,
        };
        Credentials { access_key, secret_key }
    }

    /// Both keys, where both are known.
    pub fn pair(self) -> (keys: Option<(String, String)>)
        ensures
            keys is Some <==> self.access_key is Some && self.secret_key is Some,
            keys matches Some(pair) ==> self.access_key == Some(pair.0) && self.secret_key == Some(
                pair.1,
            ),
    {
        match (self.access_key, self.secret_key) {
            (Some(access_key), Some(secret_key)) => Some((access_key, secret_key)),
            _ => None,
        }
    }
}

/// Everything the command line can say.
#[derive(Debug, PartialEq, Eq)]
pub struct Arguments {
    pub verbosity: Verbosity,
    pub credentials: Credentials,
    /// A file with the URLs; without it they are read from standard input.
    pub input_file: Option<PathBuf>,
}

} // verus!
