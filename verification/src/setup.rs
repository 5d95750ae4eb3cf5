//! From the input and the credentials to a queue that is ready to run.

use vstd::prelude::*;
use vstd::string::*;
use crate::client::{Client, ClientView, Settings};
use crate::machine::Machine;
use crate::options::Credentials;
use crate::queue::Queue;

verus! {

/// Why a run cannot start.
#[derive(Clone, Copy, Debug, PartialEq, Eq, Structural)]
pub enum ConfigError {
    /// The input lists no URL.
    NothingToDo,
    /// The access key or the secret key is missing.
    MissingCredentials,
}

impl ConfigError {
    /// The text of the error.
    pub open spec fn text(self) -> Seq<char> {
        match self {
            ConfigError::NothingToDo => "Nothing to do"@,
            ConfigError::MissingCredentials => "Must provide an access key and a secret key"@,
        }
    }

    /// The text of the error, for the operator.
    pub fn message(&self) -> (message: String)
        ensures
            message@ == self.text(),
    {
        match self {
            ConfigError::NothingToDo => String::from_str("Nothing to do"),
            ConfigError::MissingCredentials => String::from_str(
                "Must provide an access key and a secret key",
            ),
        }
    }
}

/// Checks that there is something to do and that both keys are known, and
/// sets up the queue of the run. Nothing is sent before this has succeeded.
///
/// An empty list of URLs is reported before a missing key.
pub fn prepare(settings: Settings, urls: Vec<String>, credentials: Credentials) -> (result: Result<
    Queue,
    ConfigError,
>)
    ensures
        match result {
            Ok(queue) => {
                &&& urls.len() > 0
                &&& credentials.access_key is Some
                &&& credentials.secret_key is Some
                &&& queue.wf()
                &&& queue@ == Machine::initial(
                    ClientView {
                        settings: settings@,
                        access_key: credentials.access_key->0@,
                        secret_key: credentials.secret_key->0@,
                    },
                    urls.deep_view(),
                )
            },
            Err(ConfigError::NothingToDo) => urls.len() == 0,
            Err(ConfigError::MissingCredentials) => {
                &&& urls.len() > 0
                &&& credentials.access_key is None || credentials.secret_key is None
            },
        },
{
    if urls.len() == 0 {
        return Err(ConfigError::NothingToDo);
    }
    match credentials.pair() {
        Some((access_key, secret_key)) => Ok(
            Queue::new(Client::new(settings, access_key, secret_key), urls),
        ),
        None => Err(ConfigError::MissingCredentials),
    }
}

} // verus!
