//! Submission of a list of URLs to a web-archiving save endpoint, one request
//! at a time, with a fixed cooldown after every rate-limited answer.
//!
//! The crate holds the decisions only: which request goes out next, how an
//! answer is classified, what is logged, when to wait and when the run ends.
//! The caller performs the requests and the waits and reports back.
//!
//! * [`input`] reads the URLs from a text, [`options`] holds what the command
//!   line says, and [`setup`] checks both before a run starts.
//! * [`client`] describes the request for one URL, [`status`] and
//!   [`outcome`] what came back.
//! * [`queue`] is the executable state of a run. It follows, step by step,
//!   the state machine of [`machine`].
//! * [`safety`] proves what holds of every state that a run can reach,
//!   [`run`] and [`laws`] what holds of whole runs, over the records that
//!   [`history`] counts.

pub mod client;
pub mod history;
pub mod input;
pub mod laws;
pub mod level;
pub mod machine;
pub mod options;
pub mod outcome;
pub mod queue;
pub mod run;
pub mod safety;
pub mod setup;
pub mod status;
pub mod text;
