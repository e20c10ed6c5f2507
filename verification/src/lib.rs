//! Runtime control plane of a durable task scheduler.
//!
//! The scheduler's store, the execution adapters and the wake-up bridge are services outside this
//! crate.  What the runtime decides about them is inside: which call is made next, with which
//! arguments, and what its reply means.  Every procedure is a typed step machine.  A step is a
//! value that names one outside call; `resume` takes the reply and gives the next step.

pub mod adapters;
pub mod control;
pub mod daemon;
pub mod deadlines;
pub mod dispatch;
pub mod domain;
pub mod heartbeat;
pub mod json;
pub mod launch;
pub mod notifier;
pub mod observation;
pub mod observer;
pub mod process_lock;
pub mod reconcile;
pub mod recovery;
pub mod replay;
pub mod runner;
pub mod supervision;
pub mod text;
pub mod time;
pub mod timing;
