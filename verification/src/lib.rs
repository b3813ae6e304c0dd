//! Interactive dashboard library for a batch workload scheduler.
//!
//! The crate holds the verified core of a terminal dashboard for Slurm
//! jobs: the parsers that normalize scheduler output into job records,
//! the job model with its derived views, and the interaction state
//! machine that drives navigation, search popups and cancel
//! confirmation.  Subprocess calls, terminal rendering and the async
//! event loop live outside the library and talk to it through plain
//! values.

pub mod app;
pub mod events;
pub mod job;
pub mod parser;
pub mod text;
