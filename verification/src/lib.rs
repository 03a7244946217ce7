//! The logic of a terminal dashboard for the outputs of an audio daemon:
//! the commands that travel between its threads, the bus that merges
//! several producers into one stream, the life cycle of the worker that
//! talks to the daemon, and the state machine behind the screen.

pub mod app;
pub mod cmds;
pub mod pwrap;
