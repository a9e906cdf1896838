//! Script compiler and event scheduler for choreographing media pipelines.
//!
//! A script names templates for pipelines, makes instances of them, bridges
//! the instances, and registers actions to run at the start, at the end of a
//! stream, and when a pipeline has played past a threshold. `script` compiles
//! the text of a script into a `Pattern`; `scheduler` decides, tick by tick,
//! which actions are due and where the windows go.
//!
//! The library never touches the media engine or a window. It hands out what
//! is to be done as plain values: the pipelines to build, the requests that
//! the actions make, the moves of the windows. The one thing it does itself
//! is to pass text lines through the command channel.
//!
//! Times in a script are read exactly: `2.5` seconds, or `25e-1`, are
//! 2 500 000 000 nanoseconds, with no rounding on the way.

pub mod channel;
pub mod error;
pub mod number;
pub mod scheduler;
pub mod script;
pub mod table;
pub mod text;
