//! The logic of a code assistant's native helpers, verified.
//!
//! The helpers read what command-line tools print (the load of the machine,
//! the list of installed models), summarise script source line by line, and
//! steer the run of a script in a scratch directory under a time limit.
//!
//! The library starts no process and touches no file. It names the commands
//! to run, takes what they left behind as plain values, and turns it into
//! typed results; where work has to alternate with decisions, it says what to
//! do next. Every function states what it returns over a model of text as
//! sequences of characters: `layout` defines lines, columns and fields,
//! `number` the notations of numbers, and the other modules build on them.

pub mod analysis;
pub mod chars;
pub mod command;
pub mod error;
pub mod execution;
pub mod indexing;
pub mod layout;
pub mod metrics;
pub mod models;
pub mod number;
pub mod retrieval;
pub mod scan;
