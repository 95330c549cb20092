//! A programming-contest judge: the data model of contests and reports, the
//! classification of sandboxed runs, and the state machine that takes one
//! submission from queueing to its final report.

pub mod config;
pub mod contest;
pub mod loader;
pub mod sandbox;
pub mod submit;
pub mod text;
