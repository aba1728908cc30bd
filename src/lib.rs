//! Monthly transit pass or pay per trip: the cost model, the stored defaults
//! with their dotted-path configuration tree, and the console's command
//! grammar and session.
pub mod command;
pub mod config;
pub mod cost;
pub mod expr;
pub mod session;
pub mod tree;
