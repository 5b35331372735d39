//! A minimal terminal-session model: a transcript of displayed lines, a
//! history of submitted commands with arrow-key recall, and a fixed
//! command dispatcher.

pub mod session;
