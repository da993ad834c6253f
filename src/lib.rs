//! A command-driven hash-table microbenchmark: a chained hash table, the
//! textual command grammar, and the session state machine that turns writes
//! of a control file into timed benchmark runs, with the control file's
//! filesystem events decided on plain values.
pub mod adapter;
pub mod command;
pub mod response;
pub mod session;
pub mod table;
