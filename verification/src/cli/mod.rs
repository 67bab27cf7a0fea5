//! The command line: which commands there are, how their arguments are read, and what
//! each command decides and says.

pub mod accounts;
pub mod archives;
pub mod batch;
pub mod command;
pub mod compare;
pub mod flow;
pub mod help;
pub mod hooks;
pub mod invocation;
pub mod json;
pub mod maintenance;
pub mod options;
pub mod plain;
pub mod quoting;
pub mod reports;
pub mod sampling;
pub mod window;
