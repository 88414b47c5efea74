//! The commands of the shell.

pub mod cd;
pub mod find;
pub mod get;
pub mod ls;
pub mod pwd;
pub mod stat;
