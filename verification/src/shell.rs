//! The shell: its errors and the arguments of its commands.

pub mod command;
pub mod error;
pub mod handler;
