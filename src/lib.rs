//! Gives every `assert` call in Lua and Luau source a message that names the
//! condition it checks, keeping every other byte of the file as it was.

pub mod call;
pub mod cli;
pub mod message;
pub mod text;

