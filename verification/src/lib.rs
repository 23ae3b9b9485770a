//! A small IPv4 and TCP stack over virtual links, with its rules stated as
//! contracts and proved.

pub mod addr;
pub mod args;
pub mod cli;
pub mod drop_policy;
pub mod header;
pub mod message;
pub mod net;
pub mod node;
pub mod protocol;
pub mod repl;
pub mod text;
pub mod time;
pub mod utils;
