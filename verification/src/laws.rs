//! What holds of the library: for each part, how its answers relate to what they are made of.

pub mod config;
pub mod contacts;
pub mod content;
pub mod daemon_cmd;
pub mod favorites;
pub mod init;
pub mod json;
pub mod members;
pub mod messages;
pub mod names;
pub mod new_messages;
pub mod notices;
pub mod number;
pub mod order;
pub mod paths;
pub mod posts;
pub mod render;
pub mod search;
pub mod sessions;
pub mod sql;
pub mod stats;
pub mod text;
pub mod time;
pub mod watch;
