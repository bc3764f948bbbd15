//! What a local daemon answers about chats, contacts, favourites and posts that a messenger keeps in
//! its databases: how rows become lists, how names are found, which statements are put to the
//! databases, and what a command line shows of it all.

pub mod config;
pub mod contacts;
pub mod content;
pub mod daemon_cmd;
pub mod favorites;
pub mod init;
pub mod ipc;
pub mod json;
pub mod laws;
pub mod members;
pub mod messages;
pub mod names;
pub mod new_messages;
pub mod notices;
pub mod number;
pub mod order;
pub mod outside;
pub mod paths;
pub mod patterns;
pub mod posts;
pub mod render;
pub mod requests;
pub mod search;
pub mod sessions;
pub mod sql;
pub mod stats;
pub mod strmap;
pub mod tally;
pub mod text;
pub mod time;
pub mod watch;
