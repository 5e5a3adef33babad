//! Verified core of the Lupa desktop search.
pub mod actions;
pub mod apps;
pub mod archive;
pub mod attachments;
pub mod buffer;
pub mod client;
pub mod config;
pub mod daemon;
pub mod decimal;
pub mod decode;
pub mod exclude;
pub mod extract;
pub mod frame;
pub mod fs;
pub mod gloda;
pub mod history;
pub mod index;
pub mod indexer;
pub mod keymap;
pub mod maildir;
pub mod manifest;
pub mod messages;
pub mod mime;
pub mod model;
pub mod paths;
pub mod poll;
pub mod preview;
pub mod process;
pub mod query_log;
pub mod ranking;
pub mod registry;
pub mod rows;
pub mod rtf;
pub mod session;
pub mod shell;
pub mod socket;
pub mod source;
pub mod split;
pub mod string_map;
pub mod text;
pub mod transfer;
pub mod uri;
pub mod watch;
pub mod window;
pub mod wire;
