//! The decisions of a web gateway, verified.

pub mod body;
pub mod chat;
pub mod clock;
pub mod control;
pub mod extensions;
pub mod files;
pub mod ids;
pub mod jobs;
pub mod logs;
pub mod media;
pub mod memory;
pub mod path;
pub mod reply;
pub mod routes;
pub mod sort;
pub mod state;
pub mod text;
