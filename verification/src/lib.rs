//! aardbin: the verified core of a single-user personal bin.

pub mod access;
pub mod cli;
pub mod clock;
pub mod config;
pub mod crypto;
pub mod encoding;
pub mod files;
pub mod form;
pub mod guard;
pub mod i18n;
pub mod json;
pub mod plaintext;
pub mod ratelimit;
pub mod render;
pub mod saving;
pub mod session;
pub mod text;
pub mod views;
