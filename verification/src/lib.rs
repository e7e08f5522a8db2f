//! Lama Blanket: the logic behind a desktop front end for `llama-server`.
//!
//! The crate reads GGUF model headers, derives launch settings and
//! resource estimates from model metadata and detected hardware, builds the
//! server's command line, keeps presets, and makes the decisions of the
//! desktop front end. Everything here is verified with Verus.
pub mod text;
pub mod gguf;
pub mod hwdetect;
pub mod config;
pub mod order;
pub mod persistence;
pub mod tray;
pub mod server;
pub mod workflow;
