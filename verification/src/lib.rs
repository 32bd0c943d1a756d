//! Verified core of the Textractor media bridge.
pub mod arith;
pub mod wav;
pub mod text;
pub mod activity;
pub mod types;
pub mod config;
pub mod keyed;
pub mod audio;
pub mod history;
pub mod framing;
pub mod pipe_name;
pub mod sentence;
pub mod trim;
pub mod cleanup;
pub mod mining;
pub mod lines;
pub mod assets;
pub mod screenshot;
pub mod window;
pub mod split;
pub mod http;
pub mod net;
pub mod state;
pub mod tray;
pub mod bootstrap;
