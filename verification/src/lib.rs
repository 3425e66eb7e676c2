//! A line-oriented chat protocol: frame parsing and building, the server's
//! per-connection decisions and the clients' window state.
pub mod text;
pub mod frame;
pub mod client;
pub mod session;
pub mod gui;
pub mod laws;
pub mod text_laws;
