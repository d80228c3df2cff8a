//! Control-port client logic for an onion-routing daemon: reply framing,
//! authentication decisions, circuit-status parsing and identity rotation.
pub mod auth;
pub mod authenticator;
pub mod circuit;
pub mod display;
pub mod hexcode;
pub mod reply;
pub mod rotation;
pub mod text;
