//! Verified core of `rnc`, a netcat clone.

pub mod cli;
pub mod filter;
pub mod hexdump;
pub mod instrument;
pub mod json;
pub mod matcher;
pub mod net;
pub mod roster;
pub mod socks5;
pub mod text;
