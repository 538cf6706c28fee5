//! Address framing and per-player session multiplexing for a UDP game tunnel.
//!
//! A public-facing relay leg and a game-facing relay leg exchange datagrams
//! over one tunnel link. Every datagram on that link carries the player's
//! IPv4 endpoint in a six-byte header, so the game-facing leg can keep one
//! forwarding session per player and route replies back to the right one.

pub mod address;
pub mod diag;
pub mod error;
pub mod frame;
pub mod index;
pub mod relay;
pub mod session;
