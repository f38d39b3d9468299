//! Core of a networked LED controller: sessions with liveness supervision,
//! a lazily acquired hardware channel with failure recovery, the RGB to RGBW
//! color conversion, and the request/response wire protocol.

pub mod channel;
pub mod codec;
pub mod color;
pub mod session;
