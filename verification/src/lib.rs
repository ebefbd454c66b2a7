//! Bidirectional (half-duplex) SPI: a non-blocking capability contract for
//! peripheral drivers, and blocking buffer/iterator adapters built on it.
//!
//! The bus shares one data line for both directions, so every read or send
//! segment starts with an explicit direction setup, and a send segment ends
//! with an explicit finish step. The adapters poll the non-blocking
//! primitives until each step completes and prove, against a ghost log of
//! the calls the peripheral observes, that the direction protocol is
//! followed: one setup per segment, words transferred in order, the last
//! read flagged, exactly one finish per send segment, and the first hard
//! error propagated at once.

pub mod blocking;
pub mod spi_bidi;
pub mod stub;
