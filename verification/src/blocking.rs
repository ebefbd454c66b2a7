//! Blocking Bidirectional SPI API

pub mod read;
pub mod spi_bidi;
pub mod write;
