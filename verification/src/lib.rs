//! Detection and layout reconstruction for iBoot-family firmware images
//! (SecureROM, AVPBooter, iBoot, iBEC, iBSS).
//!
//! The crate decides whether a raw byte blob is such an image, extracts and
//! parses its embedded version text, chooses the correct header offset for the
//! little-endian 64-bit base address, and derives the single memory region,
//! entry point and `_start` symbol that describe how the image is mapped at
//! runtime. A host analysis framework supplies the bytes and consumes the
//! resulting [`layout::ImageLayout`]; this crate performs no I/O itself.

pub mod detect;
pub mod error;
pub mod layout;
pub mod version;
