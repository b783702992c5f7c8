//! Shades hides a password-protected text in the least significant bits of an
//! image's colour samples and recovers it again.
//!
//! The crate is layered leaf first: [`bits`] packs bytes into bits and back,
//! [`marker`] frames a bit stream with a run of unset bits, [`carrier`] holds
//! the pixel samples, [`hextext`] says what hexadecimal text is,
//! [`cryptography`] and [`encryption`] seal and open the text, and
//! [`steganography`] composes them. [`trusted`] holds the calls into other
//! crates, [`gui`] the state of the graphical front end.

pub mod bits;
pub mod carrier;
pub mod cryptography;
pub mod encryption;
pub mod error;
pub mod gui;
pub mod hextext;
pub mod marker;
pub mod steganography;
pub mod trusted;
