//! The failures that sealing, embedding, extracting and opening can report.

use vstd::prelude::*;
use vstd::string::StringExecFns;

verus! {

/// Why an operation of this crate did not produce its result.
#[derive(Clone, Copy, Debug, PartialEq, Eq, Structural)]
pub enum StegoError {
    /// The key derivation function rejected its inputs or failed.
    KeyDerivation,
    /// The cipher could not seal the text, or no random bytes could be had.
    Encryption,
    /// The envelope did not authenticate, or its content is not a text.
    Decryption,
    /// The envelope is not hexadecimal text, or is shorter than its header.
    Format,
    /// The carrier's samples hold no end marker.
    NoEmbeddedData,
    /// The carrier has fewer usable bits than the framed payload needs.
    Capacity,
}

impl StegoError {
    /// The sentence that describes this failure to a user.
    pub open spec fn spec_message(self) -> Seq<char> {
        match self {
            StegoError::KeyDerivation => "Failed to derive key from password."@,
            StegoError::Encryption => "Encryption failed"@,
            StegoError::Decryption => "Decryption failed"@,
            StegoError::Format => "Invalid envelope format"@,
            StegoError::NoEmbeddedData => "No embedded data found"@,
            StegoError::Capacity => "Image too small for the data"@,
        }
    }

    /// Renders the failure as a sentence for display.
    pub fn message(&self) -> (text: String)
        ensures
            text@ == self.spec_message(),
    {
        match self {
            StegoError::KeyDerivation => String::from_str("Failed to derive key from password."),
            StegoError::Encryption => String::from_str("Encryption failed"),
            StegoError::Decryption => String::from_str("Decryption failed"),
            StegoError::Format => String::from_str("Invalid envelope format"),
            StegoError::NoEmbeddedData => String::from_str("No embedded data found"),
            StegoError::Capacity => String::from_str("Image too small for the data"),
        }
    }
}

} // verus!
