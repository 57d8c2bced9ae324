//! The failures the codec can report, one variant per pipeline stage, so a
//! caller can tell which layer of the container rejected the input.

use vstd::prelude::*;

verus! {

/// Why a container could not be decoded, or a JSON text not encoded.
#[derive(Clone, Copy, Debug, PartialEq, Eq, Structural)]
pub enum CodecError {
    /// The input is shorter than the fixed framing allows, or the
    /// length prefix ran past the available bytes.
    Framing,
    /// The payload is not valid base64 text.
    Decoding,
    /// The ciphertext is not block-aligned, or its padding is inconsistent.
    Cipher,
    /// The plaintext is not valid JSON.
    JsonSyntax,
    /// The plaintext is valid JSON but not a JSON object.
    JsonShape,
}

} // verus!
