//! Cipher step of the pipeline: AES-256 in ECB mode under a fixed embedded
//! key, with PKCS#7 padding done (and verified) in this crate. Only the raw
//! block encryption and decryption are delegated to the cipher crates.

use vstd::prelude::*;

use aes::cipher::BlockDecryptMut;
use aes::cipher::BlockEncryptMut;
use aes::cipher::KeyInit;
use aes::cipher::block_padding::NoPadding;

use crate::error::CodecError;
use crate::padding::lemma_pad_unpad;
use crate::padding::pad_bytes;
use crate::padding::pkcs7_pad;
use crate::padding::pkcs7_unpad;
use crate::padding::unpad_ok;
use crate::padding::unpadded;

verus! {

/// What AES-256-ECB under the fixed key returns for block-aligned `data`.
pub uninterp spec fn spec_aes_encrypt(data: Seq<u8>) -> Seq<u8>;

/// What AES-256-ECB decryption under the fixed key returns for block-aligned
/// `data`.
pub uninterp spec fn spec_aes_decrypt(data: Seq<u8>) -> Seq<u8>;

/// Relies on `ecb::Encryptor<aes::Aes256>`: ECB encryption of block-aligned
/// data is deterministic, keeps the length, and the matching decryptor under
/// the same key inverts it.
#[verifier::external_body]
fn aes_encrypt_blocks(data: &Vec<u8>) -> (r: Vec<u8>)
    requires
        data@.len() % 16 == 0,
        data@.len() > 0,
    ensures
        r@ == spec_aes_encrypt(data@),
        r@.len() == data@.len(),
        spec_aes_decrypt(r@) == data@,
{
    let mut buf = data.clone();
    let n = buf.len();
    let out = ecb::Encryptor::<aes::Aes256>::new(b"UKu52ePUBwetZ9wNX88o54dnfKRu0T1l".into())
        .encrypt_padded_mut::<NoPadding>(&mut buf, n)
        .unwrap();
    out.to_vec()
}

/// Relies on `ecb::Decryptor<aes::Aes256>`: ECB decryption of block-aligned
/// data is deterministic and keeps the length.
#[verifier::external_body]
fn aes_decrypt_blocks(data: &Vec<u8>) -> (r: Vec<u8>)
    requires
        data@.len() % 16 == 0,
        data@.len() > 0,
    ensures
        r@ == spec_aes_decrypt(data@),
        r@.len() == data@.len(),
{
    let mut buf = data.clone();
    let out = ecb::Decryptor::<aes::Aes256>::new(b"UKu52ePUBwetZ9wNX88o54dnfKRu0T1l".into())
        .decrypt_padded_mut::<NoPadding>(&mut buf)
        .unwrap();
    out.to_vec()
}

/// What `encrypt` returns: the padded plaintext, block-encrypted.
pub open spec fn encrypt_spec(pt: Seq<u8>) -> Seq<u8> {
    spec_aes_encrypt(pad_bytes(pt))
}

/// What `decrypt` returns: `None` when the ciphertext is empty or not
/// block-aligned, or when the decrypted padding is malformed.
pub open spec fn decrypt_spec(ct: Seq<u8>) -> Option<Seq<u8>> {
    if ct.len() == 0 || ct.len() % 16 != 0 {
        None
    } else if !unpad_ok(spec_aes_decrypt(ct)) {
        None
    } else {
        Some(unpadded(spec_aes_decrypt(ct)))
    }
}

/// Pads `pt` with PKCS#7 and encrypts it. The result always decrypts back to
/// `pt`: even a block-aligned plaintext gains (and loses) a full padding
/// block.
pub fn encrypt(pt: Vec<u8>) -> (r: Vec<u8>)
    ensures
        r@ == encrypt_spec(pt@),
        decrypt_spec(r@) == Some(pt@),
        r@.len() % 16 == 0,
        r@.len() == pt@.len() + crate::padding::pad_len(pt@.len() as int),
{
    proof {
        lemma_pad_unpad(pt@);
    }
    let padded = pkcs7_pad(pt);
    aes_encrypt_blocks(&padded)
}

/// Decrypts `ct` and strips the PKCS#7 padding; `CodecError::Cipher` when the
/// ciphertext is not block-aligned or the padding is inconsistent.
pub fn decrypt(ct: Vec<u8>) -> (r: Result<Vec<u8>, CodecError>)
    ensures
        r matches Ok(v) ==> decrypt_spec(ct@) == Some(v@),
        r is Err <==> decrypt_spec(ct@) is None,
        r matches Err(e) ==> e == CodecError::Cipher,
{
    if ct.len() == 0 || ct.len() % 16 != 0 {
        return Err(CodecError::Cipher);
    }
    let pt = aes_decrypt_blocks(&ct);
    match pkcs7_unpad(pt) {
        Option::Some(v) => Ok(v),
        Option::None => Err(CodecError::Cipher),
    }
}

} // verus!
