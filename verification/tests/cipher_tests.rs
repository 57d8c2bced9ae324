use hollow_knight_save_converter::CodecError;
use hollow_knight_save_converter::decrypt;
use hollow_knight_save_converter::encrypt;

#[test]
fn encrypt_block_aligned_input_gains_a_full_padding_block() {
    let pt = b"0123456789abcdef".to_vec();
    assert_eq!(pt.len() % 16, 0);
    let ct = encrypt(pt.clone());
    assert_eq!(ct.len(), pt.len() + 16);
    assert_eq!(decrypt(ct), Ok(pt));
}

#[test]
fn encrypt_empty_input_yields_one_block() {
    let ct = encrypt(Vec::new());
    assert_eq!(ct.len(), 16);
    assert_eq!(decrypt(ct), Ok(Vec::new()));
}

#[test]
fn encrypt_unaligned_input_round_trips() {
    let pt = b"save me".to_vec();
    let ct = encrypt(pt.clone());
    assert_eq!(ct.len(), 16);
    assert_eq!(decrypt(ct), Ok(pt));
}

#[test]
fn encrypt_output_differs_from_padded_plaintext() {
    let pt = b"AAAAAAAAAAAAAAAA".to_vec();
    let mut padded = pt.clone();
    padded.extend_from_slice(&[16u8; 16]);
    let ct = encrypt(pt);
    assert_ne!(ct, padded);
}

#[test]
fn decrypt_rejects_unaligned_ciphertext() {
    assert_eq!(decrypt(vec![0u8; 15]), Err(CodecError::Cipher));
    assert_eq!(decrypt(vec![0u8; 33]), Err(CodecError::Cipher));
}

#[test]
fn decrypt_rejects_empty_ciphertext() {
    assert_eq!(decrypt(Vec::new()), Err(CodecError::Cipher));
}

#[test]
fn decrypt_rejects_inconsistent_padding() {
    let ct = encrypt(b"AAAAAAAAAAAAAAAA".to_vec());
    let first_block = ct[..16].to_vec();
    assert_eq!(decrypt(first_block), Err(CodecError::Cipher));
}
