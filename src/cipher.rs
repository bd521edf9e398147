//! The per-sector cipher: IV derivation and in-place CBC transforms.
use vstd::prelude::*;

use aes::cipher::block_padding::NoPadding;
use aes::cipher::generic_array::GenericArray;
use aes::cipher::{BlockDecryptMut, BlockEncryptMut, KeyIvInit};

use crate::error::DiscError;

verus! {

/// Size in bytes of an AES block, and so of a key and of an IV.
pub const BLOCK_SIZE: usize = 16;

/// What AES-128-CBC decryption under `key` and `iv` makes of `data`.
pub uninterp spec fn aes128_cbc_decrypt_of(key: Seq<u8>, iv: Seq<u8>, data: Seq<u8>) -> Seq<u8>;

/// What AES-128-CBC encryption under `key` and `iv` makes of `data`.
pub uninterp spec fn aes128_cbc_encrypt_of(key: Seq<u8>, iv: Seq<u8>, data: Seq<u8>) -> Seq<u8>;

/// The IV of a sector: twelve zero bytes, then the sector index truncated to
/// 32 bits, big-endian.
pub open spec fn sector_iv(sector: u64) -> Seq<u8> {
    Seq::new(
        16,
        |i: int|
            if i < 12 {
                0u8
            } else {
                ((sector as int / pow256(15 - i)) % 256) as u8
            },
    )
}

/// 256 to the power `n`, for the byte positions of the IV.
pub open spec fn pow256(n: int) -> int {
    if n <= 0 {
        1
    } else if n == 1 {
        0x100
    } else if n == 2 {
        0x10000
    } else {
        0x1000000
    }
}

/// The bytes a sector holds after decryption under `key`.
pub open spec fn sector_decryption(key: Seq<u8>, sector: u64, data: Seq<u8>) -> Seq<u8> {
    aes128_cbc_decrypt_of(key, sector_iv(sector), data)
}

/// The bytes a sector holds after encryption under `key`.
pub open spec fn sector_encryption(key: Seq<u8>, sector: u64, data: Seq<u8>) -> Seq<u8> {
    aes128_cbc_encrypt_of(key, sector_iv(sector), data)
}

/// Builds the IV of a sector from its absolute index alone.
pub fn generate_iv(sector: u64) -> (iv: [u8; 16])
    ensures
        iv@ == sector_iv(sector),
        forall|i: int| 0 <= i < 12 ==> iv@[i] == 0,
{
    let mut iv: [u8; 16] = [0u8; 16];
    iv[12] = ((sector / 0x1000000) % 256) as u8;
    iv[13] = ((sector / 0x10000) % 256) as u8;
    iv[14] = ((sector / 0x100) % 256) as u8;
    iv[15] = (sector % 256) as u8;
    assert(iv@ =~= sector_iv(sector));
    iv
}

/// Relies on cbc::Decryptor<aes::Aes128Dec>, created with `key` and `iv`, and on
/// its `decrypt_padded_mut::<NoPadding>`: the buffer is decrypted in place, block
/// by block; it fails only on a length that is not a multiple of 16.
#[verifier::external_body]
fn cbc_decrypt_in_place(key: &[u8; 16], iv: &[u8; 16], data: &mut [u8])
    requires
        old(data)@.len() % 16 == 0,
    ensures
        final(data)@ == aes128_cbc_decrypt_of(key@, iv@, old(data)@),
{
    let dec = cbc::Decryptor::<aes::Aes128Dec>::new(
        GenericArray::from_slice(key),
        GenericArray::from_slice(iv),
    );
    let _ = dec.decrypt_padded_mut::<NoPadding>(data);
}

/// Relies on cbc::Encryptor<aes::Aes128Enc>, created with `key` and `iv`, and on
/// its `encrypt_padded_mut::<NoPadding>`: the buffer is encrypted in place, block
/// by block; it fails only on a length that is not a multiple of 16. CBC
/// decryption with the same key and IV gives back the plaintext.
#[verifier::external_body]
fn cbc_encrypt_in_place(key: &[u8; 16], iv: &[u8; 16], data: &mut [u8])
    requires
        old(data)@.len() % 16 == 0,
    ensures
        final(data)@ == aes128_cbc_encrypt_of(key@, iv@, old(data)@),
        aes128_cbc_decrypt_of(key@, iv@, final(data)@) == old(data)@,
{
    let len = data.len();
    let enc = cbc::Encryptor::<aes::Aes128Enc>::new(
        GenericArray::from_slice(key),
        GenericArray::from_slice(iv),
    );
    let _ = enc.encrypt_padded_mut::<NoPadding>(data, len);
}

/// Decrypts one sector in place, with a fresh CBC chain seeded by the sector's IV.
/// A buffer that is not a whole number of blocks is refused and left unchanged.
pub fn decrypt_sector(key: &[u8; 16], sector: u64, sector_data: &mut [u8]) -> (r: Result<
    (),
    DiscError,
>)
    ensures
        old(sector_data)@.len() % 16 == 0 ==> r is Ok && final(sector_data)@
            == sector_decryption(key@, sector, old(sector_data)@),
        old(sector_data)@.len() % 16 != 0 ==> r == Err::<(), DiscError>(
            DiscError::InvalidBlockAlignment,
        ) && final(sector_data)@ == old(sector_data)@,
{
    if sector_data.len() % BLOCK_SIZE != 0 {
        return Err(DiscError::InvalidBlockAlignment);
    }
    let iv = generate_iv(sector);
    cbc_decrypt_in_place(key, &iv, sector_data);
    Ok(())
}

/// Encrypts one sector in place, with a fresh CBC chain seeded by the sector's IV.
/// Decrypting the result as the same sector under the same key restores the
/// input. A buffer that is not a whole number of blocks is refused and left
/// unchanged.
pub fn encrypt_sector(key: &[u8; 16], sector: u64, sector_data: &mut [u8]) -> (r: Result<
    (),
    DiscError,
>)
    ensures
        old(sector_data)@.len() % 16 == 0 ==> r is Ok && final(sector_data)@
            == sector_encryption(key@, sector, old(sector_data)@) && sector_decryption(
            key@,
            sector,
            final(sector_data)@,
        ) == old(sector_data)@,
        old(sector_data)@.len() % 16 != 0 ==> r == Err::<(), DiscError>(
            DiscError::InvalidBlockAlignment,
        ) && final(sector_data)@ == old(sector_data)@,
{
    if sector_data.len() % BLOCK_SIZE != 0 {
        return Err(DiscError::InvalidBlockAlignment);
    }
    let iv = generate_iv(sector);
    cbc_encrypt_in_place(key, &iv, sector_data);
    Ok(())
}

} // verus!
