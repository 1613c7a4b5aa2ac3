//! AES-128-CBC with PKCS#7 padding for `lastData.dat`, and Argon2id key
//! derivation for `--password`.

use vstd::prelude::*;
use vstd::utf8::{decode_utf8, encode_utf8, valid_utf8};
use aes::Aes128;
use cbc::cipher::{BlockDecryptMut, BlockEncryptMut, KeyIvInit};
use cbc::{Decryptor, Encryptor};
use generic_array::GenericArray;
use crate::text::string_from_utf8;

verus! {

broadcast use vstd::string::group_string_axioms;

/// The fixed AES-CBC initialisation vector of the `lastData.dat` format.
pub const IV: [u8; 16] = [49, 50, 70, 71, 66, 51, 54, 45, 76, 69, 51, 45, 113, 61, 57, 0];

/// The default AES key (`LEO-ALEC\tEO-ALEC`), shared with other tools that
/// read `lastData.dat`.
pub const DEFAULT_KEY: [u8; 16] = [76, 69, 79, 45, 65, 76, 69, 67, 9, 69, 79, 45, 65, 76, 69, 67];

/// Argon2 memory cost in KiB (64 MiB).
pub const ARGON2_M_COST: u32 = 65536;

/// Argon2 iterations.
pub const ARGON2_T_COST: u32 = 3;

/// Argon2 parallelism.
pub const ARGON2_P_COST: u32 = 4;

/// The fixed salt of the password key.
pub const SALT_TEXT: &'static str = "WarframeAPIHelper";

/// The salt: the 17 bytes of `WarframeAPIHelper`.
pub open spec fn key_salt() -> Seq<u8> {
    seq![87u8, 97, 114, 102, 114, 97, 109, 101, 65, 80, 73, 72, 101, 108, 112, 101, 114]
}

/// AES-128-CBC encryption with PKCS#7 padding of `plaintext` under `key` and
/// `iv`.
pub uninterp spec fn aes128_cbc_pkcs7_encrypt(key: Seq<u8>, iv: Seq<u8>, plaintext: Seq<u8>) -> Seq<
    u8,
>;

/// AES-128-CBC decryption followed by PKCS#7 unpadding; `None` when the
/// length is not a multiple of the block size or the padding is malformed.
pub uninterp spec fn aes128_cbc_pkcs7_decrypt(key: Seq<u8>, iv: Seq<u8>, ciphertext: Seq<u8>) -> Option<
    Seq<u8>,
>;

/// The 16-byte Argon2id (version 0x13) hash of `password` with `salt` and the
/// given memory, time and parallelism costs.
pub uninterp spec fn argon2id_digest(
    password: Seq<u8>,
    salt: Seq<u8>,
    m_cost: u32,
    t_cost: u32,
    p_cost: u32,
) -> Seq<u8>;

/// Length of the PKCS#7-padded form of `n` bytes with 16-byte blocks.
pub open spec fn padded_len(n: int) -> int {
    (n / 16 + 1) * 16
}

/// The view of an optional byte vector.
pub open spec fn opt_bytes(o: Option<Vec<u8>>) -> Option<Seq<u8>> {
    match o {
        Some(v) => Some(v@),
        None => None,
    }
}

/// `cbc::Encryptor::<Aes128>::new` then `encrypt_padded_mut::<Pkcs7>` on
/// `buffer`, whose first `msg_len` bytes are the message.
///
/// Claimed (from `cipher`'s `encrypt_padded_mut` and `inout`'s
/// `into_padded_blocks`): it succeeds exactly when the buffer has room for
/// the padded message, and then returns the named ciphertext of the message,
/// which has the padded length.
#[verifier::external_body]
fn aes128_cbc_encrypt_padded(key: &[u8; 16], iv: &[u8; 16], buffer: Vec<u8>, msg_len: usize) -> (r:
    Option<Vec<u8>>)
    ensures
        r is Some <==> padded_len(msg_len as int) <= buffer@.len(),
        r matches Some(c) ==> c@ == aes128_cbc_pkcs7_encrypt(
            key@,
            iv@,
            buffer@.subrange(0, msg_len as int),
        ) && c@.len() == padded_len(msg_len as int),
{
    let mut buffer = buffer;
    let encryptor = Encryptor::<Aes128>::new(GenericArray::from_slice(key), GenericArray::from_slice(iv));
    match encryptor.encrypt_padded_mut::<cbc::cipher::block_padding::Pkcs7>(&mut buffer, msg_len) {
        Ok(ciphertext) => Some(ciphertext.to_vec()),
        Err(_) => None,
    }
}

/// `cbc::Decryptor::<Aes128>::new` then `decrypt_padded_mut::<Pkcs7>` on a
/// copy of `data`.
///
/// Claimed: the result is the named decryption; input whose length is not a
/// multiple of 16 is refused (`decrypt_padded_inout_mut`), and so is empty
/// input (`Pkcs7::unpad` finds no last byte); and decryption
/// gives back what encryption under the same key and IV took in (CBC with
/// PKCS#7 is invertible).
#[verifier::external_body]
fn aes128_cbc_decrypt_padded(key: &[u8; 16], iv: &[u8; 16], data: &[u8]) -> (r: Option<Vec<u8>>)
    ensures
        opt_bytes(r) == aes128_cbc_pkcs7_decrypt(key@, iv@, data@),
        data@.len() % 16 != 0 ==> r is None,
        data@.len() == 0 ==> r is None,
        forall|m: Seq<u8>|
            data@ == #[trigger] aes128_cbc_pkcs7_encrypt(key@, iv@, m) ==> opt_bytes(r) == Some(m),
{
    let decryptor = Decryptor::<Aes128>::new(GenericArray::from_slice(key), GenericArray::from_slice(iv));
    let mut buffer = data.to_vec();
    match decryptor.decrypt_padded_mut::<cbc::cipher::block_padding::Pkcs7>(&mut buffer) {
        Ok(plaintext) => Some(plaintext.to_vec()),
        Err(_) => None,
    }
}

/// `argon2::Params::new(m, t, p, None)`, `Argon2::new(Argon2id, V0x13, ..)`
/// and `hash_password_into` with a 16-byte output.
///
/// Claimed (from `Params::new`, `verify_inputs` and the output checks of
/// `hash_password_into_with_memory`): it succeeds exactly when the costs and
/// lengths are in range, and then returns the named digest.
#[verifier::external_body]
fn argon2id_hash16(password: &[u8], salt: &[u8], m_cost: u32, t_cost: u32, p_cost: u32) -> (r: Option<
    [u8; 16],
>)
    requires
        p_cost <= 0x1fffffff,
    ensures
        r is Some <==> (8 <= m_cost && p_cost * 8 <= m_cost && 1 <= t_cost && 1 <= p_cost <= 0xffffff
            && password@.len() <= 0xffffffff && 8 <= salt@.len() <= 0xffffffff),
        r matches Some(k) ==> k@ == argon2id_digest(password@, salt@, m_cost, t_cost, p_cost),
{
    let params = match argon2::Params::new(m_cost, t_cost, p_cost, None) {
        Ok(params) => params,
        Err(_) => return None,
    };
    let hasher = argon2::Argon2::new(argon2::Algorithm::Argon2id, argon2::Version::V0x13, params);
    let mut output = [0u8; 16];
    match hasher.hash_password_into(password, salt, &mut output) {
        Ok(()) => Some(output),
        Err(_) => None,
    }
}

/// Why a cryptographic step failed.
#[derive(Debug, Clone, Copy, PartialEq, Eq)]
pub enum CryptoError {
    /// The password could not be hashed (it is longer than Argon2 allows).
    KeyDerivation,
    /// Encryption failed.
    Encryption,
    /// Decryption failed (wrong key, truncated data or bad padding).
    Decryption,
    /// The decrypted bytes are not UTF-8.
    NotUtf8,
}

/// A 16-byte AES key used for `lastData.dat`.
#[derive(Debug, Clone)]
pub struct EncryptionKey([u8; 16]);

impl View for EncryptionKey {
    type V = Seq<u8>;

    closed spec fn view(&self) -> Seq<u8> {
        self.0@
    }
}

impl EncryptionKey {
    /// A key with the given bytes.
    pub fn from_bytes(key: [u8; 16]) -> (k: Self)
        ensures
            k@ == key@,
    {
        EncryptionKey(key)
    }

    /// The key's bytes.
    pub fn as_bytes(&self) -> (b: &[u8; 16])
        ensures
            b@ == self@,
    {
        &self.0
    }
}

/// The key that `derive_key_from_password` derives from `password`.
pub open spec fn password_key(password: Seq<char>) -> Seq<u8> {
    argon2id_digest(encode_utf8(password), key_salt(), ARGON2_M_COST, ARGON2_T_COST, ARGON2_P_COST)
}

/// Derive a 16-byte key from a password: Argon2id, 64 MiB, 3 iterations,
/// parallelism 4, with the fixed salt `WarframeAPIHelper`.
pub fn derive_key_from_password(password: &str) -> (r: Result<[u8; 16], CryptoError>)
    ensures
        r is Ok <==> encode_utf8(password@).len() <= 0xffffffff,
        r matches Ok(k) ==> k@ == password_key(password@),
        r matches Err(e) ==> e == CryptoError::KeyDerivation,
{
    let salt = SALT_TEXT.as_bytes();
    proof {
        reveal_strlit("WarframeAPIHelper");
        vstd::utf8::is_ascii_chars_encode_utf8(SALT_TEXT@);
        assert(salt@ =~= key_salt());
    }
    match argon2id_hash16(password.as_bytes(), salt, ARGON2_M_COST, ARGON2_T_COST, ARGON2_P_COST) {
        Some(key) => Ok(key),
        None => Err(CryptoError::KeyDerivation),
    }
}

/// The `lastData.dat` bytes for `text` under `key`.
pub open spec fn sealed(key: Seq<u8>, text: Seq<char>) -> Seq<u8> {
    aes128_cbc_pkcs7_encrypt(key, IV@, encode_utf8(text))
}

proof fn lemma_padded_size(n: int)
    requires
        0 <= n,
    ensures
        (if n % 16 == 0 {
            n + 16
        } else {
            ((n + 15) / 16) * 16
        }) == padded_len(n),
{
    assert(n == 16 * (n / 16) + n % 16) by (nonlinear_arith);
    if n % 16 != 0 {
        assert((n + 15) / 16 == n / 16 + 1) by (nonlinear_arith)
            requires
                n == 16 * (n / 16) + n % 16,
                0 < n % 16 < 16,
        ;
    } else {
        assert(n + 16 == (n / 16 + 1) * 16) by (nonlinear_arith)
            requires
                n == 16 * (n / 16) + n % 16,
                n % 16 == 0,
        ;
    }
}

/// Encrypt UTF-8 text with AES-128-CBC and PKCS#7 padding under the fixed IV.
pub fn encrypt_data(data: &str, key: &[u8; 16]) -> (r: Result<Vec<u8>, CryptoError>)
    requires
        encode_utf8(data@).len() + 16 <= usize::MAX,
    ensures
        r matches Ok(c) && c@ == sealed(key@, data@) && c@.len() == padded_len(
            encode_utf8(data@).len() as int,
        ),
{
    let data_bytes = data.as_bytes();
    let data_len = data_bytes.len();
    let block_size: usize = 16;
    let padded_size = ((data_len + block_size - 1) / block_size) * block_size;
    let padded_size = if data_len % block_size == 0 {
        data_len + block_size
    } else {
        padded_size
    };
    proof {
        lemma_padded_size(data_len as int);
    }
    let mut buffer: Vec<u8> = vec![0u8; padded_size];
    let mut i: usize = 0;
    while i < data_len
        invariant
            data_len == data_bytes@.len(),
            data_len <= padded_size,
            buffer@.len() == padded_size,
            i <= data_len,
            forall|j: int| 0 <= j < i ==> buffer@[j] == data_bytes@[j],
        decreases data_len - i,
    {
        buffer.set(i, data_bytes[i]);
        i = i + 1;
    }
    assert(buffer@.subrange(0, data_len as int) =~= data_bytes@);
    match aes128_cbc_encrypt_padded(key, &IV, buffer, data_len) {
        Some(encrypted) => Ok(encrypted),
        None => Err(CryptoError::Encryption),
    }
}

/// What `decrypt_data` gives for `data` under `key`.
pub open spec fn unsealed(key: Seq<u8>, data: Seq<u8>) -> Result<Seq<char>, CryptoError> {
    if data.len() == 0 || data.len() % 16 != 0 {
        Err(CryptoError::Decryption)
    } else {
        match aes128_cbc_pkcs7_decrypt(key, IV@, data) {
            None => Err(CryptoError::Decryption),
            Some(p) => if valid_utf8(p) {
                Ok(decode_utf8(p))
            } else {
                Err(CryptoError::NotUtf8)
            },
        }
    }
}

/// The view of a text result.
pub open spec fn text_result(r: Result<String, CryptoError>) -> Result<Seq<char>, CryptoError> {
    match r {
        Ok(s) => Ok(s@),
        Err(e) => Err(e),
    }
}

/// Decrypt AES-128-CBC + PKCS#7 ciphertext (fixed IV) to UTF-8 text.
///
/// Empty input, or input whose length is not a multiple of 16, fails. What `encrypt_data` wrote under a key, `decrypt_data`
/// reads back under the same key: for every text, of any length, bytes equal
/// to `sealed(key, text)` decrypt to that text.
pub fn decrypt_data(data: &[u8], key: &[u8; 16]) -> (r: Result<String, CryptoError>)
    ensures
        text_result(r) == unsealed(key@, data@),
        data@.len() == 0 || data@.len() % 16 != 0 ==> r == Err::<String, CryptoError>(
            CryptoError::Decryption,
        ),
        forall|text: Seq<char>|
            data@ == #[trigger] sealed(key@, text) ==> text_result(r) == Ok::<Seq<char>, CryptoError>(text),
{
    let decrypted = aes128_cbc_decrypt_padded(key, &IV, data);
    proof {
        assert forall|text: Seq<char>| data@ == #[trigger] sealed(key@, text) implies opt_bytes(
            decrypted,
        ) == Some(encode_utf8(text)) && valid_utf8(encode_utf8(text)) && decode_utf8(
            encode_utf8(text),
        ) == text by {
            vstd::utf8::encode_utf8_valid_utf8(text);
            vstd::utf8::encode_utf8_decode_utf8(text);
        }
    }
    match decrypted {
        None => Err(CryptoError::Decryption),
        Some(plaintext) => match string_from_utf8(plaintext) {
            Some(s) => Ok(s),
            None => Err(CryptoError::NotUtf8),
        },
    }
}

} // verus!
