//! Options for download and saving (`--password`, `-o`).

use vstd::prelude::*;
use crate::crypto::{derive_key_from_password, password_key, CryptoError, EncryptionKey, DEFAULT_KEY};
use vstd::utf8::encode_utf8;

verus! {

/// Options shared by the download and the `lastData` / JSON writers.
#[derive(Debug, Clone)]
pub struct Config {
    /// Key for encrypting and decrypting `lastData*.dat`.
    pub encryption_key: EncryptionKey,
    /// Keep `accountId` in the written `inventory*.json` (default: strip it).
    pub original_format: bool,
}

/// The encryption key: derived from `password` (from `--password`, `-p` or
/// `ENCRYPTION_PASSWORD`) when given, else the default key.
pub fn get_encryption_key(password: Option<&str>) -> (r: Result<EncryptionKey, CryptoError>)
    ensures
        match password {
            Some(p) => if encode_utf8(p@).len() <= 0xffffffff {
                r matches Ok(k) && k@ == password_key(p@)
            } else {
                r == Err::<EncryptionKey, CryptoError>(CryptoError::KeyDerivation)
            },
            None => r matches Ok(k) && k@ == DEFAULT_KEY@,
        },
{
    match password {
        Some(p) => match derive_key_from_password(p) {
            Ok(bytes) => Ok(EncryptionKey::from_bytes(bytes)),
            Err(e) => Err(e),
        },
        None => Ok(EncryptionKey::from_bytes(DEFAULT_KEY)),
    }
}

/// The configuration for a download: the key for `password` and whether to
/// keep the original JSON format.
pub fn get_config_for_download(password: Option<&str>, original_format: bool) -> (r: Result<
    Config,
    CryptoError,
>)
    ensures
        match password {
            Some(p) => if encode_utf8(p@).len() <= 0xffffffff {
                r matches Ok(c) && c.encryption_key@ == password_key(p@) && c.original_format
                    == original_format
            } else {
                r == Err::<Config, CryptoError>(CryptoError::KeyDerivation)
            },
            None => r matches Ok(c) && c.encryption_key@ == DEFAULT_KEY@ && c.original_format
                == original_format,
        },
{
    match get_encryption_key(password) {
        Ok(encryption_key) => Ok(Config { encryption_key, original_format }),
        Err(e) => Err(e),
    }
}

} // verus!
