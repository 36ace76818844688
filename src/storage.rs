//! The persistence layer's own logic: sealing the serialized vault for the
//! file, and opening what was read from it.

use crate::crypto::{
    decrypt_vault, encrypt_vault, is_envelope_of, CryptoError, EncryptedVault, MasterPassword,
    GCM_MAX_INPUT_LEN, NONCE_LEN, TAG_LEN,
};
use vstd::prelude::*;

verus! {

/// Why saving or loading the vault failed.
#[derive(Debug)]
pub enum StorageError {
    Io(String),
    Json(String),
    Crypto(String),
    NotFound(String),
}

/// The description of a cryptographic failure.
pub open spec fn crypto_message(e: CryptoError) -> Seq<char> {
    match e {
        CryptoError::Encryption => "Encryption failed"@,
        CryptoError::Decryption => "Decryption failed"@,
    }
}

/// The description of a storage failure.
pub open spec fn storage_message(e: StorageError) -> Seq<char> {
    match e {
        StorageError::Io(d) => "File system error: "@ + d@,
        StorageError::Json(d) => "Serialization/Deserialization error: "@ + d@,
        StorageError::Crypto(d) => "Cryptography error: "@ + d@,
        StorageError::NotFound(d) => "Vault file not found at path: "@ + d@,
    }
}

impl CryptoError {
    /// A human-readable description of the failure.
    pub fn message(&self) -> (s: String)
        ensures
            s@ == crypto_message(*self),
    {
        match self {
            CryptoError::Encryption => "Encryption failed".to_owned(),
            CryptoError::Decryption => "Decryption failed".to_owned(),
        }
    }
}

impl StorageError {
    /// A human-readable description of the failure.
    pub fn message(&self) -> (s: String)
        ensures
            s@ == storage_message(*self),
    {
        let (prefix, detail) = match self {
            StorageError::Io(d) => ("File system error: ", d),
            StorageError::Json(d) => ("Serialization/Deserialization error: ", d),
            StorageError::Crypto(d) => ("Cryptography error: ", d),
            StorageError::NotFound(d) => ("Vault file not found at path: ", d),
        };
        let mut s = prefix.to_owned();
        s.append(detail.as_str());
        s
    }
}

/// Encrypts the serialized vault under `password`, ready to be written out.
pub fn seal_vault(vault_json: &[u8], password: &MasterPassword) -> (r: Result<
    EncryptedVault,
    StorageError,
>)
    ensures
        r is Ok ==> is_envelope_of(r->Ok_0@, vault_json@, password.0@) && r->Ok_0.ciphertext@.len()
            == NONCE_LEN + vault_json@.len() + TAG_LEN,
        vault_json@.len() > GCM_MAX_INPUT_LEN ==> r is Err,
        r is Err ==> r->Err_0 is Crypto && r->Err_0->Crypto_0@ == crypto_message(
            CryptoError::Encryption,
        ),
{
    match encrypt_vault(vault_json, password) {
        Ok(env) => Ok(env),
        Err(e) => Err(StorageError::Crypto(e.message())),
    }
}

/// Opens the envelope read from the vault file with `password`, giving the
/// serialized vault. A failure to read or parse the file is passed on as it
/// is; a decryption failure becomes `StorageError::Crypto`.
pub fn open_vault(stored: Result<EncryptedVault, StorageError>, password: &MasterPassword) -> (r:
    Result<Vec<u8>, StorageError>)
    ensures
        stored is Err ==> r is Err && stored == Err::<EncryptedVault, StorageError>(r->Err_0),
        stored is Ok ==> (r is Ok ==> is_envelope_of(stored->Ok_0@, r->Ok_0@, password.0@)),
        stored is Ok ==> forall|p: Seq<u8>|
            p.len() <= GCM_MAX_INPUT_LEN && #[trigger] is_envelope_of(
                stored->Ok_0@,
                p,
                password.0@,
            ) ==> r is Ok && r->Ok_0@ == p,
        stored is Ok ==> (r is Err ==> r->Err_0 is Crypto && r->Err_0->Crypto_0@ == crypto_message(
            CryptoError::Decryption,
        )),
        stored is Ok && stored->Ok_0.ciphertext@.len() < NONCE_LEN + TAG_LEN ==> r is Err,
{
    match stored {
        Err(e) => Err(e),
        Ok(env) => {
            let ghost env_view = env@;
            match decrypt_vault(env, password) {
                Ok(p) => Ok(p),
                Err(e) => {
                    proof {
                        assert forall|p: Seq<u8>|
                            p.len() <= GCM_MAX_INPUT_LEN && #[trigger] is_envelope_of(
                                env_view,
                                p,
                                password.0@,
                            ) implies false by {}
                    }
                    Err(StorageError::Crypto(e.message()))
                },
            }
        },
    }
}

} // verus!
