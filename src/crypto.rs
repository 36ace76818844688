//! Password-based key derivation and authenticated encryption of opaque
//! payloads.

use base64::Engine;
use rand::RngCore;
use ring::aead;
use vstd::arithmetic::power2::{lemma2_to64, pow2};
use vstd::prelude::*;
use vstd::utf8::encode_utf8;
use zeroize::Zeroize;

verus! {

/// Memory cost of the key derivation: `n = 2^SCRYPT_LOG_N`.
pub const SCRYPT_LOG_N: u8 = 14;

/// Block size of the key derivation.
pub const SCRYPT_R: u32 = 8;

/// Parallelism of the key derivation.
pub const SCRYPT_P: u32 = 1;

pub const KEY_LEN: usize = 32;

pub const NONCE_LEN: usize = 12;

pub const SALT_LEN: usize = 16;

/// Length of the AES-GCM authentication tag.
pub const TAG_LEN: usize = 16;

/// The longest plaintext that AES-256-GCM seals: `(2^39 - 256) / 8` bytes.
pub const GCM_MAX_INPUT_LEN: u64 = 68719476704;

/// A symmetric key derived from a password and a salt.
pub struct DerivedKey {
    pub key: [u8; 32],
}

/// The secret that unlocks the vault for the current session.
pub struct MasterPassword(pub String);

/// The on-disk envelope: the encoded salt, and the nonce followed by the
/// AEAD ciphertext and tag.
#[derive(Clone, Debug)]
pub struct EncryptedVault {
    pub salt: String,
    pub ciphertext: Vec<u8>,
}

impl View for EncryptedVault {
    type V = (Seq<char>, Seq<u8>);

    open spec fn view(&self) -> (Seq<char>, Seq<u8>) {
        (self.salt@, self.ciphertext@)
    }
}

/// Why encryption or decryption failed. Decryption has a single kind of
/// failure whatever the cause: a wrong password, tampered data or a malformed
/// envelope.
#[derive(Debug, PartialEq, Eq, Structural)]
pub enum CryptoError {
    Encryption,
    Decryption,
}

/// The scrypt output for the given cost parameters, password bytes and salt.
pub uninterp spec fn scrypt_key(log_n: u8, r: u32, p: u32, password: Seq<u8>, salt: Seq<u8>) -> Seq<u8>;

/// AES-256-GCM with empty associated data: the ciphertext followed by the
/// 16-byte tag.
pub uninterp spec fn aes_gcm_seal(key: Seq<u8>, nonce: Seq<u8>, plaintext: Seq<u8>) -> Seq<u8>;

/// The padded standard-alphabet base64 text of the bytes.
pub uninterp spec fn base64_standard(bytes: Seq<u8>) -> Seq<char>;

/// The cost parameters that `scrypt::Params::new` accepts for a 32-byte key.
pub open spec fn scrypt_params_ok(log_n: u8, r: u32, p: u32) -> bool {
    &&& log_n < 64
    &&& r > 0
    &&& p > 0
    &&& p < u32::MAX
    &&& r as int * 128 * pow2(log_n as nat) <= usize::MAX
    &&& r as int * 128 * p <= usize::MAX
    &&& (log_n as int) < r * 16
    &&& r * p < 0x4000_0000
}

/// Relies on `scrypt::Params::new` and `scrypt::scrypt`: the parameters are
/// accepted when `scrypt_params_ok` holds, and scrypt then fills a 32-byte
/// output, which depends on the parameters, password and salt alone.
#[verifier::external_body]
fn scrypt_32(password: &[u8], salt: &[u8], log_n: u8, r: u32, p: u32) -> (res: Option<[u8; 32]>)
    ensures
        res matches Some(k) ==> k@ == scrypt_key(log_n, r, p, password@, salt@),
        scrypt_params_ok(log_n, r, p) ==> res is Some,
{
    let params = scrypt::Params::new(log_n, r, p, 32).ok()?;
    let mut out = [0u8; 32];
    scrypt::scrypt(password, salt, &params, &mut out).ok()?;
    Some(out)
}

/// Relies on ring's `LessSafeKey::seal_in_place_append_tag` with AES-256-GCM
/// and empty associated data: it fails exactly on input longer than
/// `GCM_MAX_INPUT_LEN`, and otherwise yields the ciphertext followed by the
/// 16-byte tag.
#[verifier::external_body]
fn gcm_seal(key: &[u8; 32], nonce: &[u8; 12], plaintext: &[u8]) -> (res: Option<Vec<u8>>)
    ensures
        res matches Some(c) ==> c@ == aes_gcm_seal(key@, nonce@, plaintext@),
        res matches Some(c) ==> c@.len() == plaintext@.len() + TAG_LEN,
        res is Some <==> plaintext@.len() <= GCM_MAX_INPUT_LEN,
{
    let key = aead::LessSafeKey::new(aead::UnboundKey::new(&aead::AES_256_GCM, key).ok()?);
    let mut in_out = plaintext.to_vec();
    let nonce = aead::Nonce::assume_unique_for_key(*nonce);
    key.seal_in_place_append_tag(nonce, aead::Aad::empty(), &mut in_out).ok()?;
    Some(in_out)
}

/// Relies on ring's `LessSafeKey::open_in_place` with AES-256-GCM and empty
/// associated data: it succeeds exactly when the input is the sealing of some
/// plaintext under this key and nonce, and then returns that plaintext,
/// which is the input without its 16-byte tag.
#[verifier::external_body]
fn gcm_open(key: &[u8; 32], nonce: &[u8; 12], sealed: &[u8]) -> (res: Option<Vec<u8>>)
    ensures
        res is Some ==> aes_gcm_seal(key@, nonce@, res->Some_0@) == sealed@,
        res is Some ==> res->Some_0@.len() + TAG_LEN == sealed@.len(),
        forall|p: Seq<u8>|
            p.len() <= GCM_MAX_INPUT_LEN && #[trigger] aes_gcm_seal(key@, nonce@, p) == sealed@
                ==> res is Some && res->Some_0@ == p,
{
    let key = aead::LessSafeKey::new(aead::UnboundKey::new(&aead::AES_256_GCM, key).ok()?);
    let mut in_out = sealed.to_vec();
    let nonce = aead::Nonce::assume_unique_for_key(*nonce);
    let plain = key.open_in_place(nonce, aead::Aad::empty(), &mut in_out).ok()?;
    Some(plain.to_vec())
}

/// Relies on base64's `STANDARD` engine `encode`: padded standard-alphabet
/// text.
#[verifier::external_body]
fn b64_encode(bytes: &[u8]) -> (s: String)
    ensures
        s@ == base64_standard(bytes@),
{
    base64::engine::general_purpose::STANDARD.encode(bytes)
}

/// Relies on base64's `STANDARD` engine `decode`, which requires canonical
/// padding and rejects trailing bits: it succeeds exactly on the text that
/// `encode` produces, and returns the bytes that were encoded.
#[verifier::external_body]
fn b64_decode(text: &str) -> (res: Option<Vec<u8>>)
    ensures
        res is Some ==> base64_standard(res->Some_0@) == text@,
        forall|b: Seq<u8>| #[trigger] base64_standard(b) == text@ ==> res is Some && res->Some_0@ == b,
{
    base64::engine::general_purpose::STANDARD.decode(text).ok()
}

/// Relies on rand's `OsRng::try_fill_bytes`: bytes from the operating
/// system's random source, or nothing when that source fails.
#[verifier::external_body]
pub(crate) fn random_array<const N: usize>() -> (r: Option<[u8; N]>) {
    let mut a = [0u8; N];
    rand::rngs::OsRng.try_fill_bytes(&mut a).ok()?;
    Some(a)
}

/// Relies on zeroize's `Zeroize` for byte arrays: every byte becomes zero.
#[verifier::external_body]
fn zeroize_bytes(b: &mut [u8; 32])
    ensures
        forall|i: int| 0 <= i < 32 ==> #[trigger] final(b)@[i] == 0u8,
{
    b.zeroize();
}

/// Relies on zeroize's `Zeroize` for `String`: the bytes are overwritten
/// with zeros and the string is left empty.
#[verifier::external_body]
fn zeroize_string(s: &mut String)
    ensures
        final(s)@.len() == 0,
{
    s.zeroize();
}

impl DerivedKey {
    /// Overwrites the key with zeros.
    pub fn wipe(&mut self)
        ensures
            forall|i: int| 0 <= i < 32 ==> #[trigger] final(self).key@[i] == 0u8,
    {
        zeroize_bytes(&mut self.key);
    }
}

impl MasterPassword {
    /// Overwrites the password and leaves it empty.
    pub fn wipe(&mut self)
        ensures
            final(self).0@.len() == 0,
    {
        zeroize_string(&mut self.0);
    }
}

/// The key that `derive_key` yields for a password and a salt.
pub open spec fn kdf(password: Seq<char>, salt: Seq<u8>) -> Seq<u8> {
    scrypt_key(SCRYPT_LOG_N, SCRYPT_R, SCRYPT_P, encode_utf8(password), salt)
}

/// Derives the 32-byte key for a password and a salt with scrypt
/// (`n = 2^14`, `r = 8`, `p = 1`). Deterministic, and it never fails with
/// these parameters.
pub fn derive_key(password: &MasterPassword, salt: &[u8; 16]) -> (k: DerivedKey)
    ensures
        k.key@ == kdf(password.0@, salt@),
{
    proof {
        lemma2_to64();
    }
    let bytes = password.0.as_str().as_bytes();
    match scrypt_32(bytes, salt, SCRYPT_LOG_N, SCRYPT_R, SCRYPT_P) {
        Some(key) => DerivedKey { key },
        None => {
            proof {
                assert(false);
            }
            DerivedKey { key: [0u8; 32] }
        },
    }
}

/// The envelope that encrypting `data` under `password` with the given salt
/// and nonce produces: the encoded salt, and the nonce followed by the sealed
/// data.
pub open spec fn sealed_envelope(
    data: Seq<u8>,
    password: Seq<char>,
    salt: Seq<u8>,
    nonce: Seq<u8>,
) -> (Seq<char>, Seq<u8>) {
    (base64_standard(salt), nonce + aes_gcm_seal(kdf(password, salt), nonce, data))
}

/// Whether `env` is an envelope of `data` under `password`, for some salt and
/// nonce of the right lengths.
pub open spec fn is_envelope_of(env: (Seq<char>, Seq<u8>), data: Seq<u8>, password: Seq<char>) -> bool {
    exists|salt: Seq<u8>, nonce: Seq<u8>|
        salt.len() == SALT_LEN && nonce.len() == NONCE_LEN && #[trigger] sealed_envelope(
            data,
            password,
            salt,
            nonce,
        ) == env
}

/// An envelope of some data has a 16-byte salt in base64, and a ciphertext
/// that starts with a 12-byte nonce.
proof fn lemma_envelope_parts(env: (Seq<char>, Seq<u8>), data: Seq<u8>, password: Seq<char>)
    requires
        is_envelope_of(env, data, password),
    ensures
        exists|s: Seq<u8>| s.len() == SALT_LEN && #[trigger] base64_standard(s) == env.0,
        env.1.len() >= NONCE_LEN,
{
    let (s, n): (Seq<u8>, Seq<u8>) = choose|s: Seq<u8>, n: Seq<u8>|
        s.len() == SALT_LEN && n.len() == NONCE_LEN && #[trigger] sealed_envelope(
            data,
            password,
            s,
            n,
        ) == env;
    assert(base64_standard(s) == env.0);
}

/// Encrypts `data` under `password` with the given salt and nonce, which the
/// caller draws fresh for every call.
pub fn encrypt_with(data: &[u8], password: &MasterPassword, salt: [u8; 16], nonce: [u8; 12]) -> (r:
    Result<EncryptedVault, CryptoError>)
    ensures
        data@.len() <= GCM_MAX_INPUT_LEN ==> r is Ok && r->Ok_0@ == sealed_envelope(
            data@,
            password.0@,
            salt@,
            nonce@,
        ) && r->Ok_0.ciphertext@.len() == NONCE_LEN + data@.len() + TAG_LEN,
        data@.len() > GCM_MAX_INPUT_LEN ==> r == Err::<EncryptedVault, CryptoError>(
            CryptoError::Encryption,
        ),
{
    let mut derived_key = derive_key(password, &salt);
    let sealed = gcm_seal(&derived_key.key, &nonce, data);
    derived_key.wipe();
    match sealed {
        Some(c) => {
            let mut c = c;
            let mut ciphertext: Vec<u8> = Vec::new();
            let mut i: usize = 0;
            while i < NONCE_LEN
                invariant
                    i <= NONCE_LEN,
                    ciphertext@ =~= nonce@.take(i as int),
                decreases NONCE_LEN - i,
            {
                ciphertext.push(nonce[i]);
                i += 1;
            }
            assert(ciphertext@ =~= nonce@);
            ciphertext.append(&mut c);
            Ok(EncryptedVault { salt: b64_encode(&salt), ciphertext })
        },
        None => Err(CryptoError::Encryption),
    }
}

/// Encrypts `data` under `password` with a fresh random salt and nonce. It
/// fails on data longer than `GCM_MAX_INPUT_LEN`, and when the operating
/// system's random source fails.
pub fn encrypt_vault(data: &[u8], password: &MasterPassword) -> (r: Result<EncryptedVault, CryptoError>)
    ensures
        r is Ok ==> is_envelope_of(r->Ok_0@, data@, password.0@) && r->Ok_0.ciphertext@.len()
            == NONCE_LEN + data@.len() + TAG_LEN,
        data@.len() > GCM_MAX_INPUT_LEN ==> r is Err,
        r is Err ==> r->Err_0 == CryptoError::Encryption,
{
    let salt: [u8; 16] = match random_array() {
        Some(s) => s,
        None => return Err(CryptoError::Encryption),
    };
    let nonce: [u8; 12] = match random_array() {
        Some(n) => n,
        None => return Err(CryptoError::Encryption),
    };
    let r = encrypt_with(data, password, salt, nonce);
    proof {
        if data@.len() <= GCM_MAX_INPUT_LEN {
            assert(sealed_envelope(data@, password.0@, salt@, nonce@) == r->Ok_0@);
        }
    }
    r
}

/// A decryption result with the plaintext as a byte sequence.
pub open spec fn plaintext_view(r: Result<Vec<u8>, CryptoError>) -> Result<Seq<u8>, CryptoError> {
    match r {
        Ok(p) => Ok(p@),
        Err(e) => Err(e),
    }
}

/// What decrypting `env` with `password` may return: a plaintext of which
/// `env` is an envelope under `password`, which is owed whenever there is one;
/// otherwise the single decryption failure.
pub open spec fn decrypt_outcome(
    env: (Seq<char>, Seq<u8>),
    password: Seq<char>,
    r: Result<Seq<u8>, CryptoError>,
) -> bool {
    &&& r is Ok ==> is_envelope_of(env, r->Ok_0, password)
    &&& forall|p: Seq<u8>|
        p.len() <= GCM_MAX_INPUT_LEN && #[trigger] is_envelope_of(env, p, password) ==> r == Ok::<
            Seq<u8>,
            CryptoError,
        >(p)
    &&& r is Err ==> r->Err_0 == CryptoError::Decryption
    &&& env.1.len() < NONCE_LEN + TAG_LEN ==> r is Err
}

/// Round trip: decrypting, with the password it was made with, an envelope
/// that encryption produced gives back the plaintext.
pub proof fn lemma_round_trip(
    data: Seq<u8>,
    password: Seq<char>,
    env: (Seq<char>, Seq<u8>),
    decrypted: Result<Seq<u8>, CryptoError>,
)
    requires
        data.len() <= GCM_MAX_INPUT_LEN,
        is_envelope_of(env, data, password),
        decrypt_outcome(env, password, decrypted),
    ensures
        decrypted == Ok::<Seq<u8>, CryptoError>(data),
{
}

/// Decrypts an envelope with `password`. It succeeds exactly when the
/// envelope is one that encryption of some plaintext under `password`
/// produces, and returns that plaintext; every other case is one and the same
/// failure.
pub fn decrypt_vault(encrypted_vault: EncryptedVault, password: &MasterPassword) -> (r: Result<
    Vec<u8>,
    CryptoError,
>)
    ensures
        decrypt_outcome(encrypted_vault@, password.0@, plaintext_view(r)),
{
    let env = Ghost(encrypted_vault@);
    let pw = Ghost(password.0@);
    let decoded = b64_decode(encrypted_vault.salt.as_str());
    let salt_bytes = match decoded {
        Some(b) => b,
        None => {
            proof {
                assert forall|p: Seq<u8>| #[trigger] is_envelope_of(env@, p, pw@) implies false by {
                    lemma_envelope_parts(env@, p, pw@);
                }
            }
            return Err(CryptoError::Decryption);
        },
    };
    let ct = &encrypted_vault.ciphertext;
    if salt_bytes.len() != SALT_LEN || ct.len() < NONCE_LEN {
        proof {
            assert forall|p: Seq<u8>| #[trigger] is_envelope_of(env@, p, pw@) implies false by {
                lemma_envelope_parts(env@, p, pw@);
            }
        }
        return Err(CryptoError::Decryption);
    }
    let mut salt = [0u8; 16];
    let mut i: usize = 0;
    while i < SALT_LEN
        invariant
            i <= SALT_LEN,
            salt_bytes@.len() == SALT_LEN,
            forall|j: int| 0 <= j < i ==> salt@[j] == salt_bytes@[j],
        decreases SALT_LEN - i,
    {
        salt[i] = salt_bytes[i];
        i += 1;
    }
    assert(salt@ =~= salt_bytes@);
    let mut nonce = [0u8; 12];
    let mut i: usize = 0;
    while i < NONCE_LEN
        invariant
            i <= NONCE_LEN,
            ct@.len() >= NONCE_LEN,
            forall|j: int| 0 <= j < i ==> nonce@[j] == ct@[j],
        decreases NONCE_LEN - i,
    {
        nonce[i] = ct[i];
        i += 1;
    }
    assert(nonce@ =~= ct@.take(NONCE_LEN as int));
    let mut body: Vec<u8> = Vec::new();
    let mut i: usize = NONCE_LEN;
    while i < ct.len()
        invariant
            NONCE_LEN <= i <= ct@.len(),
            body@ =~= ct@.subrange(NONCE_LEN as int, i as int),
        decreases ct@.len() - i,
    {
        body.push(ct[i]);
        i += 1;
    }
    assert(body@ =~= ct@.skip(NONCE_LEN as int));
    assert(ct@ =~= nonce@ + body@);
    let mut key = derive_key(password, &salt);
    let opened = gcm_open(&key.key, &nonce, body.as_slice());
    let used_key = Ghost(key.key@);
    key.wipe();
    proof {
        assert forall|p: Seq<u8>|
            p.len() <= GCM_MAX_INPUT_LEN && #[trigger] is_envelope_of(env@, p, pw@) implies opened
            is Some && opened->Some_0@ == p by {
            let (s, n): (Seq<u8>, Seq<u8>) = choose|s: Seq<u8>, n: Seq<u8>|
                s.len() == SALT_LEN && n.len() == NONCE_LEN && #[trigger] sealed_envelope(
                    p,
                    pw@,
                    s,
                    n,
                ) == env@;
            assert(base64_standard(s) == env@.0);
            assert(s == salt@);
            assert((n + aes_gcm_seal(kdf(pw@, s), n, p)).take(NONCE_LEN as int) =~= n);
            assert((n + aes_gcm_seal(kdf(pw@, s), n, p)).skip(NONCE_LEN as int) =~= aes_gcm_seal(
                kdf(pw@, s),
                n,
                p,
            ));
            assert(aes_gcm_seal(used_key@, nonce@, p) == body@);
        }
    }
    match opened {
        Some(p) => {
            assert(sealed_envelope(p@, pw@, salt@, nonce@) == env@);
            Ok(p)
        },
        None => Err(CryptoError::Decryption),
    }
}

} // verus!
