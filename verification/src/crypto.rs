//! The encrypted payload format: `salt(32) + nonce(12) + AES-256-GCM ciphertext`,
//! with the key derived from the password by Argon2id.
use vstd::prelude::*;
use vstd::string::StringSliceAdditionalSpecFns;
use vstd::slice::slice_subrange;
use aes_gcm::aead::{Aead, KeyInit};
use rand::RngCore;
use zeroize::Zeroize;

verus! {

/// Length of the random salt that starts a payload.
pub const SALT_LEN: usize = 32;

/// Length of the AES-GCM nonce that follows the salt.
pub const NONCE_LEN: usize = 12;

/// Length of the derived AES-256 key.
pub const KEY_LEN: usize = 32;

/// Argon2id memory cost, in KiB (64 MiB).
pub const PARAM_M_COST: u32 = 65536;

/// Argon2id number of passes.
pub const PARAM_T_COST: u32 = 3;

/// Argon2id degree of parallelism.
pub const PARAM_P_COST: u32 = 4;

/// The bytes of an Argon2id (version 0x13) hash of `out_len` bytes.
pub uninterp spec fn argon2id_hash(
    password: Seq<u8>,
    salt: Seq<u8>,
    m_cost: u32,
    t_cost: u32,
    p_cost: u32,
    out_len: usize,
) -> Seq<u8>;

/// Whether `argon2::Params::new` accepts these costs.
pub open spec fn argon2_params_valid(m_cost: u32, t_cost: u32, p_cost: u32) -> bool {
    &&& m_cost >= 8
    &&& m_cost >= p_cost * 8
    &&& t_cost >= 1
    &&& 1 <= p_cost <= 0xFF_FFFF
}

/// Calls `argon2::Params::new(m_cost, t_cost, p_cost, Some(out_len))`,
/// `argon2::Argon2::new(Argon2id, V0x13, params)` and `hash_password_into`
/// (argon2 0.5) with an output buffer of `out_len` bytes.
/// Claimed: with valid costs and length, hashing succeeds exactly when the
/// password is at most `u32::MAX` bytes and the salt between 8 and `u32::MAX`
/// bytes, and the output is the Argon2id hash of its arguments.
#[verifier::external_body]
fn argon2id_hash_into(
    password: &[u8],
    salt: &[u8],
    m_cost: u32,
    t_cost: u32,
    p_cost: u32,
    out_len: usize,
) -> (r: Option<Vec<u8>>)
    requires
        argon2_params_valid(m_cost, t_cost, p_cost),
        4 <= out_len <= 0xFFFF_FFFF,
    ensures
        r is Some <==> (password.len() <= 0xFFFF_FFFF && 8 <= salt.len() <= 0xFFFF_FFFF),
        r matches Some(k) ==> k@ == argon2id_hash(password@, salt@, m_cost, t_cost, p_cost, out_len),
        r matches Some(k) ==> k@.len() == out_len,
{
    let params = argon2::Params::new(m_cost, t_cost, p_cost, Some(out_len)).ok()?;
    let hasher = argon2::Argon2::new(argon2::Algorithm::Argon2id, argon2::Version::V0x13, params);
    let mut key = vec![0u8; out_len];
    match hasher.hash_password_into(password, salt, &mut key) {
        Ok(()) => Some(key),
        Err(_) => None,
    }
}

/// The key that a password and a salt give.
pub open spec fn derived_key(password: Seq<u8>, salt: Seq<u8>) -> Seq<u8> {
    argon2id_hash(password, salt, PARAM_M_COST, PARAM_T_COST, PARAM_P_COST, KEY_LEN)
}

/// The key of every payload is the 32-byte Argon2id hash of the password and
/// the salt with 64 MiB of memory (65536 KiB), time cost 3 and parallelism 4,
/// the parameters of the documented file format.
pub proof fn law_key_parameters(password: Seq<u8>, salt: Seq<u8>)
    ensures
        derived_key(password, salt) == argon2id_hash(password, salt, 65536, 3, 4, 32),
{
}

/// Derives the AES-256 key from the password's UTF-8 bytes and the salt.
fn derive_key(password: &str, salt: &[u8]) -> (key: Vec<u8>)
    requires
        password.spec_bytes().len() <= 0xFFFF_FFFF,
        salt.len() == SALT_LEN,
    ensures
        key@ == derived_key(password.spec_bytes(), salt@),
        key@ == argon2id_hash(password.spec_bytes(), salt@, 65536, 3, 4, 32),
        key@.len() == KEY_LEN,
{
    match argon2id_hash_into(
        password.as_bytes(),
        salt,
        PARAM_M_COST,
        PARAM_T_COST,
        PARAM_P_COST,
        KEY_LEN,
    ) {
        Some(key) => key,
        None => Vec::new(),
    }
}

/// Longest plaintext that AES-GCM encrypts (`aes_gcm::P_MAX`, 2^36 bytes).
pub const AES_GCM_P_MAX: u64 = 0x10_0000_0000;

/// Length of the AES-GCM authentication tag appended to every ciphertext.
pub const TAG_LEN: usize = 16;

/// The AES-256-GCM ciphertext (with its tag) of `plaintext` under `key` and
/// `nonce`, with no associated data: the CTR keystream applied to the
/// plaintext, followed by the GHASH tag, as aes-gcm 0.10 computes them.
pub uninterp spec fn aes256gcm_seal(key: Seq<u8>, nonce: Seq<u8>, plaintext: Seq<u8>) -> Seq<u8>;

/// What AES-256-GCM decryption of `ciphertext` under `key` and `nonce`, with no
/// associated data, gives: the plaintext, or `None` where authentication fails.
pub uninterp spec fn aes256gcm_open(key: Seq<u8>, nonce: Seq<u8>, ciphertext: Seq<u8>) -> Option<
    Seq<u8>,
>;

/// Calls `Aes256Gcm::new` on the key and `Aead::encrypt` (aes-gcm 0.10) with the nonce.
/// Claimed: encryption succeeds exactly when the plaintext is at most `P_MAX`
/// bytes; the ciphertext is the plaintext's length plus the 16-byte tag, and
/// decrypting it with the same key and nonce gives the plaintext back.
#[verifier::external_body]
fn aes256gcm_encrypt(key: &[u8], nonce: &[u8], plaintext: &[u8]) -> (r: Option<Vec<u8>>)
    requires
        key.len() == KEY_LEN,
        nonce.len() == NONCE_LEN,
    ensures
        r is Some <==> plaintext.len() <= AES_GCM_P_MAX,
        r matches Some(c) ==> c@ == aes256gcm_seal(key@, nonce@, plaintext@),
        r matches Some(c) ==> c@.len() == plaintext.len() + TAG_LEN,
        r matches Some(c) ==> aes256gcm_open(key@, nonce@, c@) == Some(plaintext@),
{
    let cipher = aes_gcm::Aes256Gcm::new(aes_gcm::Key::<aes_gcm::Aes256Gcm>::from_slice(key));
    cipher.encrypt(aes_gcm::Nonce::from_slice(nonce), plaintext).ok()
}

/// Calls `Aes256Gcm::new` on the key and `Aead::decrypt` (aes-gcm 0.10) with the nonce.
/// Claimed: the result is what decryption gives; a plaintext is always 16
/// bytes shorter than its ciphertext, and at most `C_MAX` (`P_MAX` + 16) bytes,
/// the bound that decryption checks; a successful decryption's ciphertext is
/// the AES-GCM encryption of its plaintext under the same key and nonce (the
/// tag is recomputed over the ciphertext and the keystream is the same one);
/// and the encryption of any plaintext of at most `P_MAX` bytes decrypts to it.
#[verifier::external_body]
fn aes256gcm_decrypt(key: &[u8], nonce: &[u8], ciphertext: &[u8]) -> (r: Option<Vec<u8>>)
    requires
        key.len() == KEY_LEN,
        nonce.len() == NONCE_LEN,
    ensures
        r matches Some(p) ==> aes256gcm_open(key@, nonce@, ciphertext@) == Some(p@),
        r is None ==> aes256gcm_open(key@, nonce@, ciphertext@) is None,
        r matches Some(p) ==> p@.len() + TAG_LEN == ciphertext.len(),
        r matches Some(p) ==> p@.len() <= AES_GCM_P_MAX + TAG_LEN && ciphertext@ == aes256gcm_seal(key@, nonce@, p@),
        r is None ==> forall|p: Seq<u8>| p.len() <= AES_GCM_P_MAX ==> ciphertext@ != #[trigger] aes256gcm_seal(key@, nonce@, p),
        r matches Some(q) ==> forall|p: Seq<u8>| p.len() <= AES_GCM_P_MAX && ciphertext@ == #[trigger] aes256gcm_seal(key@, nonce@, p) ==> q@ == p,
{
    let cipher = aes_gcm::Aes256Gcm::new(aes_gcm::Key::<aes_gcm::Aes256Gcm>::from_slice(key));
    cipher.decrypt(aes_gcm::Nonce::from_slice(nonce), ciphertext).ok()
}

/// Calls `RngCore::try_fill_bytes` of `rand::rngs::OsRng` (rand 0.8) on a
/// buffer of `len` zero bytes.
/// Claimed: on success the buffer has `len` bytes. Their values are random and
/// nothing is claimed of them.
#[verifier::external_body]
fn os_random_bytes(len: usize) -> (r: Option<Vec<u8>>)
    ensures
        r matches Some(b) ==> b@.len() == len,
{
    let mut buf = vec![0u8; len];
    match rand::rngs::OsRng.try_fill_bytes(&mut buf) {
        Ok(()) => Some(buf),
        Err(_) => None,
    }
}

/// Calls `Zeroize::zeroize` (zeroize 1) on a byte vector.
/// Claimed: the bytes are overwritten with zeros and the vector is left empty.
#[verifier::external_body]
pub(crate) fn zeroize_bytes(buf: &mut Vec<u8>)
    ensures
        final(buf)@ == Seq::<u8>::empty(),
{
    buf.zeroize();
}

/// Errors of payload encryption and decryption.
#[derive(Debug, Clone, Copy, PartialEq, Eq, Structural)]
pub enum CryptoError {
    /// The data is shorter than a salt and a nonce.
    Truncated,
    /// AES-GCM refused the plaintext (it is longer than `P_MAX`).
    EncryptionFailed,
    /// Authentication failed: wrong password, or tampered data.
    WrongPasswordOrCorrupted,
    /// The operating system's random source failed.
    RandomUnavailable,
}

/// Length of the header (salt and nonce) in front of the ciphertext.
pub const HEADER_LEN: usize = 44;

/// The payload layout: salt, then nonce, then ciphertext.
pub open spec fn frame(salt: Seq<u8>, nonce: Seq<u8>, ciphertext: Seq<u8>) -> Seq<u8> {
    salt + nonce + ciphertext
}

/// The salt of a payload.
pub open spec fn payload_salt(data: Seq<u8>) -> Seq<u8> {
    data.subrange(0, SALT_LEN as int)
}

/// The nonce of a payload.
pub open spec fn payload_nonce(data: Seq<u8>) -> Seq<u8> {
    data.subrange(SALT_LEN as int, HEADER_LEN as int)
}

/// The ciphertext of a payload.
pub open spec fn payload_ciphertext(data: Seq<u8>) -> Seq<u8> {
    data.subrange(HEADER_LEN as int, data.len() as int)
}

/// The payload that `payload` encrypts to under `password` (its UTF-8 bytes)
/// with the given salt and nonce.
pub open spec fn sealed_payload(payload: Seq<u8>, password: Seq<u8>, salt: Seq<u8>, nonce: Seq<u8>) -> Seq<u8> {
    frame(salt, nonce, aes256gcm_seal(derived_key(password, salt), nonce, payload))
}

/// What decrypting `data` with `password` (its UTF-8 bytes) gives.
pub open spec fn opened_payload(data: Seq<u8>, password: Seq<u8>) -> Result<Seq<u8>, CryptoError> {
    if data.len() < HEADER_LEN {
        Err(CryptoError::Truncated)
    } else {
        match aes256gcm_open(
            derived_key(password, payload_salt(data)),
            payload_nonce(data),
            payload_ciphertext(data),
        ) {
            Some(p) => Ok(p),
            None => Err(CryptoError::WrongPasswordOrCorrupted),
        }
    }
}

/// The views of a decryption result.
pub open spec fn result_bytes_view(r: Result<Vec<u8>, CryptoError>) -> Result<Seq<u8>, CryptoError> {
    match r {
        Ok(v) => Ok(v@),
        Err(e) => Err(e),
    }
}

/// A payload splits back into the salt, nonce and ciphertext it was framed from.
pub proof fn lemma_frame_split(salt: Seq<u8>, nonce: Seq<u8>, ciphertext: Seq<u8>)
    requires
        salt.len() == SALT_LEN,
        nonce.len() == NONCE_LEN,
    ensures
        frame(salt, nonce, ciphertext).len() == HEADER_LEN + ciphertext.len(),
        payload_salt(frame(salt, nonce, ciphertext)) == salt,
        payload_nonce(frame(salt, nonce, ciphertext)) == nonce,
        payload_ciphertext(frame(salt, nonce, ciphertext)) == ciphertext,
{
    let f = frame(salt, nonce, ciphertext);
    assert(payload_salt(f) =~= salt);
    assert(payload_nonce(f) =~= nonce);
    assert(payload_ciphertext(f) =~= ciphertext);
}

/// Appends `data` to `out`.
fn append_bytes(out: &mut Vec<u8>, data: &[u8])
    ensures
        final(out)@ == old(out)@ + data@,
{
    let ghost start = out@;
    let mut i: usize = 0;
    while i < data.len()
        invariant
            i <= data.len(),
            out@ == start + data@.subrange(0, i as int),
        decreases data.len() - i,
    {
        out.push(data[i]);
        i = i + 1;
        assert(out@ =~= start + data@.subrange(0, i as int));
    }
    assert(data@.subrange(0, data.len() as int) =~= data@);
}

/// Lays out a payload: salt, then nonce, then ciphertext.
pub fn frame_payload(salt: &[u8], nonce: &[u8], ciphertext: &[u8]) -> (out: Vec<u8>)
    ensures
        out@ == frame(salt@, nonce@, ciphertext@),
{
    let mut out: Vec<u8> = Vec::new();
    append_bytes(&mut out, salt);
    append_bytes(&mut out, nonce);
    append_bytes(&mut out, ciphertext);
    out
}

/// Encrypts `payload` under `password` with the given salt and nonce.
///
/// Fails only when AES-GCM refuses the payload (longer than 2^36 bytes).
pub fn encrypt_payload_with(payload: &[u8], password: &str, salt: &[u8], nonce: &[u8]) -> (r: Result<
    Vec<u8>,
    CryptoError,
>)
    requires
        password.spec_bytes().len() <= 0xFFFF_FFFF,
        salt.len() == SALT_LEN,
        nonce.len() == NONCE_LEN,
    ensures
        r is Ok <==> payload.len() <= AES_GCM_P_MAX,
        r matches Err(e) ==> e == CryptoError::EncryptionFailed,
        r matches Ok(out) ==> out@ == sealed_payload(payload@, password.spec_bytes(), salt@, nonce@),
        r matches Ok(out) ==> out@.len() == HEADER_LEN + payload.len() + TAG_LEN,
        r matches Ok(out) ==> opened_payload(out@, password.spec_bytes()) == Ok::<Seq<u8>, CryptoError>(payload@),
{
    let mut key = derive_key(password, salt);
    let sealed = aes256gcm_encrypt(key.as_slice(), nonce, payload);
    zeroize_bytes(&mut key);
    match sealed {
        Some(ciphertext) => {
            let out = frame_payload(salt, nonce, ciphertext.as_slice());
            proof {
                lemma_frame_split(salt@, nonce@, ciphertext@);
            }
            Ok(out)
        },
        None => Err(CryptoError::EncryptionFailed),
    }
}

/// Encrypts `payload` under `password` with a fresh random salt and nonce.
///
/// The output is `salt(32) + nonce(12) + ciphertext`, and decrypting it with the
/// same password gives the payload back.
pub fn encrypt_payload(payload: &[u8], password: &str) -> (r: Result<Vec<u8>, CryptoError>)
    requires
        password.spec_bytes().len() <= 0xFFFF_FFFF,
    ensures
        payload.len() > AES_GCM_P_MAX ==> r is Err,
        r matches Err(e) ==> e == CryptoError::EncryptionFailed || e == CryptoError::RandomUnavailable,
        r == Err::<Vec<u8>, CryptoError>(CryptoError::EncryptionFailed) ==> payload.len() > AES_GCM_P_MAX,
        r matches Ok(out) ==> out@.len() == HEADER_LEN + payload.len() + TAG_LEN,
        r matches Ok(out) ==> out@ == sealed_payload(payload@, password.spec_bytes(), payload_salt(out@), payload_nonce(out@)),
        r matches Ok(out) ==> opened_payload(out@, password.spec_bytes()) == Ok::<Seq<u8>, CryptoError>(payload@),
{
    let salt = match os_random_bytes(SALT_LEN) {
        Some(s) => s,
        None => return Err(CryptoError::RandomUnavailable),
    };
    let nonce = match os_random_bytes(NONCE_LEN) {
        Some(n) => n,
        None => return Err(CryptoError::RandomUnavailable),
    };
    let r = encrypt_payload_with(payload, password, salt.as_slice(), nonce.as_slice());
    proof {
        if r is Ok {
            lemma_frame_split(salt@, nonce@, aes256gcm_seal(derived_key(password.spec_bytes(), salt@), nonce@, payload@));
        }
    }
    r
}

/// Decrypts a payload written by [`encrypt_payload`] with `password`.
pub fn decrypt_payload(data: &[u8], password: &str) -> (r: Result<Vec<u8>, CryptoError>)
    requires
        password.spec_bytes().len() <= 0xFFFF_FFFF,
    ensures
        result_bytes_view(r) == opened_payload(data@, password.spec_bytes()),
        data.len() < HEADER_LEN ==> r == Err::<Vec<u8>, CryptoError>(CryptoError::Truncated),
        r matches Ok(p) ==> data.len() == HEADER_LEN + p@.len() + TAG_LEN && data@ == sealed_payload(
            p@,
            password.spec_bytes(),
            payload_salt(data@),
            payload_nonce(data@),
        ),
        forall|p: Seq<u8>|
            data.len() >= HEADER_LEN && p.len() <= AES_GCM_P_MAX && data@ == #[trigger] sealed_payload(
                p,
                password.spec_bytes(),
                payload_salt(data@),
                payload_nonce(data@),
            ) ==> (r matches Ok(q) && q@ == p),
{
    if data.len() < HEADER_LEN {
        return Err(CryptoError::Truncated);
    }
    let salt = slice_subrange(data, 0, SALT_LEN);
    let nonce = slice_subrange(data, SALT_LEN, HEADER_LEN);
    let ciphertext = slice_subrange(data, HEADER_LEN, data.len());
    let mut key = derive_key(password, salt);
    let opened = aes256gcm_decrypt(key.as_slice(), nonce, ciphertext);
    proof {
        let k = derived_key(password.spec_bytes(), salt@);
        assert(data@ =~= frame(salt@, nonce@, ciphertext@));
        assert forall|p: Seq<u8>|
            p.len() <= AES_GCM_P_MAX && data@ == #[trigger] sealed_payload(
                p,
                password.spec_bytes(),
                payload_salt(data@),
                payload_nonce(data@),
            ) implies (opened matches Some(q) && q@ == p) by {
            lemma_frame_split(salt@, nonce@, aes256gcm_seal(k, nonce@, p));
            assert(ciphertext@ == aes256gcm_seal(k, nonce@, p));
        }
    }
    zeroize_bytes(&mut key);
    match opened {
        Some(p) => Ok(p),
        None => Err(CryptoError::WrongPasswordOrCorrupted),
    }
}

} // verus!
