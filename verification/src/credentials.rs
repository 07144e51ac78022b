//! Secrets and their encodings: random bytes, RFC 4648 base32 (lower case,
//! no padding), lower-case hex, SHA-256, v4 UUIDs and Argon2id password
//! hashes.
use crate::text::{chars_of, concat, owned, slice_to_vec_range, string_of};
use argon2::password_hash::{PasswordHash, PasswordHasher, PasswordVerifier, SaltString};
use rand_core::RngCore;
use sha2::Digest;
use vstd::prelude::*;
use vstd::string::StringSliceAdditionalSpecFns;

verus! {

// ---------------------------------------------------------------------------
// Encodings
// ---------------------------------------------------------------------------

pub open spec fn pow2_bit(e: int) -> nat {
    if e <= 0 {
        1
    } else if e == 1 {
        2
    } else if e == 2 {
        4
    } else if e == 3 {
        8
    } else if e == 4 {
        16
    } else if e == 5 {
        32
    } else if e == 6 {
        64
    } else {
        128
    }
}

/// Bit `i` of `b` read as one bit string, most significant bit of each
/// byte first; bits past the end are zero.
pub open spec fn bit_at(b: Seq<u8>, i: int) -> nat {
    if 0 <= i < 8 * b.len() {
        ((b[i / 8] as nat) / pow2_bit(7 - i % 8)) % 2
    } else {
        0
    }
}

/// The five bits that make base32 digit `k`.
pub open spec fn b32_digit(b: Seq<u8>, k: int) -> nat {
    16 * bit_at(b, 5 * k) + 8 * bit_at(b, 5 * k + 1) + 4 * bit_at(b, 5 * k + 2) + 2 * bit_at(
        b,
        5 * k + 3,
    ) + bit_at(b, 5 * k + 4)
}

/// `abcdefghijklmnopqrstuvwxyz234567`
pub open spec fn b32_lower_char(d: nat) -> char {
    if d < 26 {
        (97 + d) as char
    } else {
        (50 + d - 26) as char
    }
}

/// RFC 4648 base32 with the lower-case alphabet and no padding: one digit
/// per five bits, the last group filled with zero bits.
pub open spec fn base32_lower_s(b: Seq<u8>) -> Seq<char> {
    Seq::new(((8 * b.len() + 4) / 5) as nat, |k: int| b32_lower_char(b32_digit(b, k)))
}

pub open spec fn hex_char(d: nat) -> char {
    if d < 10 {
        (48 + d) as char
    } else {
        (97 + d - 10) as char
    }
}

/// Lower-case hex, high nibble first.
pub open spec fn hex_lower_s(b: Seq<u8>) -> Seq<char> {
    Seq::new(
        2 * b.len(),
        |i: int|
            if i % 2 == 0 {
                hex_char((b[i / 2] as nat) / 16)
            } else {
                hex_char((b[i / 2] as nat) % 16)
            },
    )
}

/// `base32::encode(Alphabet::Rfc4648Lower { padding: false }, bytes)`.
#[verifier::external_body]
fn base32_lower(bytes: &[u8]) -> (r: String)
    ensures
        r@ == base32_lower_s(bytes@),
{
    base32::encode(base32::Alphabet::Rfc4648Lower { padding: false }, bytes)
}

/// `hex::encode(bytes)`.
#[verifier::external_body]
fn hex_lower(bytes: &[u8]) -> (r: String)
    ensures
        r@ == hex_lower_s(bytes@),
{
    hex::encode(bytes)
}

/// The SHA-256 digest of a byte string.
pub uninterp spec fn sha256(b: Seq<u8>) -> Seq<u8>;

/// `Sha256::digest(bytes)` from `sha2`: 32 bytes, named by `sha256`.
#[verifier::external_body]
fn sha256_digest(bytes: &[u8]) -> (r: Vec<u8>)
    ensures
        r@ == sha256(bytes@),
        r@.len() == 32,
{
    sha2::Sha256::digest(bytes).to_vec()
}

/// `n` bytes from the operating system's generator (`OsRng::fill_bytes`);
/// nothing is claimed of their values.
#[verifier::external_body]
fn os_random_bytes(n: usize) -> (r: Vec<u8>)
    ensures
        r@.len() == n,
{
    let mut buf = vec![0u8; n];
    rand_core::OsRng.fill_bytes(&mut buf);
    buf
}

/// `Uuid::new_v4().to_string()`: a random v4 UUID in its hyphenated
/// lower-case form, 36 characters.
#[verifier::external_body]
pub(crate) fn uuid_v4() -> (r: String)
    ensures
        r@.len() == 36,
{
    uuid::Uuid::new_v4().to_string()
}

/// `Uuid::new_v4().simple().to_string()`: a random v4 UUID as 32 lower-case
/// hex digits.
#[verifier::external_body]
fn uuid_v4_simple() -> (r: String)
    ensures
        r@.len() == 32,
{
    uuid::Uuid::new_v4().simple().to_string()
}

/// The first twelve hex digits of a fresh v4 UUID, used to name tasks and
/// activity records.
pub fn short_id() -> (r: String)
    ensures
        r@.len() == 12,
{
    let full = uuid_v4_simple();
    let c = chars_of(full.as_str());
    let head = slice_to_vec_range(c.as_slice(), 0, 12);
    string_of(head.as_slice())
}

// ---------------------------------------------------------------------------
// Keys, tokens and codes
// ---------------------------------------------------------------------------

/// A new API key: `mck_` and the base32 of 20 random bytes.
pub fn gen_key() -> (r: String)
    ensures
        exists|b: Seq<u8>| b.len() == 20 && r@ == "mck_"@ + #[trigger] base32_lower_s(b),
        r@.len() == 36,
{
    let buf = os_random_bytes(20);
    let body = base32_lower(buf.as_slice());
    proof {
        reveal_strlit("mck_");
    }
    concat("mck_", body.as_str())
}

/// What is stored for a key: the hex SHA-256 of its UTF-8 bytes.
pub open spec fn key_hash_s(plain: Seq<char>) -> Seq<char> {
    hex_lower_s(sha256(vstd::utf8::encode_utf8(plain)))
}

pub fn hash_key(plain: &str) -> (r: String)
    ensures
        r@ == key_hash_s(plain@),
        r@.len() == 64,
{
    let d = sha256_digest(plain.as_bytes());
    hex_lower(d.as_slice())
}

/// A session token: the hex of 32 random bytes.
pub fn gen_token() -> (r: String)
    ensures
        exists|b: Seq<u8>| b.len() == 32 && r@ == #[trigger] hex_lower_s(b),
        r@.len() == 64,
{
    let b = os_random_bytes(32);
    hex_lower(b.as_slice())
}

/// An invite code: the first six base32 digits of 5 random bytes.
pub fn gen_code() -> (r: String)
    ensures
        exists|b: Seq<u8>| b.len() == 5 && r@ == (#[trigger] base32_lower_s(b)).take(6),
        r@.len() == 6,
{
    let b = os_random_bytes(5);
    let s = base32_lower(b.as_slice());
    let c = chars_of(s.as_str());
    let head = slice_to_vec_range(c.as_slice(), 0, 6);
    string_of(head.as_slice())
}

/// An RCON password: the hex of the first 12 of 16 random bytes.
pub fn gen_rcon_password() -> (r: String)
    ensures
        exists|b: Seq<u8>| b.len() == 12 && r@ == #[trigger] hex_lower_s(b),
        r@.len() == 24,
{
    let b = os_random_bytes(16);
    let mut head: Vec<u8> = Vec::new();
    let mut i: usize = 0;
    while i < 12
        invariant
            i <= 12,
            b@.len() == 16,
            head@ == b@.take(i as int),
        decreases 12 - i,
    {
        head.push(b[i]);
        i += 1;
        assert(head@ =~= b@.take(i as int));
    }
    hex_lower(head.as_slice())
}

// ---------------------------------------------------------------------------
// Passwords
// ---------------------------------------------------------------------------

/// Whether `hash` is a PHC string that `PasswordHash::new` accepts.
pub uninterp spec fn phc_parses(hash: Seq<char>) -> bool;

/// Whether the algorithm, version, parameters and salt recorded in the PHC
/// string `hash` reproduce its output for `password` (`verify_password`
/// takes all of them from the hash, not from the verifier's own settings).
pub uninterp spec fn argon2_accepts(password: Seq<u8>, hash: Seq<char>) -> bool;

/// Hashes a password with Argon2id (m=19456 KiB, t=2, p=1) and a fresh
/// random salt (`SaltString::generate(&mut OsRng)`, `hash_password`,
/// `to_string`).  The salt is random, so the hash is not named; what is
/// claimed is the defining property of the scheme: the hash parses and
/// verifies the same password.  With these parameters, a 16-byte salt and
/// the default 32-byte output, the only refusal in `argon2`'s source is a
/// password over `MAX_PWD_LEN` (0xFFFFFFFF) bytes, so shorter ones always
/// hash.  `Err` carries the library's message.
#[verifier::external_body]
fn argon2_hash(password: &[u8]) -> (r: Result<String, String>)
    ensures
        r matches Ok(h) ==> phc_parses(h@) && argon2_accepts(password@, h@),
        password@.len() <= 0xFFFF_FFFF ==> r is Ok,
{
    let params = argon2::Params::new(19_456, 2, 1, None).map_err(|e| e.to_string())?;
    let a = argon2::Argon2::new(argon2::Algorithm::Argon2id, argon2::Version::V0x13, params);
    let salt = SaltString::generate(&mut argon2::password_hash::rand_core::OsRng);
    a.hash_password(password, &salt).map(|h| h.to_string()).map_err(|e| e.to_string())
}

/// Checks a password against a stored hash: `PasswordHash::new(hash)`, then
/// `verify_password`.  `Err` (with the library's message) exactly when the
/// hash does not parse; otherwise whether it accepts the password.
#[verifier::external_body]
fn argon2_verify(password: &[u8], hash: &str) -> (r: Result<bool, String>)
    ensures
        r is Ok <==> phc_parses(hash@),
        r matches Ok(b) ==> b == argon2_accepts(password@, hash@),
{
    let parsed = PasswordHash::new(hash).map_err(|e| e.to_string())?;
    let params = argon2::Params::new(19_456, 2, 1, None).map_err(|e| e.to_string())?;
    let a = argon2::Argon2::new(argon2::Algorithm::Argon2id, argon2::Version::V0x13, params);
    Ok(a.verify_password(password, &parsed).is_ok())
}

/// `hash_password`: the Argon2id hash to store for a password; every
/// password of at most 0xFFFFFFFF bytes is hashed.
pub fn hash_password(password: &str) -> (r: Result<String, String>)
    ensures
        r matches Ok(h) ==> phc_parses(h@) && argon2_accepts(password.spec_bytes(), h@),
        password.spec_bytes().len() <= 0xFFFF_FFFF ==> r is Ok,
{
    argon2_hash(password.as_bytes())
}

/// `verify_password`: whether a stored hash accepts the password.
pub fn verify_password(password: &str, hash: &str) -> (r: Result<bool, String>)
    ensures
        r is Ok <==> phc_parses(hash@),
        r matches Ok(b) ==> b == argon2_accepts(password.spec_bytes(), hash@),
{
    argon2_verify(password.as_bytes(), hash)
}

} // verus!
