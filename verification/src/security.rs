use vstd::prelude::*;
use crate::responses::STATUS_INTERNAL_SERVER_ERROR;
use crate::strutil::all_ascii;

verus! {

/// The raw digest that Argon2, with this crate's default parameters and
/// a 35-byte output buffer, derives from a password and a salt.
pub uninterp spec fn argon2_digest_of(password: Seq<char>, salt: Seq<char>) -> Seq<u8>;

/// The standard (padded) base64 encoding of a byte string.
pub uninterp spec fn base64_standard_of(bytes: Seq<u8>) -> Seq<char>;

/// The stored form of a password: its Argon2 digest, base64-encoded.
pub open spec fn hashed_password_of(password: Seq<char>, salt: Seq<char>) -> Seq<char> {
    base64_standard_of(argon2_digest_of(password, salt))
}

/// A salt that Argon2 is sure to accept: ASCII, so its characters and
/// its UTF-8 bytes coincide, and within Argon2's salt-length bounds of
/// 8 to 2^32 - 1 bytes.
pub open spec fn salt_ok(salt: Seq<char>) -> bool {
    all_ascii(salt) && 8 <= salt.len() && salt.len() <= 0xFFFFFFFF
}

/// A password whose UTF-8 form stays within Argon2's length bound of
/// 2^32 - 1 bytes: each character encodes to at most four bytes.
pub open spec fn password_len_ok(password: Seq<char>) -> bool {
    password.len() <= 0x3FFFFFFF
}

/// Relies on argon2::Argon2::hash_password_into with the crate's default
/// parameters: the digest depends on the password and the salt alone,
/// and the only documented failures are the input-shape checks — a salt
/// shorter than argon2::MIN_SALT_LEN (8 bytes) or longer than 2^32 - 1
/// bytes, or a password longer than 2^32 - 1 bytes — so well-shaped
/// inputs hash successfully, granted that the call can allocate its
/// default 19 MiB of working memory. The length checks count UTF-8
/// bytes, so the shortness clause is stated for ASCII salts only, where
/// characters and bytes coincide.
#[verifier::external_body]
fn argon2_digest(password: &str, salt: &str) -> (r: Result<Vec<u8>, ()>)
    ensures
        r is Ok ==> r->Ok_0@ == argon2_digest_of(password@, salt@),
        r is Ok ==> r->Ok_0@.len() == 35,
        all_ascii(salt@) && salt@.len() < 8 ==> r is Err,
        salt_ok(salt@) && password_len_ok(password@) ==> r is Ok,
{
    let mut out = [0u8; 35];
    match argon2::Argon2::default().hash_password_into(
        password.as_bytes(),
        salt.as_bytes(),
        &mut out,
    ) {
        Ok(()) => Ok(out.to_vec()),
        Err(_) => Err(()),
    }
}

/// Relies on base64's STANDARD engine: the encoding depends on the input
/// bytes alone, it draws only on the ASCII alphabet and padding
/// character, and with padding its length is 4 * ceil(n / 3).
#[verifier::external_body]
fn base64_encode(bytes: &Vec<u8>) -> (r: String)
    ensures
        r@ == base64_standard_of(bytes@),
        r@.len() == ((bytes@.len() + 2) / 3) * 4,
        all_ascii(r@),
{
    base64::Engine::encode(&base64::engine::general_purpose::STANDARD, bytes)
}

/// Hash a password for storage: derive its Argon2 digest under the given
/// salt and base64-encode the digest, giving a 48-character ASCII
/// string. Fails (with the internal-error status) exactly when the
/// digest cannot be computed — in particular whenever an ASCII salt is
/// shorter than 8 characters — and succeeds whenever the salt is
/// acceptable and the password within Argon2's length bound.
pub fn hash_password(password: String, salt: &str) -> (r: Result<String, u16>)
    ensures
        r is Ok ==> r->Ok_0@ == hashed_password_of(password@, salt@),
        r is Ok ==> r->Ok_0@.len() == 48,
        r is Ok ==> all_ascii(r->Ok_0@),
        r is Err ==> r->Err_0 == STATUS_INTERNAL_SERVER_ERROR,
        all_ascii(salt@) && salt@.len() < 8 ==> r is Err,
        salt_ok(salt@) && password_len_ok(password@) ==> r is Ok,
{
    match argon2_digest(password.as_str(), salt) {
        Ok(digest) => {
            let encoded = base64_encode(&digest);
            assert(encoded@.len() == 48);
            Ok(encoded)
        },
        Err(_) => Err(STATUS_INTERNAL_SERVER_ERROR),
    }
}

} // verus!
