use vstd::prelude::*;
use vstd::string::*;
use crate::model::{Claims, JWT};
use crate::responder::CustomResponse;

verus! {

// ---------------------------------------------------------------------------
// Password hashing
// ---------------------------------------------------------------------------

/// The encoded Argon2 hash that `argon2::hash_encoded` gives for a password
/// and a salt under `argon2::Config::default()`, or `None` when it fails.
pub uninterp spec fn argon2_hash_encoded(password: Seq<u8>, salt: Seq<u8>) -> Option<Seq<char>>;

/// The start of every hash encoded under the default configuration:
/// variant, version and parameters (Argon2id, version 0x13, 19456 KiB,
/// two passes, one lane), before the salt and the hash.
pub open spec fn argon2_encoded_prefix() -> Seq<char> {
    "$argon2id$v=19$m=19456,t=2,p=1$"@
}

/// Hashing succeeds on these lengths of salt and password.
pub open spec fn hashable(password: Seq<u8>, salt: Seq<u8>) -> bool {
    8 <= salt.len() <= u32::MAX && password.len() <= u32::MAX
}

/// Calls `argon2::hash_encoded` (crate rust-argon2) with
/// `argon2::Config::default()`. Trusted: the encoded hash is a function of
/// the password bytes and the salt alone, named `argon2_hash_encoded`; as
/// the crate's source shows for the default configuration, the call fails
/// exactly when the salt is shorter than 8 or longer than `u32::MAX` bytes
/// or the password is longer than `u32::MAX` bytes, and an encoded hash
/// starts with the variant, version and parameters of that configuration.
#[verifier::external_body]
pub(crate) fn hash_password(password: &[u8], salt: &[u8]) -> (r: Option<String>)
    ensures
        r is Some <==> argon2_hash_encoded(password@, salt@) is Some,
        r matches Some(h) ==> argon2_hash_encoded(password@, salt@) == Some(h@),
        r is Some <==> hashable(password@, salt@),
        r matches Some(h) ==> argon2_encoded_prefix().is_prefix_of(h@),
{
    match argon2::hash_encoded(password, salt, &argon2::Config::default()) {
        Ok(h) => Some(h),
        Err(_) => None,
    }
}

/// Calls `rand::random::<[u8; 32]>()`. Trusted: the result has 32 bytes;
/// their values come from the thread-local random generator and nothing
/// is said of them.
#[verifier::external_body]
pub(crate) fn random_salt() -> (salt: Vec<u8>)
    ensures
        salt@.len() == 32,
{
    rand::random::<[u8; 32]>().to_vec()
}

// ---------------------------------------------------------------------------
// Bearer tokens
// ---------------------------------------------------------------------------

/// The characters with the Unicode `White_Space` property, which
/// `char::is_whitespace` recognises.
pub open spec fn is_unicode_white_space(c: char) -> bool {
    let v = c as u32;
    (0x9 <= v && v <= 0xd) || v == 0x20 || v == 0x85 || v == 0xa0 || v == 0x1680 || (0x2000
        <= v && v <= 0x200a) || v == 0x2028 || v == 0x2029 || v == 0x202f || v == 0x205f || v
        == 0x3000
}

pub open spec fn starts_with_bearer(s: Seq<char>) -> bool {
    &&& s.len() >= 6
    &&& s[0] == 'B'
    &&& s[1] == 'e'
    &&& s[2] == 'a'
    &&& s[3] == 'r'
    &&& s[4] == 'e'
    &&& s[5] == 'r'
}

/// Removes every leading repetition of `Bearer`.
pub open spec fn strip_bearer(s: Seq<char>) -> Seq<char>
    decreases s.len(),
{
    if starts_with_bearer(s) {
        strip_bearer(s.skip(6))
    } else {
        s
    }
}

/// Removes leading white space.
pub open spec fn trim_start(s: Seq<char>) -> Seq<char>
    decreases s.len(),
{
    if s.len() > 0 && is_unicode_white_space(s[0]) {
        trim_start(s.skip(1))
    } else {
        s
    }
}

/// Removes trailing white space.
pub open spec fn trim_end(s: Seq<char>) -> Seq<char>
    decreases s.len(),
{
    if s.len() > 0 && is_unicode_white_space(s.last()) {
        trim_end(s.drop_last())
    } else {
        s
    }
}

/// Removes leading and trailing white space.
pub open spec fn trim_white_space(s: Seq<char>) -> Seq<char> {
    trim_end(trim_start(s))
}

fn is_white_space(c: char) -> (r: bool)
    ensures
        r == is_unicode_white_space(c),
{
    let v = c as u32;
    (0x9 <= v && v <= 0xd) || v == 0x20 || v == 0x85 || v == 0xa0 || v == 0x1680 || (0x2000 <= v
        && v <= 0x200a) || v == 0x2028 || v == 0x2029 || v == 0x202f || v == 0x205f || v == 0x3000
}

fn bearer_at(key: &str, start: usize) -> (r: bool)
    requires
        start <= key@.len(),
    ensures
        r == starts_with_bearer(key@.skip(start as int)),
{
    let n = key.unicode_len();
    if n - start < 6 {
        return false;
    }
    key.get_char(start) == 'B' && key.get_char(start + 1) == 'e' && key.get_char(start + 2) == 'a'
        && key.get_char(start + 3) == 'r' && key.get_char(start + 4) == 'e' && key.get_char(
        start + 5,
    ) == 'r'
}

/// The token carried by an `authorization` header value: every leading
/// `Bearer` removed, then the surrounding white space.
pub fn bearer_token(key: &str) -> (token: String)
    ensures
        token@ == trim_white_space(strip_bearer(key@)),
{
    let n = key.unicode_len();
    let mut start: usize = 0;
    assert(key@.skip(0) =~= key@);
    while bearer_at(key, start)
        invariant
            n == key@.len(),
            start <= n,
            strip_bearer(key@) == strip_bearer(key@.skip(start as int)),
        decreases n - start,
    {
        assert(key@.skip(start as int).skip(6) =~= key@.skip(start + 6));
        start = start + 6;
    }
    let mut lo: usize = start;
    while lo < n && is_white_space(key.get_char(lo))
        invariant
            n == key@.len(),
            start <= lo <= n,
            strip_bearer(key@) == key@.skip(start as int),
            trim_start(key@.skip(start as int)) == trim_start(key@.skip(lo as int)),
        decreases n - lo,
    {
        assert(key@.skip(lo as int).skip(1) =~= key@.skip(lo + 1));
        lo = lo + 1;
    }
    assert(trim_start(key@.skip(start as int)) == key@.skip(lo as int)) by {
        if lo < n {
            assert(key@.skip(lo as int)[0] == key@[lo as int]);
        } else {
            assert(key@.skip(lo as int).len() == 0);
        }
    }
    assert(key@.skip(lo as int) =~= key@.subrange(lo as int, n as int));
    let mut hi: usize = n;
    while hi > lo && is_white_space(key.get_char(hi - 1))
        invariant
            n == key@.len(),
            lo <= hi <= n,
            trim_end(key@.subrange(lo as int, n as int)) == trim_end(
                key@.subrange(lo as int, hi as int),
            ),
        decreases hi,
    {
        assert(key@.subrange(lo as int, hi as int).drop_last() =~= key@.subrange(
            lo as int,
            hi - 1,
        ));
        hi = hi - 1;
    }
    assert(trim_end(key@.subrange(lo as int, hi as int)) == key@.subrange(lo as int, hi as int))
        by {
        if hi > lo {
            assert(key@.subrange(lo as int, hi as int).last() == key@[hi - 1]);
        }
    }
    let token = key.substring_char(lo, hi);
    String::from_str(token)
}

// ---------------------------------------------------------------------------
// Access tokens
// ---------------------------------------------------------------------------

/// Largest UNIX time, in seconds, that `chrono::DateTime<Utc>` can hold
/// (`DateTime::<Utc>::MAX_UTC`, 31 December 262142 at 23:59:59).
pub const MAX_UTC_TIMESTAMP: i64 = 8_210_266_876_799i64;

/// How long an access token stays valid, in seconds.
pub const TOKEN_LIFETIME_SECONDS: i64 = 300i64;

/// The claims of an access token issued at `now` to a user: they expire
/// five minutes later; there are none when that moment lies beyond the
/// dates `chrono` can represent.
pub fn claims_for(subject_id: i32, now: i64) -> (r: Option<Claims>)
    ensures
        r is Some <==> now + TOKEN_LIFETIME_SECONDS <= MAX_UTC_TIMESTAMP,
        r matches Some(c) ==> (c == Claims {
            subject_id,
            exp: ((now + TOKEN_LIFETIME_SECONDS) as i64) as usize,
        }),
{
    if now > MAX_UTC_TIMESTAMP - TOKEN_LIFETIME_SECONDS {
        None
    } else {
        let expiration: i64 = now + TOKEN_LIFETIME_SECONDS;
        Some(Claims { subject_id, exp: expiration as usize })
    }
}

// ---------------------------------------------------------------------------
// Request guard
// ---------------------------------------------------------------------------

/// HTTP status with which a request is turned away by the token guard.
pub const GUARD_FAILURE_STATUS: u16 = 400u16;

/// First step of authenticating a request: the token to decode, taken from
/// the `authorization` header; a request without the header is refused.
pub fn token_from_header(header: Option<&str>) -> (r: Result<String, CustomResponse>)
    ensures
        header is None ==> r == Err::<String, CustomResponse>(CustomResponse::BadRequest),
        header matches Some(key) ==> r matches Ok(token) && token@ == trim_white_space(
            strip_bearer(key@),
        ),
{
    match header {
        None => Err(CustomResponse::BadRequest),
        Some(key) => Ok(bearer_token(key)),
    }
}

/// Second step: the claims of a token that decoded and validated make the
/// request authenticated; any other token is refused.
pub fn guard_from_claims(decoded: Option<Claims>) -> (r: Result<JWT, CustomResponse>)
    ensures
        decoded matches Some(claims) ==> r == Ok::<JWT, CustomResponse>(JWT { claims }),
        decoded is None ==> r == Err::<JWT, CustomResponse>(CustomResponse::Unauthorized),
{
    match decoded {
        Some(claims) => Ok(JWT { claims }),
        None => Err(CustomResponse::Unauthorized),
    }
}

} // verus!
