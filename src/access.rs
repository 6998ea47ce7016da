use vstd::prelude::*;
use vstd::string::StringSliceAdditionalSpecFns;
use vstd::utf8::{decode_utf8, is_char_boundary};

use crate::account::Claims;

verus! {

/// Why a request is refused before it reaches a protected route.
#[derive(Clone, Copy, Debug, PartialEq, Eq, Structural)]
pub enum AuthError {
    /// No `Authorization` header.
    MissingHeader,
    /// The header does not start with `Bearer ` (in any letter case).
    BadHeaderFormat,
    /// The token's subject is not a user identifier.
    InvalidToken,
}

/// The lowercase form of a string, as `str::to_lowercase` gives it.
pub uninterp spec fn lower_of(s: Seq<char>) -> Seq<char>;

/// A string without its leading and trailing whitespace, as `str::trim` gives it.
pub uninterp spec fn trimmed_of(s: Seq<char>) -> Seq<char>;

/// The 128-bit value of a textual UUID, or `None` when the text is not one.
pub uninterp spec fn uuid_of(s: Seq<char>) -> Option<u128>;

/// `p` is a prefix of `s`.
pub open spec fn is_prefix(p: Seq<char>, s: Seq<char>) -> bool {
    p.len() <= s.len() && s.subrange(0, p.len() as int) == p
}

/// Relies on `str::starts_with` with a string pattern: true exactly when the pattern
/// is a prefix.
#[verifier::external_body]
fn starts_with(s: &str, p: &str) -> (r: bool)
    ensures
        r == is_prefix(p@, s@),
{
    s.starts_with(p)
}

/// Relies on `str::to_lowercase`: the result depends on the characters alone.
#[verifier::external_body]
fn lowercase(s: &str) -> (r: String)
    ensures
        r@ == lower_of(s@),
{
    s.to_lowercase()
}

/// Relies on `str::trim`: the result depends on the characters alone.
#[verifier::external_body]
fn trim(s: &str) -> (r: &str)
    ensures
        r@ == trimmed_of(s@),
{
    s.trim()
}

/// Relies on `uuid::Uuid::parse_str`, read back with `Uuid::as_u128`: the result
/// depends on the characters alone.
#[verifier::external_body]
fn parse_uuid(s: &str) -> (r: Option<u128>)
    ensures
        r == uuid_of(s@),
{
    match uuid::Uuid::parse_str(s) {
        Ok(u) => Some(u.as_u128()),
        Err(_) => None,
    }
}

/// Paths that need no token.
pub open spec fn public_path(p: Seq<char>) -> bool {
    is_prefix("/auth/"@, p) || p == "signin"@ || p == "signup"@
}

/// Whether a request for `path` passes without a token.
pub fn is_public_path(path: &str) -> (r: bool)
    ensures
        r == public_path(path@),
{
    if starts_with(path, "/auth/") {
        return true;
    }
    let signin = starts_with(path, "signin") && starts_with("signin", path);
    let signup = starts_with(path, "signup") && starts_with("signup", path);
    assert(path@.subrange(0, path@.len() as int) =~= path@);
    assert("signin"@.subrange(0, "signin"@.len() as int) =~= "signin"@);
    assert("signup"@.subrange(0, "signup"@.len() as int) =~= "signup"@);
    assert(signin ==> path@ =~= "signin"@);
    assert(signup ==> path@ =~= "signup"@);
    signin || signup
}

/// The token of an `Authorization` header with bytes `h`, given its lowercase form
/// `lowered`: what follows the seven bytes of `bearer `, trimmed.
pub open spec fn bearer_spec(h: Seq<u8>, lowered: Seq<char>) -> Result<Seq<char>, AuthError> {
    if is_prefix("bearer "@, lowered) && is_char_boundary(h, 7) {
        Ok(trimmed_of(decode_utf8(h.subrange(7, h.len() as int))))
    } else {
        Err(AuthError::BadHeaderFormat)
    }
}

/// The token of `header`, whose lowercase form is `lowered`.
pub fn bearer_token_of<'a>(header: &'a str, lowered: &str) -> (r: Result<&'a str, AuthError>)
    ensures
        match bearer_spec(header.spec_bytes(), lowered@) {
            Ok(t) => r is Ok && r->Ok_0@ == t,
            Err(e) => r == Err::<&str, AuthError>(e),
        },
{
    if !starts_with(lowered, "bearer ") || !header.is_char_boundary(7) {
        return Err(AuthError::BadHeaderFormat);
    }
    let (_, rest) = header.split_at(7);
    proof {
        broadcast use vstd::utf8::encode_utf8_decode_utf8;

        assert(rest@ == decode_utf8(header.spec_bytes().subrange(
            7,
            header.spec_bytes().len() as int,
        )));
    }
    Ok(trim(rest))
}

/// The bearer token of a request's `Authorization` header, if it has a usable one.
pub fn bearer_token<'a>(header: Option<&'a str>) -> (r: Result<&'a str, AuthError>)
    ensures
        header is None ==> r == Err::<&str, AuthError>(AuthError::MissingHeader),
        header matches Some(h) ==> match bearer_spec(h.spec_bytes(), lower_of(h@)) {
            Ok(t) => r is Ok && r->Ok_0@ == t,
            Err(e) => r == Err::<&str, AuthError>(e),
        },
{
    match header {
        None => Err(AuthError::MissingHeader),
        Some(h) => {
            let lowered = lowercase(h);
            bearer_token_of(h, lowered.as_str())
        },
    }
}

/// The user a verified token speaks for, from its subject.
pub fn user_of_claims(claims: &Claims) -> (r: Result<u128, AuthError>)
    ensures
        r == match uuid_of(claims.sub@) {
            Some(u) => Ok::<u128, AuthError>(u),
            None => Err(AuthError::InvalidToken),
        },
{
    match parse_uuid(claims.sub.as_str()) {
        Some(u) => Ok(u),
        None => Err(AuthError::InvalidToken),
    }
}

} // verus!
