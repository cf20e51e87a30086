//! Authentication and authorization decisions.
//!
//! The credential itself is verified by an auth oracle outside this crate
//! (a JWT verifier); only its verdict enters the logic here. What is
//! decided here: how a bearer credential is pulled out of a header value,
//! whether a verified role may pass a role guard, what a login attempt
//! yields, and whether a state-changing request carries the expected
//! cross-site token.

use vstd::prelude::*;
use vstd::string::*;

use crate::ids::UserId;
use crate::protocol::{trim_bounds, trim_chars};

verus! {

/// Claims carried by a verified bearer credential: who the caller is, the
/// role it acts under, and the lifetime of the credential.
pub struct Claims {
    pub sub: UserId,
    pub email: String,
    pub role: String,
    pub exp: usize,
    pub iat: usize,
}

/// The auth oracle's verdict on one presented credential.
pub enum CredentialCheck {
    /// The credential verified; these are its claims.
    Accepted(Claims),
    /// The credential is invalid or expired.
    Rejected,
}

/// A registration request as the public API receives it.
pub struct RegisterRequest {
    pub name: String,
    pub email: String,
    pub password: String,
    pub role: String,
}

/// A login request as the public API receives it.
pub struct LoginRequest {
    pub email: String,
    pub password: String,
}

/// What a successful registration or login returns: the fresh credential.
pub struct AuthResponse {
    pub token: String,
}

/// A registration after request decoding, as the store receives it.
pub struct RegisterInput {
    pub name: String,
    pub email: String,
    pub password: String,
}

/// A login after request decoding.
pub struct LoginInput {
    pub email: String,
    pub password: String,
}

/// The bearer credential of an `Authorization` header value: whatever
/// follows the `Bearer ` prefix, or nothing when the prefix is absent.
pub open spec fn bearer_token(s: Seq<char>) -> Option<Seq<char>> {
    if s.len() >= 7 && s.subrange(0, 7) == "Bearer "@ {
        Some(s.skip(7))
    } else {
        None
    }
}

/// Pull the bearer credential out of an `Authorization` header value.
pub fn strip_bearer(header: &str) -> (r: Option<String>)
    ensures
        r is Some <==> bearer_token(header@) is Some,
        r matches Some(t) ==> t@ == bearer_token(header@)->0,
{
    proof {
        reveal_strlit("Bearer ");
    }
    let n = header.unicode_len();
    if n < 7 {
        return None;
    }
    if header.get_char(0) == 'B' && header.get_char(1) == 'e' && header.get_char(2) == 'a'
        && header.get_char(3) == 'r' && header.get_char(4) == 'e' && header.get_char(5) == 'r'
        && header.get_char(6) == ' ' {
        proof {
            assert(header@.subrange(0, 7) =~= "Bearer "@);
        }
        Some(String::from_str(header.substring_char(7, n)))
    } else {
        proof {
            if header@.subrange(0, 7) == "Bearer "@ {
                assert forall|j: int| 0 <= j < 7 implies header@[j] == "Bearer "@[j] by {
                    assert(header@.subrange(0, 7)[j] == header@[j]);
                }
                assert(header@[0] == 'B' && header@[1] == 'e' && header@[2] == 'a' && header@[3]
                    == 'r' && header@[4] == 'e' && header@[5] == 'r' && header@[6] == ' ');
            }
        }
        None
    }
}

/// `c` with an ASCII capital letter mapped to its small form; any other
/// character is left alone.
pub open spec fn lower_char(c: char) -> char {
    if 65 <= c as u32 <= 90 {
        (((c as u32) + 32) as u8) as char
    } else {
        c
    }
}

/// `s` mapped through `lower_char`.
pub open spec fn lower_chars(s: Seq<char>) -> Seq<char> {
    s.map_values(|c: char| lower_char(c))
}

/// A role as the guard reads it: surrounding blanks removed and ASCII
/// capitals lowered.
pub open spec fn normalized_role(s: Seq<char>) -> Seq<char> {
    lower_chars(trim_chars(s))
}

/// Executable form of `lower_char`.
fn lower_char_exec(c: char) -> (r: char)
    ensures
        r == lower_char(c),
{
    let u = c as u32;
    if 65 <= u && u <= 90 {
        ((u + 32) as u8) as char
    } else {
        c
    }
}

/// Whether the claimed role, once normalized, is exactly `allowed`.
pub fn role_matches(claimed: &str, allowed: &str) -> (r: bool)
    ensures
        r == (normalized_role(claimed@) == allowed@),
{
    let n = claimed.unicode_len();
    let (a, b) = trim_bounds(claimed, 0, n);
    proof {
        assert(claimed@.subrange(0, n as int) =~= claimed@);
    }
    let m = allowed.unicode_len();
    if b - a != m {
        proof {
            assert(normalized_role(claimed@).len() == b - a);
        }
        return false;
    }
    let mut k: usize = 0;
    while k < m
        invariant
            k <= m,
            m == allowed@.len(),
            a + m == b,
            0 <= a <= b <= claimed@.len(),
            claimed@.subrange(a as int, b as int) == trim_chars(claimed@),
            forall|j: int| 0 <= j < k ==> lower_char(claimed@[a + j]) == allowed@[j],
        decreases m - k,
    {
        if lower_char_exec(claimed.get_char(a + k)) != allowed.get_char(k) {
            proof {
                assert(trim_chars(claimed@)[k as int] == claimed@[a + k]);
                assert(normalized_role(claimed@)[k as int] == lower_char(claimed@[a + k]));
            }
            return false;
        }
        k = k + 1;
    }
    proof {
        assert forall|j: int| 0 <= j < m implies normalized_role(claimed@)[j] == allowed@[j] by {
            assert(trim_chars(claimed@)[j] == claimed@[a + j]);
        }
        assert(normalized_role(claimed@) =~= allowed@);
    }
    true
}

/// Whether the claimed role, once normalized, is one of the allowed roles.
/// This is the decision of the role guard in front of protected routes.
pub fn role_allowed(claimed: &str, allowed: &Vec<String>) -> (r: bool)
    ensures
        r == exists|k: int|
            0 <= k < allowed@.len() && normalized_role(claimed@) == (#[trigger] allowed@[k])@,
{
    let n = allowed.len();
    let mut k: usize = 0;
    while k < n
        invariant
            k <= n,
            n == allowed@.len(),
            forall|j: int| 0 <= j < k ==> normalized_role(claimed@) != (#[trigger] allowed@[j])@,
        decreases n - k,
    {
        if role_matches(claimed, allowed[k].as_str()) {
            return true;
        }
        k = k + 1;
    }
    false
}

/// What a login attempt yields, given what the store and the password
/// check said.
pub enum LoginDecision {
    /// The account exists, the password matches and the account is active:
    /// issue a credential.
    Accept,
    /// No such account, or the password does not match.
    WrongCredentials,
    /// Account and password are right but the account is disabled.
    Disabled,
}

/// The login decision: an unknown account and a wrong password are
/// indistinguishable to the caller; a disabled account is only reported as
/// such once the password matched.
pub fn login_outcome(user_found: bool, password_ok: bool, is_active: bool) -> (r: LoginDecision)
    ensures
        r is Accept <==> (user_found && password_ok && is_active),
        r is WrongCredentials <==> (!user_found || !password_ok),
        r is Disabled <==> (user_found && password_ok && !is_active),
{
    if !user_found || !password_ok {
        LoginDecision::WrongCredentials
    } else if !is_active {
        LoginDecision::Disabled
    } else {
        LoginDecision::Accept
    }
}

/// Character-for-character equality of two strings.
pub(crate) fn str_eq(a: &str, b: &str) -> (r: bool)
    ensures
        r == (a@ == b@),
{
    let n = a.unicode_len();
    let m = b.unicode_len();
    if n != m {
        return false;
    }
    let mut k: usize = 0;
    while k < n
        invariant
            k <= n,
            n == a@.len(),
            n == b@.len(),
            forall|j: int| 0 <= j < k ==> a@[j] == b@[j],
        decreases n - k,
    {
        if a.get_char(k) != b.get_char(k) {
            return false;
        }
        k = k + 1;
    }
    proof {
        assert(a@ =~= b@);
    }
    true
}

/// Whether a state-changing request carries the expected cross-site token.
/// Absence and a wrong value are both refused.
pub fn csrf_allows(header: Option<&str>) -> (r: bool)
    ensures
        r == (header matches Some(t) && t@ == "secure-static-token"@),
{
    match header {
        Some(t) => str_eq(t, "secure-static-token"),
        None => false,
    }
}

} // verus!
