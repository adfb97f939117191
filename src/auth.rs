//! Login against the stored (hashed) credentials, and the bearer-token gate.
use vstd::prelude::*;
use vstd::string::*;
use crate::digest::{encrypt_password, hex_of, sha256_of};
use crate::lookup::{first_where, is_first, lemma_first_where_none, lemma_first_where_some};
use crate::response::{ApiResponse, FAILURE_CODE, SUCCESS_CODE};
use crate::settings::AdminUser;
use crate::text::{has_prefix, starts_with_text, text_eq};

verus! {

/// A login attempt.
pub struct LoginRequest {
    pub username: String,
    pub password: String,
}

/// Every token this service hands out starts with this text.
pub open spec fn token_prefix() -> Seq<char> {
    "mock-token-for-"@
}

/// The decimal digits of `n`.
pub open spec fn digits_of(n: nat) -> Seq<char>
    decreases n,
{
    if n < 10 {
        seq!["0123456789"@[n as int]]
    } else {
        digits_of(n / 10).push("0123456789"@[(n % 10) as int])
    }
}

/// `n` written in decimal, with a leading `-` where negative.
pub open spec fn decimal_of(n: int) -> Seq<char> {
    if n < 0 {
        seq!['-'] + digits_of((-n) as nat)
    } else {
        digits_of(n as nat)
    }
}

/// The decimal digits of `m`.
fn digits(m: u64) -> (r: String)
    ensures
        r@ == digits_of(m as nat),
    decreases m,
{
    proof {
        reveal_strlit("0123456789");
    }
    if m < 10 {
        let d = m as usize;
        String::from_str("0123456789".substring_char(d, d + 1))
    } else {
        let mut r = digits(m / 10);
        let d = (m % 10) as usize;
        let c = "0123456789".substring_char(d, d + 1);
        r.append(c);
        assert(r@ =~= digits_of((m / 10) as nat).push("0123456789"@[d as int]));
        r
    }
}

/// `n` in decimal, with a leading `-` where negative.
fn decimal(n: i32) -> (r: String)
    ensures
        r@ == decimal_of(n as int),
{
    let v = n as i64;
    if v < 0 {
        let mut r = String::from_str("-");
        let d = digits((-v) as u64);
        r.append(d.as_str());
        proof {
            reveal_strlit("-");
        }
        r
    } else {
        digits(v as u64)
    }
}

/// The token issued to user `id`.
pub fn session_token(id: i32) -> (r: String)
    ensures
        r@ == token_prefix() + decimal_of(id as int),
{
    let mut t = String::from_str("mock-token-for-");
    let d = decimal(id);
    t.append(d.as_str());
    t
}

/// The message of a failed login.
pub open spec fn login_failed_message() -> Seq<char> {
    "账号或密码错误"@
}

/// The user a login matches: the first whose stored username and password are the
/// hashes of those given.
pub open spec fn login_match(users: Seq<AdminUser>, req: LoginRequest) -> Option<int> {
    first_where(
        users.len() as int,
        |i: int|
            users[i].username@ == hex_of(sha256_of(req.username@)) && users[i].password@ == hex_of(
                sha256_of(req.password@),
            ),
    )
}

/// Checks a login: on a match, success with the user's token; otherwise failure with
/// the login-failed message.
pub fn login(users: &Vec<AdminUser>, req: &LoginRequest) -> (r: ApiResponse<String>)
    ensures
        match login_match(users@, *req) {
            Some(i) => r.code == SUCCESS_CODE && r.data@ == token_prefix() + decimal_of(
                users@[i].id as int,
            ),
            None => r.code == FAILURE_CODE && r.message@ == login_failed_message() && r.data@
                == Seq::<char>::empty(),
        },
{
    let name = encrypt_password(req.username.as_str());
    let pass = encrypt_password(req.password.as_str());
    let ghost p = |i: int|
        users@[i].username@ == hex_of(sha256_of(req.username@)) && users@[i].password@ == hex_of(
            sha256_of(req.password@),
        );
    let mut i: usize = 0;
    while i < users.len()
        invariant
            i <= users@.len(),
            name@ == hex_of(sha256_of(req.username@)),
            pass@ == hex_of(sha256_of(req.password@)),
            p == (|i: int|
                users@[i].username@ == hex_of(sha256_of(req.username@)) && users@[i].password@
                    == hex_of(sha256_of(req.password@))),
            forall|j: int| 0 <= j < i ==> !#[trigger] p(j),
        decreases users@.len() - i,
    {
        if text_eq(users[i].username.as_str(), name.as_str()) && text_eq(
            users[i].password.as_str(),
            pass.as_str(),
        ) {
            proof {
                assert(is_first(users@.len() as int, p, i as int));
                lemma_first_where_some(users@.len() as int, p, i as int);
            }
            return ApiResponse::success(session_token(users[i].id));
        }
        i = i + 1;
    }
    proof {
        lemma_first_where_none(users@.len() as int, p);
    }
    ApiResponse::error("账号或密码错误")
}

/// Whether a request may reach the admin routes: its `Authorization` header starts
/// with the session-token prefix.
pub fn is_authorized(header: &Option<String>) -> (r: bool)
    ensures
        r == (header matches Some(h) && has_prefix(h@, token_prefix())),
{
    match header {
        Some(h) => starts_with_text(h.as_str(), "mock-token-for-"),
        None => false,
    }
}

} // verus!
