//! Bearer-token authentication: which requests pass without a token, how a
//! token is read, and how a request is decided.

use crate::text;
use vstd::prelude::*;

verus! {

/// Whether a path needs no token. Paths match as a whole.
pub open spec fn public_path(path: Seq<char>) -> bool {
    path == "/health"@ || path == "/version"@
}

/// Whether a path needs no token.
pub fn is_public(request_path: &str) -> (r: bool)
    ensures
        r == public_path(request_path@),
{
    text::same_text(request_path, "/health") || text::same_text(request_path, "/version")
}

proof fn lemma_diff(d: u8, x: u8, y: u8)
    ensures
        (d | (x ^ y)) == 0 <==> d == 0 && x == y,
{
    assert((d | (x ^ y)) == 0 <==> d == 0 && x == y) by (bit_vector);
}

/// Whether two byte strings are equal. Bytes of equal length are all looked
/// at, so that the time taken says nothing of where they differ.
pub fn constant_time_eq(a: &[u8], b: &[u8]) -> (r: bool)
    ensures
        r == (a@ == b@),
{
    if a.len() != b.len() {
        return false;
    }
    let mut diff: u8 = 0;
    let mut i: usize = 0;
    proof {
        assert(a@.take(0) =~= b@.take(0));
    }
    while i < a.len()
        invariant
            i <= a@.len(),
            a@.len() == b@.len(),
            diff == 0 <==> a@.take(i as int) == b@.take(i as int),
        decreases a@.len() - i,
    {
        proof {
            lemma_diff(diff, a@[i as int], b@[i as int]);
            let s = a@.take(i + 1);
            let t = b@.take(i + 1);
            assert(s.drop_last() =~= a@.take(i as int));
            assert(t.drop_last() =~= b@.take(i as int));
            assert(s =~= a@.take(i as int).push(a@[i as int]));
            assert(t =~= b@.take(i as int).push(b@[i as int]));
            assert(s == t ==> s.last() == t.last() && s.drop_last() == t.drop_last());
        }
        diff = diff | (a[i] ^ b[i]);
        i = i + 1;
    }
    proof {
        assert(a@.take(i as int) =~= a@);
        assert(b@.take(i as int) =~= b@);
    }
    diff == 0
}

/// The token of an `Authorization` header.
pub open spec fn bearer_of(header: Option<Seq<char>>) -> Option<Seq<char>> {
    match header {
        Some(s) => if text::begins_with(s, "Bearer "@) {
            let token = text::trimmed(s.skip("Bearer "@.len() as int));
            if token.len() == 0 {
                None
            } else {
                Some(token)
            }
        } else {
            None
        },
        None => None,
    }
}

/// Reads the token of an `Authorization` header. None is given where the
/// header is missing or not text.
pub fn extract_bearer(header: Option<&str>) -> (r: Option<String>)
    ensures
        text::opt_text(r) == bearer_of(text::opt_str(header)),
{
    match header {
        Some(s) => match text::strip_prefix(s, "Bearer ") {
            Some(rest) => {
                let token = text::trim(rest.as_str());
                if token.as_str().is_empty() {
                    None
                } else {
                    Some(token)
                }
            },
            None => None,
        },
        None => None,
    }
}

/// The answer to a refused request.
#[derive(Debug)]
pub struct Refusal {
    /// HTTP status.
    pub status: u16,
    /// Value of the `WWW-Authenticate` header.
    pub challenge: &'static str,
    /// The whole body, as plain text.
    pub body: &'static str,
}

/// Whether an answer is the one to a refused request: it asks for a bearer
/// token and says nothing of why.
pub open spec fn unauthorized(r: Refusal) -> bool {
    r.status == 401 && r.challenge@ == "Bearer"@ && r.body@ == "Unauthorized"@
}

/// The answer to a refused request.
pub fn unauthorized_response() -> (r: Refusal)
    ensures
        unauthorized(r),
{
    Refusal { status: 401, challenge: "Bearer", body: "Unauthorized" }
}

/// What a request needs first.
#[derive(Debug)]
pub enum AuthStep {
    /// It passes.
    Pass,
    /// It is refused with this answer.
    Refuse(Refusal),
    /// Its token is looked up.
    LookUp(String),
}

/// Decides what a request needs, from its path and `Authorization` header.
pub fn require_token(path: &str, header: Option<&str>) -> (r: AuthStep)
    ensures
        match r {
            AuthStep::Pass => public_path(path@),
            AuthStep::Refuse(a) => {
                &&& !public_path(path@)
                &&& bearer_of(text::opt_str(header)) is None
                &&& unauthorized(a)
            },
            AuthStep::LookUp(token) => !public_path(path@) && bearer_of(text::opt_str(header))
                == Some(token@),
        },
{
    if is_public(path) {
        return AuthStep::Pass;
    }
    match extract_bearer(header) {
        Some(token) => AuthStep::LookUp(token),
        None => AuthStep::Refuse(unauthorized_response()),
    }
}

/// What looking a token up in the table gave.
#[derive(Debug, Clone, Copy, PartialEq, Eq, Structural)]
pub enum TokenLookup {
    /// An active row.
    Found,
    /// No active row.
    NotFound,
    /// A failure.
    Failed,
}

/// Whether the table of tokens is known to be empty; not where the rows could
/// not be counted.
pub fn tokens_table_is_empty(count: Option<i64>) -> (r: bool)
    ensures
        r == (count == Some(0i64)),
{
    match count {
        Some(n) => n == 0,
        None => false,
    }
}

/// Whether a request with a token passes. The configured token counts only
/// while the table of tokens is empty.
pub open spec fn lets_in(
    presented: Seq<char>,
    lookup: TokenLookup,
    admin_token: Option<Seq<char>>,
    table_empty: bool,
) -> bool {
    match lookup {
        TokenLookup::Found => true,
        TokenLookup::Failed => false,
        TokenLookup::NotFound => table_empty && admin_token == Some(presented),
    }
}

/// Decides on a request with a token.
pub fn decide_token(
    presented: &str,
    lookup: TokenLookup,
    admin_token: Option<&str>,
    table_empty: bool,
) -> (r: bool)
    ensures
        r == lets_in(presented@, lookup, text::opt_str(admin_token), table_empty),
{
    match lookup {
        TokenLookup::Found => true,
        TokenLookup::Failed => false,
        TokenLookup::NotFound => match admin_token {
            Some(expected) => {
                proof {
                    vstd::utf8::encode_utf8_decode_utf8(presented@);
                    vstd::utf8::encode_utf8_decode_utf8(expected@);
                }
                table_empty && constant_time_eq(presented.as_bytes(), expected.as_bytes())
            },
            None => false,
        },
    }
}

/// The end of a request with a token, from what looking it up gave and the
/// number of tokens, where they could be counted.
pub fn settle_token(
    presented: &str,
    lookup: TokenLookup,
    admin_token: Option<&str>,
    count: Option<i64>,
) -> (r: Result<(), Refusal>)
    ensures
        match r {
            Ok(()) => lets_in(presented@, lookup, text::opt_str(admin_token), count == Some(0i64)),
            Err(a) => {
                &&& !lets_in(presented@, lookup, text::opt_str(admin_token), count == Some(0i64))
                &&& unauthorized(a)
            },
        },
{
    if decide_token(presented, lookup, admin_token, tokens_table_is_empty(count)) {
        Ok(())
    } else {
        Err(unauthorized_response())
    }
}

/// Whether a request passes, from its path and `Authorization` header, what
/// looking its token up gave, the configured token, and the number of tokens,
/// where they could be counted. Any other request is refused.
pub open spec fn passes(
    path: Seq<char>,
    header: Option<Seq<char>>,
    lookup: TokenLookup,
    admin_token: Option<Seq<char>>,
    count: Option<i64>,
) -> bool {
    public_path(path) || (bearer_of(header) matches Some(token) && lets_in(
        token,
        lookup,
        admin_token,
        count == Some(0i64),
    ))
}

/// Nothing but a public path passes without a token or where the lookup
/// fails. Where the tokens cannot be counted only a row lets a request pass.
pub proof fn law_failures_refuse(
    path: Seq<char>,
    header: Option<Seq<char>>,
    lookup: TokenLookup,
    admin_token: Option<Seq<char>>,
    count: Option<i64>,
)
    requires
        !public_path(path),
    ensures
        bearer_of(header) is None ==> !passes(path, header, lookup, admin_token, count),
        lookup is Failed ==> !passes(path, header, lookup, admin_token, count),
        count is None && lookup !is Found ==> !passes(path, header, lookup, admin_token, count),
{
}

/// Everything is refused by default: without a row for the token and without
/// a configured token no request passes, nor does any once the table has rows
/// and none matches.
pub proof fn law_default_deny(presented: Seq<char>, admin: Option<Seq<char>>, empty: bool)
    ensures
        !lets_in(presented, TokenLookup::NotFound, None, empty),
        !lets_in(presented, TokenLookup::NotFound, admin, false),
        !lets_in(presented, TokenLookup::Failed, admin, empty),
{
}

/// Only the health check and the version are open to all.
pub proof fn law_public_paths(path: Seq<char>)
    ensures
        public_path("/health"@),
        public_path("/version"@),
        path != "/health"@ && path != "/version"@ ==> !public_path(path),
{
}

/// A token stands behind `Bearer ` and is read without the blanks around it.
/// There is none behind any other beginning, nor where only blanks follow.
pub proof fn law_token_behind_bearer(token: Seq<char>, header: Seq<char>)
    ensures
        bearer_of(None) is None,
        text::trimmed(token).len() > 0 ==> bearer_of(Some("Bearer "@ + token)) == Some(
            text::trimmed(token),
        ),
        text::trimmed(token).len() == 0 ==> bearer_of(Some("Bearer "@ + token)) is None,
        bearer_of(Some(header)) is Some ==> header.take(7) == "Bearer "@ && header.len() > 7,
{
    reveal_strlit("Bearer ");
    let full = "Bearer "@ + token;
    assert(full.take("Bearer "@.len() as int) =~= "Bearer "@);
    assert(full.skip("Bearer "@.len() as int) =~= token);
    if bearer_of(Some(header)) is Some {
        assert(header.take(7) =~= "Bearer "@);
        text::law_trim_takes_whitespace(header.skip(7));
        if header.len() == 7 {
            assert(header.skip(7) =~= Seq::<char>::empty());
            assert(text::trimmed(header.skip(7)).len() == 0);
        }
    }
}

/// A token with a row is let in. One without is let in exactly where it is the
/// configured one and the table is empty.
pub proof fn law_who_is_let_in(
    presented: Seq<char>,
    other: Seq<char>,
    admin: Option<Seq<char>>,
    empty: bool,
)
    requires
        presented != other,
    ensures
        lets_in(presented, TokenLookup::Found, admin, empty),
        lets_in(presented, TokenLookup::NotFound, Some(presented), true),
        !lets_in(presented, TokenLookup::NotFound, Some(other), true),
{
}

/// A request passes on a public path whatever it holds, and with a token that
/// has a row on every path.
pub proof fn law_passes(
    path: Seq<char>,
    header: Option<Seq<char>>,
    lookup: TokenLookup,
    admin: Option<Seq<char>>,
    count: Option<i64>,
)
    ensures
        passes("/health"@, header, lookup, admin, count),
        passes("/version"@, header, lookup, admin, count),
        bearer_of(header) is Some ==> passes(path, header, TokenLookup::Found, admin, count),
        bearer_of(header) is Some && admin == bearer_of(header) ==> passes(
            path,
            header,
            TokenLookup::NotFound,
            admin,
            Some(0i64),
        ),
{
}

/// The answer to a refused request is a 401 that asks for a bearer token.
pub proof fn law_refusal(r: Refusal)
    ensures
        unauthorized(r) <==> r.status == 401 && r.challenge@ == "Bearer"@ && r.body@
            == "Unauthorized"@,
{
}

} // verus!
