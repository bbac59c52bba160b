//! Pairing codes: issuing them, matching a presented code and handing out the
//! token of a device.

use crate::error;
use crate::journal;
use crate::rate_limit;
use crate::rate_limit::{CheckResult, RateLimiter};
use crate::text;
use vstd::prelude::*;

verus! {

/// Path of the endpoint that a device without a token calls.
pub const CONSUME_PUBLIC_PATH: &'static str = "/pairing/consume";

/// Letters of a code: `A`-`Z` without `I`, `O`, `S` and `Z`.
pub const CODE_ALPHABET: &'static str = "ABCDEFGHJKLMNPQRTUVWXY";

/// Lifetime of a code where none is asked for.
pub const DEFAULT_LIFETIME_MINUTES: u32 = 10;

/// Longest lifetime of a code: one day.
pub const MAX_LIFETIME_MINUTES: u32 = 1440;

/// A pairing code as it is listed, without the code itself.
#[derive(Debug)]
pub struct PairingCodeRow {
    /// The row.
    pub code_id: i64,
    /// Label of the device.
    pub device_label: String,
    /// Scopes of the token.
    pub scopes: Vec<String>,
    /// Time of issue, Unix seconds.
    pub issued_at: i64,
    /// End of validity, Unix seconds.
    pub expires_at: i64,
    /// The token that was issued for it.
    pub consumed_token_id: Option<i64>,
}

/// A request for a code.
#[derive(Debug)]
pub struct CreatePairingCodeRequest {
    /// Label of the device.
    pub device_label: String,
    /// Scopes of the token.
    pub scopes: Vec<String>,
    /// Lifetime of the code.
    pub expires_in_minutes: Option<u32>,
}

/// The answer to a request for a code. The code is shown this once.
#[derive(Debug)]
pub struct CreatePairingCodeResponse {
    /// The code.
    pub code: String,
    /// Its row.
    pub row: PairingCodeRow,
}

/// A presented code.
#[derive(Debug)]
pub struct ConsumePairingCodeRequest {
    /// The code, in either case.
    pub code: String,
    /// Label that the device asks for.
    pub device_label: Option<String>,
}

/// A token as it is listed.
#[derive(Debug)]
pub struct TokenRow {
    /// The token.
    pub token_id: i64,
    /// Its user.
    pub user_id: i64,
    /// Label.
    pub nickname: Option<String>,
    /// Scopes.
    pub scopes: Vec<String>,
    /// Time of issue, Unix seconds.
    pub issued_at: i64,
    /// Time of the last use.
    pub last_used_at: Option<i64>,
    /// End of validity.
    pub expires_at: Option<i64>,
    /// Time of revocation.
    pub revoked_at: Option<i64>,
}

/// The answer to a presented code. The token is shown this once.
#[derive(Debug)]
pub struct ConsumePairingCodeResponse {
    /// The token.
    pub token: String,
    /// Its row.
    pub row: TokenRow,
}

// ── Codes ──────────────────────────────────────────────────────────

/// The letter that a random byte selects.
pub open spec fn letter(b: u8) -> char {
    CODE_ALPHABET@[(b % 22) as int]
}

/// The code of eight random bytes: four letters, a dash, four letters.
pub open spec fn code_text(bytes: Seq<u8>) -> Seq<char> {
    Seq::new(
        9,
        |i: int|
            if i < 4 {
                letter(bytes[i])
            } else if i == 4 {
                '-'
            } else {
                letter(bytes[i - 1])
            },
    )
}

/// The code of eight random bytes.
pub fn code_of(bytes: &[u8; 8]) -> (s: String)
    ensures
        s@ == code_text(bytes@),
{
    let alphabet = text::chars_of(CODE_ALPHABET);
    proof {
        reveal_strlit("ABCDEFGHJKLMNPQRTUVWXY");
    }
    let mut s = String::new();
    let mut i: usize = 0;
    while i < 8
        invariant
            i <= 8,
            alphabet@ == CODE_ALPHABET@,
            alphabet@.len() == 22,
            s@ == code_text(bytes@).take(if i <= 4 {
                i as int
            } else {
                i + 1
            }),
        decreases 8 - i,
    {
        if i == 4 {
            s.push('-');
        }
        let k: usize = (bytes[i] % 22) as usize;
        s.push(alphabet[k]);
        i = i + 1;
        proof {
            assert(s@ =~= code_text(bytes@).take(if i <= 4 {
                i as int
            } else {
                i + 1
            }));
        }
    }
    proof {
        assert(code_text(bytes@).take(9) =~= code_text(bytes@));
    }
    s
}

/// Fills eight bytes from `argon2::password_hash::rand_core::OsRng`. Nothing
/// is known of their values. The call fails only where the operating system
/// has no source of randomness.
#[verifier::external_body]
fn random_bytes() -> (bytes: [u8; 8]) {
    let mut bytes = [0_u8; 8];
    argon2::password_hash::rand_core::RngCore::fill_bytes(
        &mut argon2::password_hash::rand_core::OsRng,
        &mut bytes,
    );
    bytes
}

/// Whether `c` is a letter of a code.
pub open spec fn code_letter(c: char) -> bool {
    CODE_ALPHABET@.contains(c)
}

/// Whether `s` has the shape of a code.
pub open spec fn code_shaped(s: Seq<char>) -> bool {
    &&& s.len() == 9
    &&& s[4] == '-'
    &&& forall|i: int| 0 <= i < 9 && i != 4 ==> code_letter(#[trigger] s[i])
}

/// Mints a code from random bytes.
pub fn mint_code() -> (s: String)
    ensures
        code_shaped(s@),
{
    let bytes = random_bytes();
    let s = code_of(&bytes);
    proof {
        law_code_shape(bytes@);
    }
    s
}

/// Whatever the bytes, the code has the shape of a code.
pub proof fn law_code_shape(bytes: Seq<u8>)
    ensures
        code_shaped(code_text(bytes)),
{
    reveal_strlit("ABCDEFGHJKLMNPQRTUVWXY");
    let c = code_text(bytes);
    assert forall|i: int| 0 <= i < 9 && i != 4 implies code_letter(#[trigger] c[i]) by {
        let b = if i < 4 {
            bytes[i]
        } else {
            bytes[i - 1]
        };
        assert(CODE_ALPHABET@[(b % 22) as int] == c[i]);
    }
}

/// A code reads the same however it is cased: what a device presents is
/// upper-cased before it is compared.
pub proof fn law_code_any_case(code: Seq<char>, typed: Seq<char>)
    requires
        code_shaped(code),
        text::ascii_lower(typed) == text::ascii_lower(code),
    ensures
        text::ascii_upper(typed) == code,
{
    text::law_upper_ignores_case(typed, code);
    reveal_strlit("ABCDEFGHJKLMNPQRTUVWXY");
    assert forall|i: int| 0 <= i < code.len() implies text::upper_char(code[i]) == code[i] by {
        if i != 4 {
            assert(code_letter(code[i]));
            let k = choose|k: int| 0 <= k < CODE_ALPHABET@.len() && CODE_ALPHABET@[k] == code[i];
            assert('A' <= CODE_ALPHABET@[k] <= 'Z');
        }
    }
    assert(text::ascii_upper(code) =~= code);
}

// ── Hashing ────────────────────────────────────────────────────────

/// Whether a presented code matches an encoded argon2 hash; none where the
/// hash cannot be read or checked.
pub uninterp spec fn code_verifies(presented: Seq<char>, encoded: Seq<char>) -> Option<bool>;

/// Whether a degree of parallelism of nine digits or more stands at `i`.
pub open spec fn wide_at(encoded: Seq<char>, i: int) -> bool {
    &&& 0 <= i
    &&& i + 11 <= encoded.len()
    &&& encoded[i] == 'p'
    &&& encoded[i + 1] == '='
    &&& forall|k: int| 2 <= k < 11 ==> '0' <= #[trigger] encoded[i + k] <= '9'
}

/// Whether an encoded hash can be handed to argon2: the degree of parallelism
/// that it names has at most eight digits. Larger ones are over argon2's own
/// limit, and are multiplied before they are compared with it.
pub open spec fn checkable(encoded: Seq<char>) -> bool {
    forall|i: int| !#[trigger] wide_at(encoded, i)
}

fn is_wide_at(v: &Vec<char>, i: usize) -> (r: bool)
    requires
        i < v@.len(),
    ensures
        r == wide_at(v@, i as int),
{
    let len: usize = v.len();
    if len - i < 11 || v[i] != 'p' || v[i + 1] != '=' {
        return false;
    }
    let mut k: usize = 2;
    while k < 11
        invariant
            2 <= k <= 11,
            i + 11 <= len,
            len == v@.len(),
            forall|j: int| 2 <= j < k ==> '0' <= #[trigger] v@[i + j] <= '9',
        decreases 11 - k,
    {
        let c = v[i + k];
        if c < '0' || c > '9' {
            proof {
                assert(v@[i + k as int] == c);
            }
            return false;
        }
        k = k + 1;
    }
    true
}

/// Whether an encoded hash can be handed to argon2.
fn is_checkable(encoded: &str) -> (r: bool)
    ensures
        r == checkable(encoded@),
{
    let v = text::chars_of(encoded);
    let mut i: usize = 0;
    while i < v.len()
        invariant
            i <= v@.len(),
            v@ == encoded@,
            forall|j: int| 0 <= j < i ==> !#[trigger] wide_at(v@, j),
        decreases v@.len() - i,
    {
        if is_wide_at(&v, i) {
            return false;
        }
        i = i + 1;
    }
    true
}

/// Parses `encoded` with `argon2::PasswordHash::new` and calls
/// `verify_password` of `argon2::Argon2::default()`. The result is a function
/// of both texts; a mismatch is `Some(false)`, any other error `None`. Hashes
/// on whose degree of parallelism argon2 may overflow are left out. The memory
/// that the hash asks for is allocated.
#[verifier::external_body]
fn verify_code(presented: &str, encoded: &str) -> (r: Option<bool>)
    requires
        checkable(encoded@),
    ensures
        r == code_verifies(presented@, encoded@),
{
    let parsed = argon2::PasswordHash::new(encoded).ok()?;
    let argon = argon2::Argon2::default();
    match argon2::PasswordVerifier::verify_password(&argon, presented.as_bytes(), &parsed) {
        Ok(()) => Some(true),
        Err(argon2::password_hash::Error::Password) => Some(false),
        Err(_) => None,
    }
}

/// Calls `hash_password` of `argon2::Argon2::default()` with a random salt.
/// The hash differs from call to call; it names a parallelism of one, and the
/// code it was made of verifies against it.
#[verifier::external_body]
fn hash_code(raw: &str) -> (r: Result<String, String>)
    ensures
        r matches Ok(h) ==> checkable(h@) && code_verifies(raw@, h@) == Some(true),
{
    let mut rng = argon2::password_hash::rand_core::OsRng;
    let salt = argon2::password_hash::SaltString::generate(&mut rng);
    let argon = argon2::Argon2::default();
    match argon2::PasswordHasher::hash_password(&argon, raw.as_bytes(), &salt) {
        Ok(h) => Ok(h.to_string()),
        Err(e) => Err(e.to_string()),
    }
}

// ── Scopes ─────────────────────────────────────────────────────────

/// A list of scopes as it is stored: a JSON array of strings.
pub open spec fn scopes_json_text(scopes: Seq<Seq<char>>) -> Seq<char> {
    seq!['['] + text::joined(
        Seq::new(scopes.len(), |i: int| journal::json_string(scopes[i])),
        seq![','],
    ) + seq![']']
}

/// The list of scopes that `serde_json::from_str` reads from a text.
pub uninterp spec fn scopes_of_json(json: Seq<char>) -> Option<Seq<Seq<char>>>;

/// Calls `serde_json::to_string` on a list of strings: a compact array of JSON
/// strings, which `serde_json::from_str` reads back as the list.
#[verifier::external_body]
fn write_scopes(scopes: &Vec<String>) -> (r: Result<String, String>)
    ensures
        r matches Ok(s) ==> s@ == scopes_json_text(text::texts(scopes@)) && scopes_of_json(s@)
            == Some(text::texts(scopes@)),
{
    serde_json::to_string(scopes).map_err(|e| e.to_string())
}

/// Calls `serde_json::from_str` for a list of strings; the result is a
/// function of the text, and `None` stands for a parse error.
#[verifier::external_body]
fn read_scopes(json: &str) -> (r: Option<Vec<String>>)
    ensures
        match r {
            Some(v) => scopes_of_json(json@) == Some(text::texts(v@)),
            None => scopes_of_json(json@) is None,
        },
{
    serde_json::from_str::<Vec<String>>(json).ok()
}

/// The scopes of a stored text; none where it cannot be read.
pub open spec fn stored_scopes(json: Seq<char>) -> Seq<Seq<char>> {
    match scopes_of_json(json) {
        Some(s) => s,
        None => Seq::empty(),
    }
}

/// The scopes of a stored text.
pub fn scopes_or_none(json: &str) -> (v: Vec<String>)
    ensures
        text::texts(v@) == stored_scopes(json@),
{
    match read_scopes(json) {
        Some(v) => v,
        None => {
            let v: Vec<String> = Vec::new();
            proof {
                assert(text::texts(v@) =~= Seq::empty());
            }
            v
        },
    }
}

// ── Issuing ────────────────────────────────────────────────────────

/// Lifetime of a code: the default where none or zero is asked for, one day
/// at most.
pub open spec fn lifetime_of(asked: Option<u32>) -> u32 {
    match asked {
        Some(n) if n > 0 => if n > MAX_LIFETIME_MINUTES {
            MAX_LIFETIME_MINUTES
        } else {
            n
        },
        _ => DEFAULT_LIFETIME_MINUTES,
    }
}

/// Lifetime of a code in minutes.
pub fn lifetime_minutes(asked: Option<u32>) -> (r: u32)
    ensures
        r == lifetime_of(asked),
        1 <= r <= MAX_LIFETIME_MINUTES,
{
    match asked {
        Some(n) => if n == 0 {
            DEFAULT_LIFETIME_MINUTES
        } else if n > MAX_LIFETIME_MINUTES {
            MAX_LIFETIME_MINUTES
        } else {
            n
        },
        None => DEFAULT_LIFETIME_MINUTES,
    }
}

/// End of validity of a code issued at `now`.
pub open spec fn expiry_of(now: int, minutes: int) -> int {
    if now + minutes * 60 > i64::MAX {
        i64::MAX as int
    } else {
        now + minutes * 60
    }
}

/// End of validity of a code issued at `now`.
pub fn expires_at(now: i64, minutes: u32) -> (r: i64)
    ensures
        r == expiry_of(now as int, minutes as int),
{
    match now.checked_add((minutes as i64) * 60) {
        Some(t) => t,
        None => i64::MAX,
    }
}

/// What a request for a code is refused with.
pub open spec fn issue_refusal(req: CreatePairingCodeRequest) -> Option<error::ErrorView> {
    let label = text::trimmed(req.device_label@);
    if label.len() == 0 {
        Some(error::ErrorView::BadRequest("device_label must not be empty"@))
    } else if text::byte_len(label) > 128 {
        Some(error::ErrorView::BadRequest("device_label must be ≤ 128 chars"@))
    } else if exists|i: int| 0 <= i < req.scopes@.len() && (#[trigger] req.scopes@[i])@.len() == 0 {
        Some(error::ErrorView::BadRequest("scope strings must be non-empty"@))
    } else {
        None
    }
}

/// A valid request for a code.
#[derive(Debug)]
pub struct IssuePlan {
    /// Label of the device, trimmed.
    pub device_label: String,
    /// Lifetime of the code.
    pub lifetime_minutes: u32,
}

fn any_blank(v: &Vec<String>) -> (r: bool)
    ensures
        r == exists|i: int| 0 <= i < v@.len() && (#[trigger] v@[i])@.len() == 0,
{
    let mut i: usize = 0;
    while i < v.len()
        invariant
            i <= v@.len(),
            forall|j: int| 0 <= j < i ==> (#[trigger] v@[j])@.len() > 0,
        decreases v@.len() - i,
    {
        if v[i].as_str().is_empty() {
            return true;
        }
        i = i + 1;
    }
    false
}

/// Checks a request for a code.
pub fn plan_issue(req: &CreatePairingCodeRequest) -> (r: Result<IssuePlan, error::ApiError>)
    ensures
        match r {
            Ok(p) => {
                &&& issue_refusal(*req) is None
                &&& p.device_label@ == text::trimmed(req.device_label@)
                &&& p.lifetime_minutes == lifetime_of(req.expires_in_minutes)
            },
            Err(e) => issue_refusal(*req) == Some(e@),
        },
{
    let label = text::trim(req.device_label.as_str());
    if label.as_str().is_empty() {
        return Err(error::ApiError::BadRequest(text::owned("device_label must not be empty")));
    }
    if label.as_str().len() > 128 {
        return Err(error::ApiError::BadRequest(text::owned("device_label must be ≤ 128 chars")));
    }
    if any_blank(&req.scopes) {
        return Err(error::ApiError::BadRequest(text::owned("scope strings must be non-empty")));
    }
    Ok(
        IssuePlan {
            device_label: label,
            lifetime_minutes: lifetime_minutes(req.expires_in_minutes),
        },
    )
}

/// A code ready to be stored: only its hash is.
#[derive(Debug)]
pub struct IssuedCode {
    /// The code.
    pub code: String,
    /// Its hash.
    pub code_hash: String,
    /// Label of the device.
    pub device_label: String,
    /// Scopes, as stored.
    pub scopes_json: String,
    /// Time of issue.
    pub issued_at: i64,
    /// End of validity.
    pub expires_at: i64,
}

/// A code ready to be stored, from what hashing it and writing its scopes
/// gave.
pub fn finish_issue(
    plan: IssuePlan,
    now: i64,
    code: String,
    hashed: Result<String, String>,
    written: Result<String, String>,
) -> (r: Result<IssuedCode, error::ApiError>)
    ensures
        match hashed {
            Err(reason) => r matches Err(e) && e@ == error::ErrorView::Database(
                "pairing_codes argon2 hash"@ + ": "@ + reason@,
            ),
            Ok(code_hash) => match written {
                Err(reason) => r matches Err(e) && e@ == error::ErrorView::Database(
                    "pairing_codes scopes encode"@ + ": "@ + reason@,
                ),
                Ok(scopes_json) => r matches Ok(c) && c == (IssuedCode {
                    code,
                    code_hash,
                    device_label: plan.device_label,
                    scopes_json,
                    issued_at: now,
                    expires_at: c.expires_at,
                }) && c.expires_at == expiry_of(now as int, plan.lifetime_minutes as int),
            },
        },
{
    let code_hash = match hashed {
        Ok(h) => h,
        Err(reason) => {
            return Err(error::database_error("pairing_codes argon2 hash", reason.as_str()));
        },
    };
    let scopes_json = match written {
        Ok(s) => s,
        Err(reason) => {
            return Err(error::database_error("pairing_codes scopes encode", reason.as_str()));
        },
    };
    Ok(
        IssuedCode {
            code,
            code_hash,
            device_label: plan.device_label,
            scopes_json,
            issued_at: now,
            expires_at: expires_at(now, plan.lifetime_minutes),
        },
    )
}

/// Issues a code for a valid request. The code verifies against its hash, and
/// the stored scopes read back as those of the request.
pub fn issue_code(plan: IssuePlan, scopes: &Vec<String>, now: i64) -> (r: Result<
    IssuedCode,
    error::ApiError,
>)
    ensures
        match r {
            Ok(c) => {
                &&& code_shaped(c.code@)
                &&& matches_hash(c.code@, c.code_hash@)
                &&& c.device_label == plan.device_label
                &&& c.scopes_json@ == scopes_json_text(text::texts(scopes@))
                &&& scopes_of_json(c.scopes_json@) == Some(text::texts(scopes@))
                &&& c.issued_at == now
                &&& c.expires_at == expiry_of(now as int, plan.lifetime_minutes as int)
            },
            Err(e) => e@ is Database,
        },
{
    let code = mint_code();
    let hashed = hash_code(code.as_str());
    let written = write_scopes(scopes);
    finish_issue(plan, now, code, hashed, written)
}

/// The answer to a request for a code.
pub fn issued_response(issued: IssuedCode, code_id: i64, scopes: Vec<String>) -> (r:
    CreatePairingCodeResponse)
    ensures
        r.code == issued.code,
        r.row == (PairingCodeRow {
            code_id,
            device_label: issued.device_label,
            scopes,
            issued_at: issued.issued_at,
            expires_at: issued.expires_at,
            consumed_token_id: None,
        }),
{
    CreatePairingCodeResponse {
        code: issued.code,
        row: PairingCodeRow {
            code_id,
            device_label: issued.device_label,
            scopes,
            issued_at: issued.issued_at,
            expires_at: issued.expires_at,
            consumed_token_id: None,
        },
    }
}

// ── Stored codes ───────────────────────────────────────────────────

/// A stored code.
#[derive(Debug)]
pub struct StoredCode {
    /// The row.
    pub code_id: i64,
    /// Hash of the code.
    pub code_hash: String,
    /// Label of the device.
    pub device_label: String,
    /// Scopes, as stored.
    pub scopes_json: String,
    /// Time of issue.
    pub issued_at: i64,
    /// End of validity.
    pub expires_at: i64,
    /// The token that was issued for it.
    pub consumed_token_id: Option<i64>,
}

/// A stored code as it is listed.
pub fn listed_code(row: &StoredCode) -> (r: PairingCodeRow)
    ensures
        r.code_id == row.code_id,
        r.device_label@ == row.device_label@,
        text::texts(r.scopes@) == stored_scopes(row.scopes_json@),
        r.issued_at == row.issued_at,
        r.expires_at == row.expires_at,
        r.consumed_token_id == row.consumed_token_id,
{
    PairingCodeRow {
        code_id: row.code_id,
        device_label: text::owned(row.device_label.as_str()),
        scopes: scopes_or_none(row.scopes_json.as_str()),
        issued_at: row.issued_at,
        expires_at: row.expires_at,
        consumed_token_id: row.consumed_token_id,
    }
}

/// The answer to a revocation: revoking an unknown code is an error, and so
/// is revoking a consumed one.
pub fn pairing_codes_revoke(code_id: i64, rows_affected: u64, exists: bool) -> (r: Result<
    (),
    error::ApiError,
>)
    ensures
        rows_affected > 0 ==> r is Ok,
        rows_affected == 0 && !exists ==> (r matches Err(e) && e@ == error::ErrorView::NotFound(
            error::numbered_text("pairing_code"@, code_id as int),
        )),
        rows_affected == 0 && exists ==> (r matches Err(e) && e@ == error::ErrorView::Conflict(
            error::numbered_text("pairing_code"@, code_id as int)
                + " is already consumed; revoke the token instead"@,
        )),
{
    if rows_affected > 0 {
        return Ok(());
    }
    if !exists {
        return Err(error::missing("pairing_code", code_id));
    }
    let mut m = error::numbered("pairing_code", code_id);
    m.append(" is already consumed; revoke the token instead");
    Err(error::ApiError::Conflict(m))
}

// ── Consuming ──────────────────────────────────────────────────────

/// What is compared of a presented code: trimmed and upper-cased.
pub open spec fn presented_code(code: Seq<char>) -> Seq<char> {
    text::ascii_upper(text::trimmed(code))
}

/// Checks an attempt before anything is looked up. The rate limit comes
/// first, so that a locked-out caller costs nothing.
pub fn plan_consume(limit: &CheckResult, req: &ConsumePairingCodeRequest) -> (r: Result<
    String,
    error::ApiError,
>)
    ensures
        match *limit {
            CheckResult::RateLimited { retry_after_secs } => r matches Err(e) && e@
                == error::ErrorView::RateLimited(retry_after_secs),
            CheckResult::Allowed => if text::trimmed(req.code@).len() == 0 {
                r matches Err(e) && e@ == error::ErrorView::BadRequest("code must not be empty"@)
            } else {
                r matches Ok(p) && p@ == presented_code(req.code@)
            },
        },
{
    match limit {
        CheckResult::RateLimited { retry_after_secs } => {
            return Err(error::ApiError::RateLimited { retry_after_secs: *retry_after_secs });
        },
        CheckResult::Allowed => {},
    }
    let code = text::trim(req.code.as_str());
    if code.as_str().is_empty() {
        return Err(error::ApiError::BadRequest(text::owned("code must not be empty")));
    }
    Ok(text::to_ascii_upper(code.as_str()))
}

/// Whether a stored code can be consumed at `now`: once, and before it
/// expires.
pub open spec fn active(row: StoredCode, now: i64) -> bool {
    row.consumed_token_id is None && row.expires_at > now
}

/// Whether a stored code is the one presented.
pub open spec fn hit(row: StoredCode, presented: Seq<char>, now: i64) -> bool {
    active(row, now) && matches_hash(presented, row.code_hash@)
}

/// Whether a presented code matches an encoded hash. One that cannot be read
/// or checked matches nothing.
pub open spec fn matches_hash(presented: Seq<char>, encoded: Seq<char>) -> bool {
    checkable(encoded) && code_verifies(presented, encoded) == Some(true)
}

/// Position of the first stored code, from `n` on, that is the one presented.
pub open spec fn first_hit(
    rows: Seq<StoredCode>,
    presented: Seq<char>,
    now: i64,
    n: int,
) -> Option<int>
    decreases rows.len() - n,
{
    if n < 0 || n >= rows.len() {
        None
    } else if hit(rows[n], presented, now) {
        Some(n)
    } else {
        first_hit(rows, presented, now, n + 1)
    }
}

/// Finds the stored code that is the one presented. A hash that cannot be
/// read matches nothing.
pub fn find_match(rows: &Vec<StoredCode>, presented: &str, now: i64) -> (r: Option<usize>)
    ensures
        match r {
            Some(i) => first_hit(rows@, presented@, now, 0) == Some(i as int) && i < rows@.len(),
            None => first_hit(rows@, presented@, now, 0) is None,
        },
{
    let mut n: usize = 0;
    while n < rows.len()
        invariant
            n <= rows@.len(),
            first_hit(rows@, presented@, now, 0) == first_hit(rows@, presented@, now, n as int),
        decreases rows@.len() - n,
    {
        let row = &rows[n];
        if row.consumed_token_id.is_none() && row.expires_at > now && is_checkable(
            row.code_hash.as_str(),
        ) {
            if let Some(ok) = verify_code(presented, row.code_hash.as_str()) {
                if ok {
                    return Some(n);
                }
            }
        }
        n = n + 1;
    }
    None
}

/// How an attempt at `now` ends: with the stored code that it consumes, or
/// with what it is refused with. `clock` is the time by which the limiter
/// counts.
pub open spec fn attempt(
    limiter: RateLimiter,
    rows: Seq<StoredCode>,
    code: Seq<char>,
    now: i64,
    clock: u64,
) -> Result<int, error::ErrorView> {
    let failures = rate_limit::counted(limiter.failures@, clock, limiter.window_secs);
    if failures.len() >= limiter.budget {
        Err(
            error::ErrorView::RateLimited(
                rate_limit::wait_of(failures, clock, limiter.window_secs) as u64,
            ),
        )
    } else if text::trimmed(code).len() == 0 {
        Err(error::ErrorView::BadRequest("code must not be empty"@))
    } else {
        match first_hit(rows, presented_code(code), now, 0) {
            Some(i) => Ok(i),
            None => Err(
                error::ErrorView::NotFound(
                    "pairing code not recognised, expired, or already consumed"@,
                ),
            ),
        }
    }
}

/// The failures that the limiter keeps after an attempt: those within the
/// window, and this one where no code matched.
pub open spec fn failures_after(
    limiter: RateLimiter,
    rows: Seq<StoredCode>,
    code: Seq<char>,
    now: i64,
    clock: u64,
) -> Seq<u64> {
    let failures = rate_limit::counted(limiter.failures@, clock, limiter.window_secs);
    match attempt(limiter, rows, code, now, clock) {
        Err(error::ErrorView::NotFound(_)) => failures.push(clock),
        _ => failures,
    }
}

/// Tries to consume a code. The rate limit comes first; only an attempt whose
/// code matches none counts as a failure.
pub fn pairing_consume(
    limiter: &mut RateLimiter,
    rows: &Vec<StoredCode>,
    req: &ConsumePairingCodeRequest,
    now: i64,
    clock: u64,
) -> (r: Result<usize, error::ApiError>)
    ensures
        match r {
            Ok(i) => attempt(*old(limiter), rows@, req.code@, now, clock) == Ok::<
                int,
                error::ErrorView,
            >(i as int) && i < rows@.len(),
            Err(e) => attempt(*old(limiter), rows@, req.code@, now, clock) == Err::<
                int,
                error::ErrorView,
            >(e@),
        },
        final(limiter).failures@ == failures_after(*old(limiter), rows@, req.code@, now, clock),
        final(limiter).budget == old(limiter).budget,
        final(limiter).window_secs == old(limiter).window_secs,
{
    let limit = limiter.check(clock);
    let presented = match plan_consume(&limit, req) {
        Ok(p) => p,
        Err(e) => {
            return Err(e);
        },
    };
    match find_match(rows, presented.as_str(), now) {
        Some(i) => Ok(i),
        None => {
            limiter.record_failure(clock);
            Err(no_match())
        },
    }
}

/// The answer where no code matches: the same for a wrong, an expired and a
/// consumed code.
pub fn no_match() -> (e: error::ApiError)
    ensures
        e@ == error::ErrorView::NotFound(
            "pairing code not recognised, expired, or already consumed"@,
        ),
{
    error::ApiError::NotFound(
        text::owned("pairing code not recognised, expired, or already consumed"),
    )
}

/// Label of the token: what the device asks for, or the label of the code.
pub open spec fn nickname_of(asked: Option<Seq<char>>, label: Seq<char>) -> Seq<char> {
    match text::present(asked) {
        Some(s) => s,
        None => label,
    }
}

/// Label of the token.
pub fn pick_token_nickname(request_label: Option<&str>, pairing_label: &str) -> (s: String)
    ensures
        s@ == nickname_of(text::opt_str(request_label), pairing_label@),
{
    match text::present_text(request_label) {
        Some(s) => s,
        None => text::owned(pairing_label),
    }
}

/// The answer to a consumed code: the token has the scopes and the end of
/// validity of the code.
pub fn consumed_response(
    hit: &StoredCode,
    request_label: Option<&str>,
    token_id: i64,
    raw_token: String,
    now: i64,
) -> (r: ConsumePairingCodeResponse)
    ensures
        r.token == raw_token,
        r.row.token_id == token_id,
        r.row.user_id == 1,
        text::opt_text(r.row.nickname) == Some(
            nickname_of(text::opt_str(request_label), hit.device_label@),
        ),
        text::texts(r.row.scopes@) == stored_scopes(hit.scopes_json@),
        r.row.issued_at == now,
        r.row.last_used_at is None,
        r.row.expires_at == Some(hit.expires_at),
        r.row.revoked_at is None,
{
    ConsumePairingCodeResponse {
        token: raw_token,
        row: TokenRow {
            token_id,
            user_id: 1,
            nickname: Some(pick_token_nickname(request_label, hit.device_label.as_str())),
            scopes: scopes_or_none(hit.scopes_json.as_str()),
            issued_at: now,
            last_used_at: None,
            expires_at: Some(hit.expires_at),
            revoked_at: None,
        },
    }
}

// ── Laws ───────────────────────────────────────────────────────────

/// An issued code that is stored, not consumed and not expired is found when
/// it is presented, in any case and with blanks around it.
pub proof fn law_issued_code_is_found(
    rows: Seq<StoredCode>,
    i: int,
    code: Seq<char>,
    typed: Seq<char>,
    now: i64,
    n: int,
)
    requires
        0 <= n <= i < rows.len(),
        code_shaped(code),
        matches_hash(code, rows[i].code_hash@),
        active(rows[i], now),
        text::ascii_lower(text::trimmed(typed)) == text::ascii_lower(code),
    ensures
        presented_code(typed) == code,
        first_hit(rows, presented_code(typed), now, n) is Some,
        n <= first_hit(rows, presented_code(typed), now, n)->0 <= i,
    decreases i - n,
{
    law_code_any_case(code, text::trimmed(typed));
    if n < i && !hit(rows[n], code, now) {
        law_issued_code_is_found(rows, i, code, typed, now, n + 1);
    }
}

/// What is found is active: a consumed or expired code is never found.
pub proof fn law_found_is_active(rows: Seq<StoredCode>, presented: Seq<char>, now: i64, n: int)
    requires
        0 <= n,
        first_hit(rows, presented, now, n) is Some,
    ensures
        n <= first_hit(rows, presented, now, n)->0 < rows.len(),
        active(rows[first_hit(rows, presented, now, n)->0], now),
    decreases rows.len() - n,
{
    if n < rows.len() && !hit(rows[n], presented, now) {
        law_found_is_active(rows, presented, now, n + 1);
    }
}

/// A code is used once: as soon as its row names a token it is not active.
pub proof fn law_single_use(row: StoredCode, now: i64)
    requires
        row.consumed_token_id is Some,
    ensures
        !active(row, now),
{
}

/// The stored codes after code `i` was consumed for a token.
pub open spec fn consumed(rows: Seq<StoredCode>, i: int, token_id: i64) -> Seq<StoredCode> {
    rows.update(i, StoredCode { consumed_token_id: Some(token_id), ..rows[i] })
}

proof fn lemma_no_hit(rows: Seq<StoredCode>, presented: Seq<char>, now: i64, n: int)
    requires
        0 <= n,
        forall|j: int| n <= j < rows.len() ==> !hit(#[trigger] rows[j], presented, now),
    ensures
        first_hit(rows, presented, now, n) is None,
    decreases rows.len() - n,
{
    if n < rows.len() {
        lemma_no_hit(rows, presented, now, n + 1);
    }
}

proof fn lemma_first_of_one(rows: Seq<StoredCode>, presented: Seq<char>, now: i64, i: int, n: int)
    requires
        0 <= n <= i < rows.len(),
        hit(rows[i], presented, now),
        forall|j: int| n <= j < i ==> !hit(#[trigger] rows[j], presented, now),
    ensures
        first_hit(rows, presented, now, n) == Some(i),
    decreases i - n,
{
    if n < i {
        lemma_first_of_one(rows, presented, now, i, n + 1);
    }
}

/// Whether a limiter lets an attempt through.
pub open spec fn within_budget(limiter: RateLimiter, clock: u64) -> bool {
    rate_limit::counted(limiter.failures@, clock, limiter.window_secs).len() < limiter.budget
}

/// An issued code is consumed once. Presented while it is valid, in any case
/// and with blanks around it, it is found; presented again after its row
/// names a token, at any time, it is refused as unknown. Neither attempt is
/// held back by a limiter with budget left, and no other stored code is the
/// same one.
pub proof fn law_consumed_once(
    rows: Seq<StoredCode>,
    i: int,
    token_id: i64,
    code: Seq<char>,
    first: (RateLimiter, Seq<char>, i64, u64),
    again: (RateLimiter, Seq<char>, i64, u64),
)
    requires
        0 <= i < rows.len(),
        code_shaped(code),
        matches_hash(code, rows[i].code_hash@),
        forall|j: int|
            0 <= j < rows.len() && j != i ==> !matches_hash(code, (#[trigger] rows[j]).code_hash@),
        active(rows[i], first.2),
        text::ascii_lower(text::trimmed(first.1)) == text::ascii_lower(code),
        text::ascii_lower(text::trimmed(again.1)) == text::ascii_lower(code),
        within_budget(first.0, first.3),
        within_budget(again.0, again.3),
    ensures
        attempt(first.0, rows, first.1, first.2, first.3) == Ok::<int, error::ErrorView>(i),
        attempt(again.0, consumed(rows, i, token_id), again.1, again.2, again.3) == Err::<
            int,
            error::ErrorView,
        >(
            error::ErrorView::NotFound(
                "pairing code not recognised, expired, or already consumed"@,
            ),
        ),
{
    law_code_any_case(code, text::trimmed(first.1));
    law_code_any_case(code, text::trimmed(again.1));
    assert(text::ascii_lower(code).len() == 9);
    assert(text::ascii_lower(text::trimmed(first.1)).len() == text::trimmed(first.1).len());
    assert(text::ascii_lower(text::trimmed(again.1)).len() == text::trimmed(again.1).len());
    lemma_first_of_one(rows, code, first.2, i, 0);
    let after = consumed(rows, i, token_id);
    assert forall|j: int| 0 <= j < after.len() implies !hit(
        #[trigger] after[j],
        code,
        again.2,
    ) by {
        if j != i {
            assert(after[j] == rows[j]);
        }
    }
    lemma_no_hit(after, code, again.2, 0);
}

/// Guessing is held back: once as many attempts as the budget allows have
/// failed within the window, no code is looked at, not even the right one.
/// The caller is told to wait a second at least, and the failures stay what
/// they are.
pub proof fn law_guessing_is_held_back(
    limiter: RateLimiter,
    rows: Seq<StoredCode>,
    code: Seq<char>,
    now: i64,
    clock: u64,
)
    requires
        limiter.failures@.len() >= limiter.budget,
        forall|i: int|
            0 <= i < limiter.failures@.len() ==> rate_limit::counts(
                #[trigger] limiter.failures@[i],
                clock,
                limiter.window_secs,
            ),
    ensures
        attempt(limiter, rows, code, now, clock) matches Err(error::ErrorView::RateLimited(wait))
            && wait >= 1 && wait == rate_limit::wait_of(
            limiter.failures@,
            clock,
            limiter.window_secs,
        ),
        failures_after(limiter, rows, code, now, clock) == limiter.failures@,
{
    rate_limit::law_counted_as_is(limiter.failures@, clock, limiter.window_secs);
    rate_limit::law_wait_at_least_a_second(limiter.failures@, clock, limiter.window_secs);
}

/// A failed attempt uses up one unit of the budget, and nothing else does.
pub proof fn law_only_failures_count(
    limiter: RateLimiter,
    rows: Seq<StoredCode>,
    code: Seq<char>,
    now: i64,
    clock: u64,
)
    ensures
        ({
            let before = rate_limit::counted(limiter.failures@, clock, limiter.window_secs).len();
            let after = failures_after(limiter, rows, code, now, clock).len();
            match attempt(limiter, rows, code, now, clock) {
                Err(error::ErrorView::NotFound(_)) => after == before + 1,
                _ => after == before,
            }
        }),
{
}

/// A token has the scopes that were asked for with its code: what is written
/// of them is read back.
pub proof fn law_scopes_carry_over(row: StoredCode, scopes: Seq<Seq<char>>)
    requires
        scopes_of_json(row.scopes_json@) == Some(scopes),
    ensures
        stored_scopes(row.scopes_json@) == scopes,
{
}

/// A code is valid for at least a minute and at most a day after its issue.
pub proof fn law_lifetime_bounds(asked: Option<u32>, now: i64)
    requires
        now <= i64::MAX - 86400,
    ensures
        now + 60 <= expiry_of(now as int, lifetime_of(asked) as int) <= now + 86400,
{
}

/// A code can be consumed where no token was issued for it and its time is
/// not over.
pub proof fn law_active_codes(row: StoredCode, now: i64)
    ensures
        row.consumed_token_id is None && now < row.expires_at ==> active(row, now),
        row.consumed_token_id is Some ==> !active(row, now),
        now >= row.expires_at ==> !active(row, now),
{
}

/// The stored code that is found is the first that is active and whose hash
/// the presented code verifies against; where there is one, it is found.
pub proof fn law_first_match_is_found(
    rows: Seq<StoredCode>,
    presented: Seq<char>,
    now: i64,
    k: int,
)
    requires
        0 <= k < rows.len(),
    ensures
        first_hit(rows, presented, now, 0) matches Some(i) ==> 0 <= i < rows.len()
            && rows[i].consumed_token_id is None && now < rows[i].expires_at && code_verifies(
            presented,
            rows[i].code_hash@,
        ) == Some(true) && (forall|j: int|
            0 <= j < i ==> !hit(#[trigger] rows[j], presented, now)),
        rows[k].consumed_token_id is None && now < rows[k].expires_at && checkable(
            rows[k].code_hash@,
        ) && code_verifies(presented, rows[k].code_hash@) == Some(true) ==> first_hit(
            rows,
            presented,
            now,
            0,
        ) is Some,
{
    lemma_first_from(rows, presented, now, 0);
    if first_hit(rows, presented, now, 0) is None && hit(rows[k], presented, now) {
        lemma_none_from(rows, presented, now, 0, k);
    }
}

proof fn lemma_first_from(rows: Seq<StoredCode>, presented: Seq<char>, now: i64, n: int)
    requires
        0 <= n,
    ensures
        first_hit(rows, presented, now, n) matches Some(i) ==> n <= i < rows.len() && hit(
            rows[i],
            presented,
            now,
        ) && (forall|j: int| n <= j < i ==> !hit(#[trigger] rows[j], presented, now)),
    decreases rows.len() - n,
{
    if n < rows.len() && !hit(rows[n], presented, now) {
        lemma_first_from(rows, presented, now, n + 1);
    }
}

proof fn lemma_none_from(rows: Seq<StoredCode>, presented: Seq<char>, now: i64, n: int, k: int)
    requires
        0 <= n <= k < rows.len(),
        first_hit(rows, presented, now, n) is None,
    ensures
        !hit(rows[k], presented, now),
    decreases k - n,
{
    if n < k {
        lemma_none_from(rows, presented, now, n + 1, k);
    }
}

/// How an attempt ends that is not held back: a blank code is refused as such,
/// a code that matches no stored one as unknown, and any other consumes the
/// code that it matches.
pub proof fn law_attempt_ends(
    limiter: RateLimiter,
    rows: Seq<StoredCode>,
    code: Seq<char>,
    now: i64,
    clock: u64,
)
    requires
        rate_limit::counted(limiter.failures@, clock, limiter.window_secs).len() < limiter.budget,
    ensures
        text::trimmed(code).len() == 0 ==> attempt(limiter, rows, code, now, clock) == Err::<
            int,
            error::ErrorView,
        >(error::ErrorView::BadRequest("code must not be empty"@)),
        text::trimmed(code).len() > 0 ==> match first_hit(
            rows,
            text::ascii_upper(text::trimmed(code)),
            now,
            0,
        ) {
            Some(i) => attempt(limiter, rows, code, now, clock) == Ok::<int, error::ErrorView>(i)
                && failures_after(limiter, rows, code, now, clock) == rate_limit::counted(
                limiter.failures@,
                clock,
                limiter.window_secs,
            ),
            None => attempt(limiter, rows, code, now, clock) is Err && failures_after(
                limiter,
                rows,
                code,
                now,
                clock,
            ) == rate_limit::counted(limiter.failures@, clock, limiter.window_secs).push(clock),
        },
{
}

/// The lifetime is what was asked for, ten minutes where nothing was, and a
/// day at most; the code expires so many minutes after its issue.
pub proof fn law_lifetime(n: u32, now: i64, minutes: int)
    ensures
        lifetime_of(None) == 10,
        n == 0 ==> lifetime_of(Some(n)) == 10,
        1 <= n <= 1440 ==> lifetime_of(Some(n)) == n,
        n > 1440 ==> lifetime_of(Some(n)) == 1440,
        0 <= minutes && now + 60 * minutes <= i64::MAX ==> expiry_of(now as int, minutes) - now
            == 60 * minutes,
        now + 60 * minutes > i64::MAX ==> expiry_of(now as int, minutes) == i64::MAX,
{
}

/// A request for a code is granted where its label, trimmed, is not empty and
/// no longer than 128 bytes, and no scope is empty; any other is refused.
pub proof fn law_issue_granted(req: CreatePairingCodeRequest)
    ensures
        ({
            let label = text::trimmed(req.device_label@);
            let blank_scope = exists|i: int|
                0 <= i < req.scopes@.len() && (#[trigger] req.scopes@[i])@.len() == 0;
            &&& label.len() > 0 && text::byte_len(label) <= 128 && !blank_scope ==> issue_refusal(
                req,
            ) is None
            &&& label.len() == 0 || text::byte_len(label) > 128 || blank_scope ==> issue_refusal(
                req,
            ) matches Some(error::ErrorView::BadRequest(_))
        }),
{
}

/// A token is called what the device asks for, trimmed, and otherwise what the
/// code was issued for.
pub proof fn law_nickname(asked: Seq<char>, label: Seq<char>)
    ensures
        nickname_of(None, label) == label,
        text::trimmed(asked).len() == 0 ==> nickname_of(Some(asked), label) == label,
        text::trimmed(asked).len() > 0 ==> nickname_of(Some(asked), label) == text::trimmed(asked),
{
}

/// The letters that bytes select are all different: equal letters come only
/// from bytes that leave the same rest by twenty-two.
pub proof fn law_letters_differ(a: u8, b: u8)
    ensures
        letter(a) == letter(b) <==> a % 22 == b % 22,
{
    lemma_letter(a);
    lemma_letter(b);
}

proof fn lemma_letter(b: u8)
    ensures
        letter(b) as int == (b % 22) as int + (if b % 22 < 8 {
            65int
        } else if b % 22 < 13 {
            66
        } else if b % 22 < 16 {
            67
        } else {
            68
        }),
{
    reveal_strlit("ABCDEFGHJKLMNPQRTUVWXY");
    let i = b % 22;
    if i == 0 {
    } else if i == 1 {
    } else if i == 2 {
    } else if i == 3 {
    } else if i == 4 {
    } else if i == 5 {
    } else if i == 6 {
    } else if i == 7 {
    } else if i == 8 {
    } else if i == 9 {
    } else if i == 10 {
    } else if i == 11 {
    } else if i == 12 {
    } else if i == 13 {
    } else if i == 14 {
    } else if i == 15 {
    } else if i == 16 {
    } else if i == 17 {
    } else if i == 18 {
    } else if i == 19 {
    } else if i == 20 {
    } else if i == 21 {
    }
}

/// Each letter of a code comes from its own byte, the first four before the
/// dash and the last four behind it.
pub proof fn law_code_letters(bytes: Seq<u8>, i: int)
    ensures
        code_text(bytes).len() == 9,
        code_text(bytes)[4] == '-',
        0 <= i < 4 ==> code_text(bytes)[i] == letter(bytes[i]),
        4 <= i < 8 ==> code_text(bytes)[i + 1] == letter(bytes[i]),
{
}

/// Scopes are stored as a JSON array: one text each, with commas between.
pub proof fn law_scopes_array(scopes: Seq<Seq<char>>, scope: Seq<char>)
    ensures
        scopes_json_text(Seq::empty()) == seq!['[', ']'],
        scopes_json_text(seq![scope]) == seq!['['] + journal::json_string(scope) + seq![']'],
        scopes.len() > 0 ==> scopes_json_text(scopes.push(scope)) == scopes_json_text(
            scopes,
        ).drop_last() + seq![','] + journal::json_string(scope) + seq![']'],
{
    let texts = |s: Seq<Seq<char>>| Seq::new(s.len(), |i: int| journal::json_string(s[i]));
    assert(texts(Seq::empty()) =~= Seq::<Seq<char>>::empty());
    assert(scopes_json_text(Seq::empty()) =~= seq!['[', ']']);
    assert(texts(seq![scope]) =~= seq![journal::json_string(scope)]);
    assert(texts(scopes.push(scope)) =~= texts(scopes).push(journal::json_string(scope)));
    text::law_join(texts(scopes), journal::json_string(scope), seq![',']);
    assert(scopes_json_text(scopes).drop_last() =~= seq!['['] + text::joined(
        texts(scopes),
        seq![','],
    ));
    if scopes.len() > 0 {
        assert(scopes_json_text(scopes.push(scope)) =~= scopes_json_text(scopes).drop_last() + seq![
            ',',
        ] + journal::json_string(scope) + seq![']']);
    }
}

/// A degree of parallelism is too wide where nine digits stand behind `p=`,
/// whatever they are and whatever is around.
pub proof fn law_wide(encoded: Seq<char>, before: Seq<char>, digits: Seq<char>, after: Seq<char>)
    requires
        digits.len() == 9,
        text::all_digits(digits),
    ensures
        wide_at(before + "p="@ + digits + after, before.len() as int),
        forall|i: int| #[trigger] wide_at(encoded, i) ==> text::stands_at(encoded, "p="@, i),
        forall|i: int| #[trigger]
            wide_at(encoded, i) ==> i + 11 <= encoded.len() && text::all_digits(
                encoded.subrange(i + 2, i + 11),
            ),
{
    reveal_strlit("p=");
    let all = before + "p="@ + digits + after;
    let n = before.len() as int;
    assert forall|k: int| 2 <= k < 11 implies '0' <= #[trigger] all[n + k] <= '9' by {
        assert(all[n + k] == digits[k - 2]);
    }
    assert forall|i: int| #[trigger] wide_at(encoded, i) implies text::stands_at(
        encoded,
        "p="@,
        i,
    ) && i + 11 <= encoded.len() && text::all_digits(encoded.subrange(i + 2, i + 11)) by {
        assert(encoded.subrange(i, i + 2) =~= "p="@);
        let part = encoded.subrange(i + 2, i + 11);
        assert forall|k: int| 0 <= k < part.len() implies '0' <= #[trigger] part[k] <= '9' by {
            assert(part[k] == encoded[i + (k + 2)]);
        }
    }
}

/// A refusal says what is wrong with the request: the label first, then its
/// length, then the scopes.
pub proof fn law_issue_refusals(req: CreatePairingCodeRequest, i: int)
    ensures
        ({
            let label = text::trimmed(req.device_label@);
            &&& label.len() == 0 ==> issue_refusal(req) == Some(
                error::ErrorView::BadRequest("device_label must not be empty"@),
            )
            &&& label.len() > 0 && text::byte_len(label) > 128 ==> issue_refusal(req) == Some(
                error::ErrorView::BadRequest("device_label must be ≤ 128 chars"@),
            )
            &&& label.len() > 0 && text::byte_len(label) <= 128 && 0 <= i < req.scopes@.len()
                && req.scopes@[i]@.len() == 0 ==> issue_refusal(req) == Some(
                error::ErrorView::BadRequest("scope strings must be non-empty"@),
            )
        }),
{
}

/// Codes are consumed on this path, which needs no token.
pub proof fn law_consume_path()
    ensures
        CONSUME_PUBLIC_PATH@ == "/pairing/consume"@,
{
}

} // verus!
