//! Accounts, roles, API keys, sessions and invites: the rules the store
//! applies around its database rows.
//!
//! Reading and writing the SQLite database is done by the caller; every
//! decision about what a row means, and what to write back, is made here.
use crate::text::{
    chars_of, concat, i64_to_string, int_decimal, is_ascii_alnum, owned, str_eq, str_starts_with,
    starts_with_s, string_of, trim_chars, trim_s, utf8_len, utf8_len_of,
};
use crate::credentials::{
    argon2_accepts, gen_code, gen_key, gen_token, hash_key, hash_password, key_hash_s, phc_parses,
    uuid_v4, verify_password,
};
use vstd::prelude::*;
use vstd::string::StringSliceAdditionalSpecFns;

verus! {

#[verifier::external_type_specification]
#[verifier::external_body]
pub struct ExSqliteError(rusqlite::Error);

#[verifier::external_type_specification]
#[verifier::external_body]
pub struct ExIoError(std::io::Error);

// ---------------------------------------------------------------------------
// Roles and scopes
// ---------------------------------------------------------------------------

#[derive(Debug, Clone, Copy, PartialEq, Eq, Structural)]
pub enum Role {
    Owner,
    Member,
}

pub open spec fn role_text(r: Role) -> Seq<char> {
    match r {
        Role::Owner => "owner"@,
        Role::Member => "member"@,
    }
}

pub open spec fn parse_role_s(s: Seq<char>) -> Option<Role> {
    if s == "owner"@ {
        Some(Role::Owner)
    } else if s == "member"@ {
        Some(Role::Member)
    } else {
        None
    }
}

impl Role {
    pub fn as_str(&self) -> (r: &'static str)
        ensures
            r@ == role_text(*self),
    {
        match self {
            Role::Owner => "owner",
            Role::Member => "member",
        }
    }

    pub fn parse(s: &str) -> (r: Option<Role>)
        ensures
            r == parse_role_s(s@),
    {
        if str_eq(s, "owner") {
            Some(Role::Owner)
        } else if str_eq(s, "member") {
            Some(Role::Member)
        } else {
            None
        }
    }
}

/// What an API key may do: every MCP tool, or only the read-only ones.
#[derive(Debug, Clone, Copy, PartialEq, Eq, Structural)]
pub enum ApiKeyScope {
    McpFull,
    McpRead,
}

pub open spec fn scope_text(s: ApiKeyScope) -> Seq<char> {
    match s {
        ApiKeyScope::McpFull => "mcp:full"@,
        ApiKeyScope::McpRead => "mcp:read"@,
    }
}

pub open spec fn parse_scope_s(s: Seq<char>) -> Option<ApiKeyScope> {
    if s == "mcp:full"@ {
        Some(ApiKeyScope::McpFull)
    } else if s == "mcp:read"@ {
        Some(ApiKeyScope::McpRead)
    } else {
        None
    }
}

/// `full` covers everything; `read` covers only `read`.
pub open spec fn scope_covers(have: ApiKeyScope, needed: ApiKeyScope) -> bool {
    have == ApiKeyScope::McpFull || needed == ApiKeyScope::McpRead
}

impl ApiKeyScope {
    pub fn as_str(&self) -> (r: &'static str)
        ensures
            r@ == scope_text(*self),
    {
        match self {
            ApiKeyScope::McpFull => "mcp:full",
            ApiKeyScope::McpRead => "mcp:read",
        }
    }

    pub fn parse(s: &str) -> (r: Option<ApiKeyScope>)
        ensures
            r == parse_scope_s(s@),
    {
        if str_eq(s, "mcp:full") {
            Some(ApiKeyScope::McpFull)
        } else if str_eq(s, "mcp:read") {
            Some(ApiKeyScope::McpRead)
        } else {
            None
        }
    }

    /// `full` covers `read`; `read` does not cover `full`.
    pub fn covers(&self, needed: ApiKeyScope) -> (r: bool)
        ensures
            r == scope_covers(*self, needed),
    {
        match (self, needed) {
            (ApiKeyScope::McpFull, _) => true,
            (ApiKeyScope::McpRead, ApiKeyScope::McpRead) => true,
            (ApiKeyScope::McpRead, ApiKeyScope::McpFull) => false,
        }
    }
}

// ---------------------------------------------------------------------------
// Records
// ---------------------------------------------------------------------------

#[derive(Debug, Clone)]
pub struct User {
    pub id: String,
    pub username: String,
    pub role: Role,
    pub created_at: i64,
}

#[derive(Debug, Clone)]
pub struct ApiKey {
    pub id: String,
    pub owner_user_id: String,
    pub name: String,
    pub scope: ApiKeyScope,
    pub created_at: i64,
    pub last_used_at: Option<i64>,
    pub revoked_at: Option<i64>,
}

#[derive(Debug, Clone)]
pub struct ApiKeyWithSecret {
    pub key: ApiKey,
    /// The plain key, returned once, when it is created.
    pub secret: String,
}

#[derive(Debug, Clone)]
pub struct Session {
    pub token: String,
    pub user_id: String,
    pub device: Option<String>,
    pub created_at: i64,
    pub last_seen: i64,
    pub expires_at: Option<i64>,
}

#[derive(Debug, Clone)]
pub struct ValidatedSession {
    pub session: Session,
    pub user: User,
}

#[derive(Debug, Clone)]
pub struct Invite {
    pub code: String,
    pub issued_by: String,
    pub note: Option<String>,
    pub created_at: i64,
    pub expires_at: i64,
    pub consumed_at: Option<i64>,
    pub consumed_by: Option<String>,
}

#[derive(Debug, Clone)]
pub struct AuditEvent {
    pub id: i64,
    pub ts: i64,
    pub kind: String,
    pub actor_id: Option<String>,
    pub actor_label: Option<String>,
    pub ok: bool,
    pub detail: Option<String>,
}

/// An audit entry to be written.
pub struct NewAudit<'a> {
    pub kind: &'a str,
    pub actor_id: Option<&'a str>,
    pub actor_label: Option<&'a str>,
    pub ok: bool,
    pub detail: Option<&'a str>,
}

#[derive(Debug)]
pub enum AuthError {
    Sqlite(rusqlite::Error),
    Io(std::io::Error),
    Argon2(String),
    InvalidUsername { reason: &'static str },
    InvalidPassword { reason: &'static str },
    UserNotFound,
    OwnerExists,
    WrongPassword,
    AccountLocked { until: String },
    SessionInvalid,
    ApiKeyInvalid,
    ApiKeyScope { scope: &'static str },
    InviteInvalid,
    InviteConsumed,
    InviteExpired,
    Internal(String),
}

// ---------------------------------------------------------------------------
// Credentials checks
// ---------------------------------------------------------------------------

pub open spec fn username_char_ok(c: char) -> bool {
    is_ascii_alnum(c) || c == '_' || c == '-' || c == '.'
}

/// Usernames: 2 to 32 characters from letters, digits and `._-`.
pub open spec fn username_ok(u: Seq<char>) -> bool {
    2 <= u.len() <= 32 && forall|i: int| 0 <= i < u.len() ==> username_char_ok(#[trigger] u[i])
}

/// Passwords: at least 8 characters (as the message says), at most 256 UTF-8 bytes.
pub open spec fn password_ok(p: Seq<char>) -> bool {
    8 <= p.len() && utf8_len(p) <= 256
}

/// Which usernames are accepted: exactly those of 2 to 32 characters, each
/// an ASCII letter of either case, an ASCII digit, `_`, `-` or `.`.
pub proof fn lemma_username_charset(u: Seq<char>)
    ensures
        username_ok(u) <==> (2 <= u.len() <= 32 && forall|i: int|
            0 <= i < u.len() ==> ('a' <= #[trigger] u[i] <= 'z' || 'A' <= u[i] <= 'Z' || '0' <= u[i]
                <= '9' || u[i] == '_' || u[i] == '-' || u[i] == '.')),
{
}

pub fn validate_username(u: &str) -> (r: Result<(), AuthError>)
    ensures
        r is Ok <==> username_ok(u@),
        r is Err ==> r->Err_0 is InvalidUsername,
        !(2 <= u@.len() <= 32) ==> (r matches Err(AuthError::InvalidUsername { reason }) && reason@
            == "长度需 2-32 字符"@),
        2 <= u@.len() <= 32 && !username_ok(u@) ==> (r matches Err(
            AuthError::InvalidUsername { reason },
        ) && reason@ == "仅允许字母/数字/._-"@),
{
    let c = chars_of(u);
    let len = c.len();
    if !(2 <= len && len <= 32) {
        return Err(AuthError::InvalidUsername { reason: "长度需 2-32 字符" });
    }
    let mut i: usize = 0;
    while i < len
        invariant
            i <= len,
            2 <= len <= 32,
            len == c@.len(),
            c@ == u@,
            forall|k: int| 0 <= k < i ==> username_char_ok(#[trigger] c@[k]),
        decreases len - i,
    {
        let ch = c[i];
        let ok = ('0' <= ch && ch <= '9') || ('a' <= ch && ch <= 'z') || ('A' <= ch && ch <= 'Z')
            || ch == '_' || ch == '-' || ch == '.';
        if !ok {
            assert(!username_char_ok(c@[i as int]));
            return Err(AuthError::InvalidUsername { reason: "仅允许字母/数字/._-" });
        }
        i += 1;
    }
    Ok(())
}

pub fn validate_password(p: &str) -> (r: Result<(), AuthError>)
    ensures
        r is Ok <==> password_ok(p@),
        r is Err ==> r->Err_0 is InvalidPassword,
        p@.len() < 8 ==> (r matches Err(AuthError::InvalidPassword { reason }) && reason@
            == "密码至少 8 个字符"@),
        p@.len() >= 8 && utf8_len(p@) > 256 ==> (r matches Err(AuthError::InvalidPassword { reason })
            && reason@ == "密码过长"@),
{
    let c = chars_of(p);
    let n = utf8_len_of(c.as_slice());
    if c.len() < 8 {
        return Err(AuthError::InvalidPassword { reason: "密码至少 8 个字符" });
    }
    if n > 256 {
        return Err(AuthError::InvalidPassword { reason: "密码过长" });
    }
    Ok(())
}

/// When `register_owner` may go ahead: valid name and password, and no owner yet.
pub fn check_register_owner(username: &str, password: &str, owner_exists: bool) -> (r: Result<
    (),
    AuthError,
>)
    ensures
        r is Ok <==> username_ok(username@) && password_ok(password@) && !owner_exists,
        !username_ok(username@) ==> r is Err && r->Err_0 is InvalidUsername,
        username_ok(username@) && !password_ok(password@) ==> r is Err
            && r->Err_0 is InvalidPassword,
        username_ok(username@) && password_ok(password@) && owner_exists ==> r is Err
            && r->Err_0 is OwnerExists,
{
    validate_username(username)?;
    validate_password(password)?;
    if owner_exists {
        return Err(AuthError::OwnerExists);
    }
    Ok(())
}

/// When `register_member` may go ahead.
pub fn check_register_member(username: &str, password: &str) -> (r: Result<(), AuthError>)
    ensures
        r is Ok <==> username_ok(username@) && password_ok(password@),
        !username_ok(username@) ==> r is Err && r->Err_0 is InvalidUsername,
        username_ok(username@) && !password_ok(password@) ==> r is Err
            && r->Err_0 is InvalidPassword,
{
    validate_username(username)?;
    validate_password(password)?;
    Ok(())
}

// ---------------------------------------------------------------------------
// Login lockout
// ---------------------------------------------------------------------------

/// Consecutive failures that lock an account.
pub const LOCK_THRESHOLD: i64 = 10;

/// How long a lock lasts, in seconds.
pub const LOCK_SECS: i64 = 900;

/// A user's failure counter and lock.
#[derive(Debug, Clone, Copy, PartialEq, Eq, Structural)]
pub struct LockState {
    pub failed_attempts: i64,
    pub locked_until: Option<i64>,
}

pub open spec fn is_locked(s: LockState, now: i64) -> bool {
    s.locked_until matches Some(until) && until > now
}

/// The counters after a wrong password at `now`.
pub open spec fn after_failure(s: LockState, now: i64) -> LockState {
    let n = s.failed_attempts + 1;
    if n >= LOCK_THRESHOLD {
        LockState { failed_attempts: n as i64, locked_until: Some((now + LOCK_SECS) as i64) }
    } else {
        LockState { failed_attempts: n as i64, locked_until: s.locked_until }
    }
}

/// The counters after a successful login.
pub open spec fn after_success() -> LockState {
    LockState { failed_attempts: 0, locked_until: None }
}

/// The text of a lock time: RFC 3339 when it can be formatted, else the
/// plain number of seconds.
pub open spec fn lock_time_text(until: i64) -> Seq<char> {
    match rfc3339_utc(until as int) {
        Some(t) => t,
        None => int_decimal(until as int),
    }
}

/// `time::OffsetDateTime::from_unix_timestamp(t)` formatted with
/// `well_known::Rfc3339`, or `None` when either step fails.
pub uninterp spec fn rfc3339_utc(t: int) -> Option<Seq<char>>;

/// Formats a Unix time as RFC 3339 with the `time` crate:
/// `OffsetDateTime::from_unix_timestamp` then `format(&Rfc3339)`.  The
/// result is named by `rfc3339_utc`; it is a function of `t` alone (UTC).
#[verifier::external_body]
fn format_rfc3339(t: i64) -> (r: Option<String>)
    ensures
        match rfc3339_utc(t as int) {
            Some(s) => r is Some && r->0@ == s,
            None => r is None,
        },
{
    time::OffsetDateTime::from_unix_timestamp(t).ok().and_then(
        |d| d.format(&time::format_description::well_known::Rfc3339).ok(),
    )
}

/// The lock check made before a password is verified: a lock in the future
/// refuses the login.
pub fn login_gate(locked_until: Option<i64>, now: i64) -> (r: Result<(), AuthError>)
    ensures
        r is Ok <==> !(locked_until matches Some(u) && u > now),
        r is Err ==> (r->Err_0 matches AuthError::AccountLocked { until } && until@
            == lock_time_text(locked_until->0)),
{
    match locked_until {
        Some(until) => {
            if until > now {
                let text = match format_rfc3339(until) {
                    Some(s) => s,
                    None => i64_to_string(until),
                };
                return Err(AuthError::AccountLocked { until: text });
            }
            Ok(())
        },
        None => Ok(()),
    }
}

/// The counters to write after a wrong password: one more failure, and a
/// lock of `LOCK_SECS` from `now` once `LOCK_THRESHOLD` is reached.
pub fn record_failure(s: LockState, now: i64) -> (r: LockState)
    requires
        s.failed_attempts < i64::MAX,
        now <= i64::MAX - LOCK_SECS,
    ensures
        r == after_failure(s, now),
{
    let n = s.failed_attempts + 1;
    if n >= LOCK_THRESHOLD {
        LockState { failed_attempts: n, locked_until: Some(now + LOCK_SECS) }
    } else {
        LockState { failed_attempts: n, locked_until: s.locked_until }
    }
}

/// The counters to write after a correct password.
pub fn record_success() -> (r: LockState)
    ensures
        r == after_success(),
{
    LockState { failed_attempts: 0, locked_until: None }
}

// ---------------------------------------------------------------------------
// Sessions
// ---------------------------------------------------------------------------

/// Expiry of a session issued at `now` with an optional lifetime.
pub fn session_expiry(now: i64, ttl_secs: Option<i64>) -> (r: Option<i64>)
    requires
        ttl_secs matches Some(t) ==> i64::MIN <= now + t <= i64::MAX,
    ensures
        match ttl_secs {
            Some(t) => r == Some((now + t) as i64),
            None => r is None,
        },
{
    match ttl_secs {
        Some(t) => Some(now + t),
        None => None,
    }
}

pub open spec fn session_expired(expires_at: Option<i64>, now: i64) -> bool {
    expires_at matches Some(e) && e <= now
}

/// A session issued at `now` with a lifetime of `ttl` seconds (the expiry
/// `new_session` records) is accepted by `validate_session_row` strictly
/// before `now + ttl` and refused from then on; one issued without a
/// lifetime never expires.
pub proof fn lemma_session_lifetime(now: i64, ttl: Option<i64>, t: i64)
    requires
        ttl matches Some(x) ==> i64::MIN <= now + x <= i64::MAX,
    ensures
        ttl is None ==> !session_expired(None, t),
        ttl matches Some(x) ==> (session_expired(Some((now + x) as i64), t) <==> now + x <= t),
{
}

/// A session row joined with its user, as read from the database.
pub struct SessionRow {
    pub token: String,
    pub user_id: String,
    pub device: Option<String>,
    pub created_at: i64,
    pub last_seen: i64,
    pub expires_at: Option<i64>,
    pub username: String,
    pub role: String,
    pub user_created_at: i64,
}

/// What a session row means at `now`: expired sessions and unknown roles
/// are invalid; otherwise the session and its user.
pub fn validate_session_row(row: SessionRow, now: i64) -> (r: Result<ValidatedSession, AuthError>)
    ensures
        session_expired(row.expires_at, now) ==> r is Err && r->Err_0 is SessionInvalid,
        !session_expired(row.expires_at, now) && parse_role_s(row.role@) is None ==> r is Err
            && r->Err_0 is SessionInvalid,
        r is Ok <==> !session_expired(row.expires_at, now) && parse_role_s(row.role@) is Some,
        r matches Ok(v) ==> {
            &&& v.session.token@ == row.token@
            &&& v.session.user_id@ == row.user_id@
            &&& v.session.created_at == row.created_at
            &&& v.session.last_seen == row.last_seen
            &&& v.session.expires_at == row.expires_at
            &&& v.user.id@ == row.user_id@
            &&& v.user.username@ == row.username@
            &&& Some(v.user.role) == parse_role_s(row.role@)
            &&& v.user.created_at == row.user_created_at
            &&& match (v.session.device, row.device) {
                (Some(a), Some(b)) => a@ == b@,
                (None, None) => true,
                _ => false,
            }
        },
{
    match row.expires_at {
        Some(exp) => {
            if exp <= now {
                return Err(AuthError::SessionInvalid);
            }
        },
        None => {},
    }
    let role = match Role::parse(row.role.as_str()) {
        Some(r) => r,
        None => return Err(AuthError::SessionInvalid),
    };
    let uid = owned(row.user_id.as_str());
    Ok(
        ValidatedSession {
            session: Session {
                token: row.token,
                user_id: row.user_id,
                device: row.device,
                created_at: row.created_at,
                last_seen: row.last_seen,
                expires_at: row.expires_at,
            },
            user: User { id: uid, username: row.username, role, created_at: row.user_created_at },
        },
    )
}

// ---------------------------------------------------------------------------
// API keys
// ---------------------------------------------------------------------------

pub open spec fn key_prefix() -> Seq<char> {
    "mck_"@
}

/// Keys without the `mck_` prefix are refused before any lookup.
pub fn check_key_prefix(plain: &str) -> (r: Result<(), AuthError>)
    ensures
        r is Ok <==> starts_with_s(plain@, key_prefix()),
        r is Err ==> r->Err_0 is ApiKeyInvalid,
{
    if !str_starts_with(plain, "mck_") {
        return Err(AuthError::ApiKeyInvalid);
    }
    Ok(())
}

/// What `create_api_key` accepts as a name: the trimmed name, 1 to 64 bytes.
pub open spec fn key_name_ok(name: Seq<char>) -> bool {
    let t = trim_s(name);
    t.len() > 0 && utf8_len(t) <= 64
}

pub fn check_key_name(name: &str) -> (r: Result<String, AuthError>)
    ensures
        r is Ok <==> key_name_ok(name@),
        r matches Ok(t) ==> t@ == trim_s(name@),
        r is Err ==> r->Err_0 is Internal,
{
    let c = chars_of(name);
    let t = trim_chars(c.as_slice());
    if t.len() == 0 || utf8_len_of(t.as_slice()) > 64 {
        return Err(AuthError::Internal(owned("api key name must be 1-64 chars")));
    }
    Ok(string_of(t.as_slice()))
}

/// An API key row joined with its owner, as read from the database.
pub struct ApiKeyRow {
    pub id: String,
    pub owner_user_id: String,
    pub name: String,
    pub scope: String,
    pub created_at: i64,
    pub last_used_at: Option<i64>,
    pub revoked_at: Option<i64>,
    pub username: String,
    pub role: String,
    pub user_created_at: i64,
}

/// What an API key row means: revoked keys are invalid, an unknown scope is
/// an internal error, an unknown owner role makes the key invalid.
pub fn validate_api_key_row(row: ApiKeyRow) -> (r: Result<(ApiKey, User), AuthError>)
    ensures
        row.revoked_at is Some ==> r is Err && r->Err_0 is ApiKeyInvalid,
        row.revoked_at is None && parse_scope_s(row.scope@) is None ==> r is Err
            && r->Err_0 is Internal,
        row.revoked_at is None && parse_scope_s(row.scope@) is Some && parse_role_s(row.role@) is None
            ==> r is Err && r->Err_0 is ApiKeyInvalid,
        r is Ok <==> row.revoked_at is None && parse_scope_s(row.scope@) is Some && parse_role_s(
            row.role@,
        ) is Some,
        r matches Ok((k, u)) ==> {
            &&& k.id@ == row.id@
            &&& k.owner_user_id@ == row.owner_user_id@
            &&& k.name@ == row.name@
            &&& Some(k.scope) == parse_scope_s(row.scope@)
            &&& k.created_at == row.created_at
            &&& k.last_used_at == row.last_used_at
            &&& k.revoked_at is None
            &&& u.id@ == row.owner_user_id@
            &&& u.username@ == row.username@
            &&& Some(u.role) == parse_role_s(row.role@)
            &&& u.created_at == row.user_created_at
        },
{
    if row.revoked_at.is_some() {
        return Err(AuthError::ApiKeyInvalid);
    }
    let scope = match ApiKeyScope::parse(row.scope.as_str()) {
        Some(s) => s,
        None => return Err(AuthError::Internal(owned("bad scope"))),
    };
    let role = match Role::parse(row.role.as_str()) {
        Some(r) => r,
        None => return Err(AuthError::ApiKeyInvalid),
    };
    let owner = owned(row.owner_user_id.as_str());
    Ok(
        (
            ApiKey {
                id: row.id,
                owner_user_id: owner,
                name: row.name,
                scope,
                created_at: row.created_at,
                last_used_at: row.last_used_at,
                revoked_at: row.revoked_at,
            },
            User { id: row.owner_user_id, username: row.username, role, created_at: row.user_created_at },
        ),
    )
}

// ---------------------------------------------------------------------------
// Invites and membership
// ---------------------------------------------------------------------------

/// Invites live for a day.
pub const INVITE_TTL_SECS: i64 = 86400;

/// An invite can be redeemed when it exists, is unused and not expired;
/// an unused check comes before the expiry check.  Returns the issuer.
pub fn check_invite(row: Option<(String, i64, Option<i64>)>, now: i64) -> (r: Result<String, AuthError>)
    ensures
        row is None ==> r is Err && r->Err_0 is InviteInvalid,
        row matches Some((_, _, c)) ==> (c is Some ==> r is Err && r->Err_0 is InviteConsumed),
        row matches Some((_, e, c)) ==> (c is None && e <= now ==> r is Err && r->Err_0 is InviteExpired),
        row matches Some((i, e, c)) ==> (c is None && e > now ==> r is Ok && r->Ok_0@ == i@),
{
    match row {
        None => Err(AuthError::InviteInvalid),
        Some((issuer, expires_at, consumed_at)) => {
            if consumed_at.is_some() {
                return Err(AuthError::InviteConsumed);
            }
            if expires_at <= now {
                return Err(AuthError::InviteExpired);
            }
            Ok(issuer)
        },
    }
}

/// Expiry of an invite created at `now`.
pub fn invite_expiry(now: i64) -> (r: i64)
    requires
        now <= i64::MAX - INVITE_TTL_SECS,
    ensures
        r == now + INVITE_TTL_SECS,
{
    now + INVITE_TTL_SECS
}

/// An owner may not delete themselves.
pub fn check_delete_member(owner_user_id: &str, target_user_id: &str) -> (r: Result<(), AuthError>)
    ensures
        r is Ok <==> owner_user_id@ != target_user_id@,
        r is Err ==> r->Err_0 is Internal,
{
    if str_eq(owner_user_id, target_user_id) {
        return Err(AuthError::Internal(owned("不能删除自己")));
    }
    Ok(())
}

/// A change that touched no row fails with `err`.
pub fn require_changed(rows_changed: usize, err: AuthError) -> (r: Result<(), AuthError>)
    ensures
        rows_changed == 0 ==> r == Err::<(), AuthError>(err),
        rows_changed > 0 ==> r is Ok,
{
    if rows_changed == 0 {
        return Err(err);
    }
    Ok(())
}

/// Audit listings return at most 1000 entries.
pub fn audit_limit(limit: usize) -> (r: i64)
    ensures
        r == if limit < 1000 {
            limit as int
        } else {
            1000
        },
{
    if limit < 1000 {
        limit as i64
    } else {
        1000
    }
}

// ---------------------------------------------------------------------------
// Users
// ---------------------------------------------------------------------------

/// A user as read from its row; a role that is neither `owner` nor
/// `member` is reported as a bad row.
pub fn user_from_row(id: String, username: String, role: &str, created_at: i64) -> (r: Result<
    User,
    AuthError,
>)
    ensures
        parse_role_s(role@) is None ==> (r matches Err(AuthError::Argon2(m)) && m@ == "bad role"@),
        parse_role_s(role@) matches Some(ro) ==> (r matches Ok(u) && u.id == id && u.username
            == username && u.role == ro && u.created_at == created_at),
{
    match Role::parse(role) {
        Some(ro) => Ok(User { id, username, role: ro, created_at }),
        None => Err(AuthError::Argon2(owned("bad role"))),
    }
}

/// A new account, ready to be inserted: a fresh id, the name, the role,
/// the time, and the Argon2id hash of the password.
pub fn prepare_user(username: &str, password: &str, role: Role, now: i64) -> (r: Result<
    (User, String),
    AuthError,
>)
    ensures
        !username_ok(username@) ==> (r matches Err(e) && e is InvalidUsername),
        username_ok(username@) && !password_ok(password@) ==> (r matches Err(e)
            && e is InvalidPassword),
        r is Ok ==> username_ok(username@) && password_ok(password@),
        r matches Err(e) ==> (e is InvalidUsername || e is InvalidPassword || e is Argon2),
        r matches Ok((u, h)) ==> {
            &&& u.id@.len() == 36
            &&& u.username@ == username@
            &&& u.role == role
            &&& u.created_at == now
            &&& phc_parses(h@)
            &&& argon2_accepts(password.spec_bytes(), h@)
        },
{
    validate_username(username)?;
    validate_password(password)?;
    let hash = match hash_password(password) {
        Ok(h) => h,
        Err(m) => return Err(AuthError::Argon2(m)),
    };
    let id = uuid_v4();
    Ok((User { id, username: owned(username), role, created_at: now }, hash))
}

/// How a login attempt ends.
pub enum LoginOutcome {
    /// Refused before the password was compared, or the stored hash could
    /// not be read.
    Refused(AuthError),
    /// Wrong password: the counters to write; the caller answers
    /// `WrongPassword`.
    Wrong(LockState),
    /// Right password: the counters to write.
    Accepted(LockState),
}

/// A login attempt's verdict, without the error texts.
pub enum LoginVerdict {
    NoSuchUser,
    Locked,
    BadHash,
    Wrong(LockState),
    Accepted(LockState),
}

pub open spec fn login_verdict(hash: Option<Seq<char>>, lock: LockState, password: Seq<u8>, now: i64) -> LoginVerdict {
    match hash {
        None => LoginVerdict::NoSuchUser,
        Some(h) => if is_locked(lock, now) {
            LoginVerdict::Locked
        } else if !phc_parses(h) {
            LoginVerdict::BadHash
        } else if argon2_accepts(password, h) {
            LoginVerdict::Accepted(after_success())
        } else {
            LoginVerdict::Wrong(after_failure(lock, now))
        },
    }
}

pub open spec fn outcome_is(r: LoginOutcome, v: LoginVerdict) -> bool {
    match v {
        LoginVerdict::NoSuchUser => r matches LoginOutcome::Refused(AuthError::UserNotFound),
        LoginVerdict::Locked => r matches LoginOutcome::Refused(AuthError::AccountLocked { .. }),
        LoginVerdict::BadHash => r matches LoginOutcome::Refused(AuthError::Argon2(_)),
        LoginVerdict::Wrong(s) => r == LoginOutcome::Wrong(s),
        LoginVerdict::Accepted(s) => r == LoginOutcome::Accepted(s),
    }
}

/// The decision of a login: an unknown user is refused, a locked account
/// is refused before the password is compared, a wrong password counts a
/// failure (ten in a row lock the account for 15 minutes), a right one
/// resets the counters.  `hash` is the stored hash of the user found, if any.
pub fn login_attempt(hash: Option<&str>, lock: LockState, password: &str, now: i64) -> (r: LoginOutcome)
    requires
        lock.failed_attempts < i64::MAX,
        now <= i64::MAX - LOCK_SECS,
    ensures
        outcome_is(
            r,
            login_verdict(
                match hash {
                    Some(h) => Some(h@),
                    None => None,
                },
                lock,
                password.spec_bytes(),
                now,
            ),
        ),
        r matches LoginOutcome::Refused(AuthError::AccountLocked { until }) ==> until@
            == lock_time_text(lock.locked_until->0),
{
    let h = match hash {
        Some(h) => h,
        None => return LoginOutcome::Refused(AuthError::UserNotFound),
    };
    match login_gate(lock.locked_until, now) {
        Ok(()) => {},
        Err(e) => return LoginOutcome::Refused(e),
    }
    match verify_password(password, h) {
        Err(m) => LoginOutcome::Refused(AuthError::Argon2(m)),
        Ok(false) => LoginOutcome::Wrong(record_failure(lock, now)),
        Ok(true) => LoginOutcome::Accepted(record_success()),
    }
}

/// `n` wrong passwords in a row at `now`.
pub open spec fn failures(s: LockState, n: nat, now: i64) -> LockState
    decreases n,
{
    if n == 0 {
        s
    } else {
        after_failure(failures(s, (n - 1) as nat, now), now)
    }
}

proof fn lemma_failures_count(n: nat, now: i64)
    requires
        n <= LOCK_THRESHOLD,
        now <= i64::MAX - LOCK_SECS,
    ensures
        failures(after_success(), n, now).failed_attempts == n,
        n < LOCK_THRESHOLD ==> failures(after_success(), n, now).locked_until is None,
    decreases n,
{
    if n > 0 {
        lemma_failures_count((n - 1) as nat, now);
    }
}

/// Ten wrong passwords in a row lock a fresh account for 15 minutes: any
/// login in that time is refused without comparing the password.
pub proof fn lemma_ten_failures_lock(now: i64, t: i64)
    requires
        now <= i64::MAX - LOCK_SECS,
        now <= t < now + LOCK_SECS,
    ensures
        failures(after_success(), 10, now).locked_until == Some((now + LOCK_SECS) as i64),
        is_locked(failures(after_success(), 10, now), t),
        forall|h: Seq<char>, pw: Seq<u8>|
            #![trigger login_verdict(Some(h), failures(after_success(), 10, now), pw, t)]
            login_verdict(Some(h), failures(after_success(), 10, now), pw, t) is Locked,
{
    lemma_failures_count(9, now);
    assert(failures(after_success(), 10, now) == after_failure(failures(after_success(), 9, now), now));
}

/// Fewer than ten failures never lock a fresh account.
pub proof fn lemma_nine_failures_unlocked(n: nat, now: i64)
    requires
        n < LOCK_THRESHOLD,
        now <= i64::MAX - LOCK_SECS,
    ensures
        !is_locked(failures(after_success(), n, now), now),
{
    lemma_failures_count(n, now);
}

/// A password that was just registered logs in: the stored hash accepts
/// it, and a fresh account is not locked.
pub proof fn lemma_register_then_login(hash: Seq<char>, password: Seq<u8>, now: i64)
    requires
        phc_parses(hash),
        argon2_accepts(password, hash),
    ensures
        login_verdict(Some(hash), after_success(), password, now) == LoginVerdict::Accepted(
            after_success(),
        ),
{
}

/// A right password on an unlocked account is accepted and clears the
/// counters and any lock.
pub proof fn lemma_success_unlocks(lock: LockState, hash: Seq<char>, password: Seq<u8>, now: i64, t: i64)
    requires
        !is_locked(lock, now),
        phc_parses(hash),
        argon2_accepts(password, hash),
    ensures
        login_verdict(Some(hash), lock, password, now) == LoginVerdict::Accepted(after_success()),
        !is_locked(after_success(), t),
        after_success().failed_attempts == 0,
{
}

// ---------------------------------------------------------------------------
// Issuing sessions, keys and invites
// ---------------------------------------------------------------------------

fn copy_opt_str(s: Option<&str>) -> (r: Option<String>)
    ensures
        match s {
            Some(x) => r matches Some(y) && y@ == x@,
            None => r is None,
        },
{
    match s {
        Some(x) => Some(owned(x)),
        None => None,
    }
}

/// A new session for `user_id`: a fresh 64-hex-digit token, created and
/// last seen `now`, expiring after `ttl_secs` when given.
pub fn new_session(user_id: &str, device: Option<&str>, now: i64, ttl_secs: Option<i64>) -> (r: Session)
    requires
        ttl_secs matches Some(t) ==> i64::MIN <= now + t <= i64::MAX,
    ensures
        r.token@.len() == 64,
        r.user_id@ == user_id@,
        match device {
            Some(d) => r.device matches Some(x) && x@ == d@,
            None => r.device is None,
        },
        r.created_at == now,
        r.last_seen == now,
        match ttl_secs {
            Some(t) => r.expires_at == Some((now + t) as i64),
            None => r.expires_at is None,
        },
{
    Session {
        token: gen_token(),
        user_id: owned(user_id),
        device: copy_opt_str(device),
        created_at: now,
        last_seen: now,
        expires_at: session_expiry(now, ttl_secs),
    }
}

/// A new API key for `owner_user_id`, with the hash to store.  The plain
/// key is `mck_` and 32 base32 digits; the stored hash is the hex SHA-256
/// of the plain key, so presenting the key finds it again.
pub fn new_api_key(owner_user_id: &str, name: &str, scope: ApiKeyScope, now: i64) -> (r: Result<
    (ApiKeyWithSecret, String),
    AuthError,
>)
    ensures
        r is Ok <==> key_name_ok(name@),
        r matches Err(e) ==> e is Internal,
        r matches Ok((k, h)) ==> {
            &&& k.key.id@.len() == 36
            &&& k.key.owner_user_id@ == owner_user_id@
            &&& k.key.name@ == trim_s(name@)
            &&& k.key.scope == scope
            &&& k.key.created_at == now
            &&& k.key.last_used_at is None
            &&& k.key.revoked_at is None
            &&& starts_with_s(k.secret@, key_prefix())
            &&& k.secret@.len() == 36
            &&& h@ == key_hash_s(k.secret@)
        },
{
    let trimmed = check_key_name(name)?;
    let id = uuid_v4();
    let secret = gen_key();
    let hash = hash_key(secret.as_str());
    proof {
        reveal_strlit("mck_");
        assert(secret@.subrange(0, 4) =~= "mck_"@);
    }
    Ok(
        (
            ApiKeyWithSecret {
                key: ApiKey {
                    id,
                    owner_user_id: owned(owner_user_id),
                    name: trimmed,
                    scope,
                    created_at: now,
                    last_used_at: None,
                    revoked_at: None,
                },
                secret,
            },
            hash,
        ),
    )
}

/// The hash a presented key is looked up by, after its prefix is checked.
pub fn api_key_lookup_hash(plain: &str) -> (r: Result<String, AuthError>)
    ensures
        r is Ok <==> starts_with_s(plain@, key_prefix()),
        r matches Ok(h) ==> h@ == key_hash_s(plain@),
        r matches Err(e) ==> e is ApiKeyInvalid,
{
    check_key_prefix(plain)?;
    Ok(hash_key(plain))
}

/// A new invite from `issued_by`: a fresh six-character code, valid for a
/// day from `now`.
pub fn new_invite(issued_by: &str, note: Option<&str>, now: i64) -> (r: Invite)
    requires
        now <= i64::MAX - INVITE_TTL_SECS,
    ensures
        r.code@.len() == 6,
        r.issued_by@ == issued_by@,
        match note {
            Some(n) => r.note matches Some(x) && x@ == n@,
            None => r.note is None,
        },
        r.created_at == now,
        r.expires_at == now + INVITE_TTL_SECS,
        r.consumed_at is None,
        r.consumed_by is None,
{
    Invite {
        code: gen_code(),
        issued_by: owned(issued_by),
        note: copy_opt_str(note),
        created_at: now,
        expires_at: invite_expiry(now),
        consumed_at: None,
        consumed_by: None,
    }
}

/// A key as listed from its row; an unknown scope is a bad row.
pub fn api_key_from_row(
    id: String,
    owner_user_id: String,
    name: String,
    scope: &str,
    created_at: i64,
    last_used_at: Option<i64>,
    revoked_at: Option<i64>,
) -> (r: Result<ApiKey, AuthError>)
    ensures
        parse_scope_s(scope@) is None ==> (r matches Err(AuthError::Internal(m)) && m@ == "bad scope"@),
        parse_scope_s(scope@) matches Some(sc) ==> (r matches Ok(k) && k.id == id && k.owner_user_id
            == owner_user_id && k.name == name && k.scope == sc && k.created_at == created_at
            && k.last_used_at == last_used_at && k.revoked_at == revoked_at),
{
    match ApiKeyScope::parse(scope) {
        Some(sc) => Ok(ApiKey { id, owner_user_id, name, scope: sc, created_at, last_used_at, revoked_at }),
        None => Err(AuthError::Internal(owned("bad scope"))),
    }
}

} // verus!
