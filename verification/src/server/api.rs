//! The HTTP API's errors and the decisions of its extractors and routes:
//! how an auth failure is answered, which credential a request carries,
//! who may use an owner route, and the shapes returned to the panel.
use crate::auth::{
    role_text, scope_covers, scope_text, ApiKey, ApiKeyScope, AuditEvent, AuthError, Invite, Role,
    User,
};
use crate::auth::parse_scope_s;
use crate::text::{
    chars_of, concat, owned, slice_skip, split_chars, split_s, starts_with, starts_with_s,
    str_starts_with, string_of, trim, trim_end_char, trim_end_char_s, trim_s,
};
use vstd::prelude::*;

verus! {

/// An API failure: the HTTP status, a machine-readable code and a message.
#[derive(Debug)]
pub struct ApiError {
    pub status: u16,
    pub code: &'static str,
    pub message: String,
}

impl ApiError {
    pub fn new(status: u16, code: &'static str, message: String) -> (r: ApiError)
        ensures
            r.status == status,
            r.code == code,
            r.message == message,
    {
        ApiError { status, code, message }
    }

    pub fn bad_request(code: &'static str, message: String) -> (r: ApiError)
        ensures
            r.status == 400 && r.code == code && r.message == message,
    {
        ApiError::new(400, code, message)
    }

    pub fn unauthorized(code: &'static str, message: String) -> (r: ApiError)
        ensures
            r.status == 401 && r.code == code && r.message == message,
    {
        ApiError::new(401, code, message)
    }

    pub fn forbidden(code: &'static str, message: String) -> (r: ApiError)
        ensures
            r.status == 403 && r.code == code && r.message == message,
    {
        ApiError::new(403, code, message)
    }

    pub fn not_found(code: &'static str, message: String) -> (r: ApiError)
        ensures
            r.status == 404 && r.code == code && r.message == message,
    {
        ApiError::new(404, code, message)
    }

    pub fn gone(code: &'static str, message: String) -> (r: ApiError)
        ensures
            r.status == 410 && r.code == code && r.message == message,
    {
        ApiError::new(410, code, message)
    }

    pub fn internal(message: String) -> (r: ApiError)
        ensures
            r.status == 500 && r.code@ == "internal"@ && r.message == message,
    {
        ApiError::new(500, "internal", message)
    }
}

/// `rusqlite::Error`'s `Display` text; nothing is claimed of it.
#[verifier::external_body]
fn sqlite_error_text(e: &rusqlite::Error) -> String {
    e.to_string()
}

/// `std::io::Error`'s `Display` text; nothing is claimed of it.
#[verifier::external_body]
fn io_error_text(e: &std::io::Error) -> String {
    e.to_string()
}

/// The text of an auth error, for the variants whose text is the
/// library's own.
pub open spec fn auth_error_text_s(e: AuthError) -> Option<Seq<char>> {
    match e {
        AuthError::Sqlite(_) => None,
        AuthError::Io(_) => None,
        AuthError::Argon2(m) => Some("argon2: "@ + m@),
        AuthError::InvalidUsername { reason } => Some("username invalid: "@ + reason@),
        AuthError::InvalidPassword { reason } => Some("password invalid: "@ + reason@),
        AuthError::UserNotFound => Some("user not found"@),
        AuthError::OwnerExists => Some("owner already exists"@),
        AuthError::WrongPassword => Some("wrong password"@),
        AuthError::AccountLocked { until } => Some("account locked until "@ + until@),
        AuthError::SessionInvalid => Some("session not found or expired"@),
        AuthError::ApiKeyInvalid => Some("api key invalid or revoked"@),
        AuthError::ApiKeyScope { scope } => Some("api key forbidden: missing scope "@ + scope@),
        AuthError::InviteInvalid => Some("invite invalid"@),
        AuthError::InviteConsumed => Some("invite already consumed"@),
        AuthError::InviteExpired => Some("invite expired"@),
        AuthError::Internal(m) => Some("internal: "@ + m@),
    }
}

impl AuthError {
    /// The error's text (its `Display` form).  Database and I/O errors are
    /// `sqlite: ` and `io: ` followed by the underlying error's text.
    pub fn text(&self) -> (r: String)
        ensures
            match auth_error_text_s(*self) {
                Some(t) => r@ == t,
                None => match *self {
                    AuthError::Sqlite(_) => starts_with_s(r@, "sqlite: "@),
                    _ => starts_with_s(r@, "io: "@),
                },
            },
    {
        let r = match self {
            AuthError::Sqlite(e) => concat("sqlite: ", sqlite_error_text(e).as_str()),
            AuthError::Io(e) => concat("io: ", io_error_text(e).as_str()),
            AuthError::Argon2(m) => concat("argon2: ", m.as_str()),
            AuthError::InvalidUsername { reason } => concat("username invalid: ", reason),
            AuthError::InvalidPassword { reason } => concat("password invalid: ", reason),
            AuthError::UserNotFound => owned("user not found"),
            AuthError::OwnerExists => owned("owner already exists"),
            AuthError::WrongPassword => owned("wrong password"),
            AuthError::AccountLocked { until } => concat("account locked until ", until.as_str()),
            AuthError::SessionInvalid => owned("session not found or expired"),
            AuthError::ApiKeyInvalid => owned("api key invalid or revoked"),
            AuthError::ApiKeyScope { scope } => concat("api key forbidden: missing scope ", scope),
            AuthError::InviteInvalid => owned("invite invalid"),
            AuthError::InviteConsumed => owned("invite already consumed"),
            AuthError::InviteExpired => owned("invite expired"),
            AuthError::Internal(m) => concat("internal: ", m.as_str()),
        };
        proof {
            reveal_strlit("sqlite: ");
            reveal_strlit("io: ");
            assert(r@.subrange(0, 8) =~= "sqlite: "@ || !(*self is Sqlite));
            assert(r@.subrange(0, 4) =~= "io: "@ || !(*self is Io));
        }
        r
    }
}

/// How an auth failure is answered: bad input is 400, an existing owner
/// 410, wrong credentials (without saying which part) 401, a locked
/// account 429, a bad session or key 401, a missing scope 403, anything
/// else 500.
pub open spec fn auth_status(e: AuthError) -> (u16, Seq<char>) {
    match e {
        AuthError::InvalidUsername { .. } => (400, "invalid_username"@),
        AuthError::InvalidPassword { .. } => (400, "invalid_password"@),
        AuthError::OwnerExists => (410, "owner_exists"@),
        AuthError::WrongPassword => (401, "invalid_credentials"@),
        AuthError::UserNotFound => (401, "invalid_credentials"@),
        AuthError::AccountLocked { .. } => (429, "account_locked"@),
        AuthError::SessionInvalid => (401, "session_invalid"@),
        AuthError::ApiKeyInvalid => (401, "api_key_invalid"@),
        AuthError::ApiKeyScope { .. } => (403, "api_key_scope"@),
        _ => (500, "internal"@),
    }
}

pub open spec fn auth_message(e: AuthError) -> Option<Seq<char>> {
    match e {
        AuthError::InvalidUsername { reason } => Some(reason@),
        AuthError::InvalidPassword { reason } => Some(reason@),
        AuthError::OwnerExists => Some("管理员账户已存在"@),
        AuthError::WrongPassword => Some("用户名或密码错误"@),
        AuthError::UserNotFound => Some("用户名或密码错误"@),
        AuthError::AccountLocked { until } => Some("账户已被锁定，解锁时间 "@ + until@),
        AuthError::SessionInvalid => Some("会话失效，请重新登录"@),
        AuthError::ApiKeyInvalid => Some("API Key 无效或已吊销"@),
        AuthError::ApiKeyScope { scope } => Some("此操作需要 scope: "@ + scope@),
        _ => auth_error_text_s(e),
    }
}

impl ApiError {
    /// The answer to an auth failure.
    pub fn from_auth(e: AuthError) -> (r: ApiError)
        ensures
            (r.status, r.code@) == auth_status(e),
            auth_message(e) matches Some(m) ==> r.message@ == m,
    {
        match e {
            AuthError::InvalidUsername { reason } => ApiError::bad_request(
                "invalid_username",
                owned(reason),
            ),
            AuthError::InvalidPassword { reason } => ApiError::bad_request(
                "invalid_password",
                owned(reason),
            ),
            AuthError::OwnerExists => ApiError::gone("owner_exists", owned("管理员账户已存在")),
            AuthError::WrongPassword => ApiError::unauthorized(
                "invalid_credentials",
                owned("用户名或密码错误"),
            ),
            AuthError::UserNotFound => ApiError::unauthorized(
                "invalid_credentials",
                owned("用户名或密码错误"),
            ),
            AuthError::AccountLocked { until } => ApiError::new(
                429,
                "account_locked",
                concat("账户已被锁定，解锁时间 ", until.as_str()),
            ),
            AuthError::SessionInvalid => ApiError::unauthorized(
                "session_invalid",
                owned("会话失效，请重新登录"),
            ),
            AuthError::ApiKeyInvalid => ApiError::unauthorized(
                "api_key_invalid",
                owned("API Key 无效或已吊销"),
            ),
            AuthError::ApiKeyScope { scope } => ApiError::forbidden(
                "api_key_scope",
                concat("此操作需要 scope: ", scope),
            ),
            other => ApiError::internal(other.text()),
        }
    }
}

/// A wrong password and an unknown user are answered alike, so the answer
/// does not tell whether an account exists.
pub proof fn lemma_login_failures_alike()
    ensures
        auth_status(AuthError::WrongPassword) == auth_status(AuthError::UserNotFound),
        auth_message(AuthError::WrongPassword) == auth_message(AuthError::UserNotFound),
{
}

// ---------------------------------------------------------------------------
// Credentials carried by requests
// ---------------------------------------------------------------------------

/// The cookie that carries a session token.
pub fn session_cookie() -> (r: &'static str)
    ensures
        r@ == "mcs_session"@,
{
    "mcs_session"
}

/// A request with no session cookie is answered 401.
pub fn session_token(cookie: Option<&str>) -> (r: Result<String, ApiError>)
    ensures
        match cookie {
            Some(t) => r matches Ok(x) && x@ == t@,
            None => r matches Err(e) && e.status == 401 && e.code@ == "session_required"@
                && e.message@ == "未登录"@,
        },
{
    match cookie {
        Some(t) => Ok(owned(t)),
        None => Err(ApiError::unauthorized("session_required", owned("未登录"))),
    }
}

pub open spec fn bearer_s(header: Seq<char>) -> Option<Seq<char>> {
    if starts_with_s(header, "Bearer "@) || starts_with_s(header, "bearer "@) {
        Some(trim_s(header.skip(7)))
    } else {
        None
    }
}

/// The API key in an `Authorization` header: `Bearer ` (or `bearer `)
/// followed by the key, trimmed.
pub fn bearer_token(header: Option<&str>) -> (r: Result<String, ApiError>)
    ensures
        match header {
            None => r matches Err(e) && e.status == 401 && e.code@ == "api_key_required"@
                && e.message@ == "缺少 Authorization 头"@,
            Some(h) => match bearer_s(h@) {
                Some(t) => r matches Ok(x) && x@ == t,
                None => r matches Err(e) && e.status == 401 && e.code@ == "api_key_required"@
                    && e.message@ == "Authorization 必须是 Bearer 形式"@,
            },
        },
{
    match header {
        None => Err(ApiError::unauthorized("api_key_required", owned("缺少 Authorization 头"))),
        Some(h) => {
            proof {
                reveal_strlit("Bearer ");
                reveal_strlit("bearer ");
            }
            if str_starts_with(h, "Bearer ") || str_starts_with(h, "bearer ") {
                let c = chars_of(h);
                let rest = string_of(slice_skip(c.as_slice(), 7).as_slice());
                Ok(trim(rest.as_str()))
            } else {
                Err(
                    ApiError::unauthorized(
                        "api_key_required",
                        owned("Authorization 必须是 Bearer 形式"),
                    ),
                )
            }
        },
    }
}

/// Owner routes refuse members with 403.
pub fn require_owner(user: &User) -> (r: Result<(), ApiError>)
    ensures
        user.role == Role::Owner ==> r is Ok,
        user.role != Role::Owner ==> (r matches Err(e) && e.status == 403 && e.code@
            == "owner_required"@ && e.message@ == "需要管理员权限"@),
{
    if user.role != Role::Owner {
        return Err(ApiError::forbidden("owner_required", owned("需要管理员权限")));
    }
    Ok(())
}

/// A user authenticated by session cookie.
pub struct SessionUser {
    pub user: User,
    pub token: String,
}

/// An owner, authenticated by session cookie.
pub struct OwnerUser(pub User);

/// A user authenticated by API key.
pub struct ApiKeyUser {
    pub key: ApiKey,
    pub user: User,
}

impl ApiKeyUser {
    /// Refuses with 403 when the key's scope does not cover `needed`.
    pub fn require_scope(&self, needed: ApiKeyScope) -> (r: Result<(), ApiError>)
        ensures
            scope_covers(self.key.scope, needed) ==> r is Ok,
            !scope_covers(self.key.scope, needed) ==> (r matches Err(e) && e.status == 403
                && e.code@ == "api_key_scope"@ && e.message@ == "此操作需要 scope: "@ + scope_text(
                needed,
            )),
    {
        if self.key.scope.covers(needed) {
            return Ok(());
        }
        Err(ApiError::forbidden("api_key_scope", concat("此操作需要 scope: ", needed.as_str())))
    }
}

/// Either credential.
pub enum AuthUser {
    Session(SessionUser),
    ApiKey(ApiKeyUser),
}

impl AuthUser {
    pub fn user(&self) -> (r: &User)
        ensures
            match self {
                AuthUser::Session(s) => r == &s.user,
                AuthUser::ApiKey(k) => r == &k.user,
            },
    {
        match self {
            AuthUser::Session(s) => &s.user,
            AuthUser::ApiKey(k) => &k.user,
        }
    }
}

/// A request that carries an `Authorization` header is checked as an API
/// key; otherwise as a session.
pub fn prefers_api_key(has_authorization: bool) -> (r: bool)
    ensures
        r == has_authorization,
{
    has_authorization
}

// ---------------------------------------------------------------------------
// Clients and cookies
// ---------------------------------------------------------------------------

/// The client a rate limit counts: the first `X-Forwarded-For` address
/// when proxies are trusted and it is not empty, else the socket's
/// address, else `unknown`.
pub open spec fn client_ip_s(xff: Option<Seq<char>>, socket_ip: Option<Seq<char>>, trust_xff: bool) -> Seq<
    char,
> {
    let from_xff = if trust_xff {
        match xff {
            Some(x) => {
                let first = trim_s(split_s(x, ',')[0]);
                if first.len() > 0 {
                    Some(first)
                } else {
                    None
                }
            },
            None => None,
        }
    } else {
        None
    };
    match from_xff {
        Some(f) => f,
        None => match socket_ip {
            Some(ip) => ip,
            None => "unknown"@,
        },
    }
}

pub fn client_ip_key(xff: Option<&str>, socket_ip: Option<String>, trust_xff: bool) -> (r: String)
    ensures
        r@ == client_ip_s(
            match xff {
                Some(x) => Some(x@),
                None => None,
            },
            match socket_ip {
                Some(s) => Some(s@),
                None => None,
            },
            trust_xff,
        ),
{
    if trust_xff {
        match xff {
            Some(x) => {
                let parts = split_chars(chars_of(x).as_slice(), ',');
                assert(parts@[0]@ == split_s(x@, ',')[0]) by {
                    assert(crate::text::pieces_view(parts@)[0] == parts@[0]@);
                }
                let first = trim(string_of(parts[0].as_slice()).as_str());
                if !first.as_str().is_empty() {
                    return first;
                }
            },
            None => {},
        }
    }
    match socket_ip {
        Some(ip) => ip,
        None => owned("unknown"),
    }
}

/// The login rate-limit bucket of a client: at most 20 attempts in five
/// minutes each.
pub fn login_rate_key(ip: &str) -> (r: String)
    ensures
        r@ == "login:"@ + ip@,
{
    concat("login:", ip)
}

pub const LOGIN_ATTEMPTS_PER_WINDOW: usize = 20;

pub const LOGIN_WINDOW_SECS: u64 = 300;

/// Session cookies are marked `Secure` when the panel is served over HTTPS.
pub fn cookie_secure(public_url: &str) -> (r: bool)
    ensures
        r == starts_with_s(public_url@, "https://"@),
{
    str_starts_with(public_url, "https://")
}

// ---------------------------------------------------------------------------
// Shapes returned to the panel
// ---------------------------------------------------------------------------

/// A user as the panel sees it.
pub struct UserDto {
    pub id: String,
    pub username: String,
    pub role: String,
    pub created_at: i64,
}

impl UserDto {
    pub fn from_user(u: User) -> (r: UserDto)
        ensures
            r.id == u.id && r.username == u.username && r.role@ == role_text(u.role)
                && r.created_at == u.created_at,
    {
        UserDto { id: u.id, username: u.username, role: owned(u.role.as_str()), created_at: u.created_at }
    }
}

/// An invite as the panel sees it.
pub struct InviteDto {
    pub code: String,
    pub note: Option<String>,
    pub created_at: i64,
    pub expires_at: i64,
    pub consumed_at: Option<i64>,
    pub consumed_by: Option<String>,
}

impl InviteDto {
    pub fn from_invite(i: Invite) -> (r: InviteDto)
        ensures
            r.code == i.code && r.note == i.note && r.created_at == i.created_at && r.expires_at
                == i.expires_at && r.consumed_at == i.consumed_at && r.consumed_by == i.consumed_by,
    {
        InviteDto {
            code: i.code,
            note: i.note,
            created_at: i.created_at,
            expires_at: i.expires_at,
            consumed_at: i.consumed_at,
            consumed_by: i.consumed_by,
        }
    }
}

/// An API key as the panel sees it, without its secret.
pub struct KeyDto {
    pub id: String,
    pub name: String,
    pub scope: &'static str,
    pub created_at: i64,
    pub last_used_at: Option<i64>,
    pub revoked_at: Option<i64>,
}

impl KeyDto {
    pub fn from_key(k: ApiKey) -> (r: KeyDto)
        ensures
            r.id == k.id && r.name == k.name && r.scope@ == scope_text(k.scope) && r.created_at
                == k.created_at && r.last_used_at == k.last_used_at && r.revoked_at == k.revoked_at,
    {
        KeyDto {
            id: k.id,
            name: k.name,
            scope: k.scope.as_str(),
            created_at: k.created_at,
            last_used_at: k.last_used_at,
            revoked_at: k.revoked_at,
        }
    }
}

/// An audit entry as the panel sees it.
pub struct AuditEntry {
    pub id: i64,
    pub ts: i64,
    pub kind: String,
    pub actor_id: Option<String>,
    pub actor_label: Option<String>,
    pub ok: bool,
    pub detail: Option<String>,
}

impl AuditEntry {
    pub fn from_event(e: AuditEvent) -> (r: AuditEntry)
        ensures
            r.id == e.id && r.ts == e.ts && r.kind == e.kind && r.actor_id == e.actor_id
                && r.actor_label == e.actor_label && r.ok == e.ok && r.detail == e.detail,
    {
        AuditEntry {
            id: e.id,
            ts: e.ts,
            kind: e.kind,
            actor_id: e.actor_id,
            actor_label: e.actor_label,
            ok: e.ok,
            detail: e.detail,
        }
    }
}

/// Audit listings show 200 entries unless asked.
pub fn default_audit_limit() -> (r: usize)
    ensures
        r == 200,
{
    200
}

// ---------------------------------------------------------------------------
// Panel routes
// ---------------------------------------------------------------------------

/// The scope asked for a new key, trimmed; anything but `mcp:full` and
/// `mcp:read` is refused.
pub fn parse_scope_request(scope: &str) -> (r: Result<ApiKeyScope, ApiError>)
    ensures
        match parse_scope_s(trim_s(scope@)) {
            Some(sc) => r matches Ok(x) && x == sc,
            None => r matches Err(e) && e.status == 400 && e.code@ == "invalid_scope"@,
        },
{
    let t = trim(scope);
    match ApiKeyScope::parse(t.as_str()) {
        Some(sc) => Ok(sc),
        None => Err(ApiError::bad_request("invalid_scope", owned("scope 必须是 mcp:full 或 mcp:read"))),
    }
}

/// The server's public base URL: the configured public URL without a
/// trailing `/`, else `http://` and the listen address.
pub open spec fn public_base_s(public_url: Seq<char>, listen: Seq<char>) -> Seq<char> {
    if public_url.len() > 0 {
        trim_end_char_s(public_url, '/')
    } else {
        "http://"@ + listen
    }
}

/// The MCP endpoint URL shown in the panel.
pub fn mcp_url(public_url: &str, listen: &str) -> (r: String)
    ensures
        r@ == public_base_s(public_url@, listen@) + "/mcp"@,
{
    let base = if !public_url.is_empty() {
        string_of(trim_end_char(chars_of(public_url).as_slice(), '/').as_slice())
    } else {
        concat("http://", listen)
    };
    concat(base.as_str(), "/mcp")
}

/// The panel installs Java majors 8 to 24.
pub fn check_panel_java_major(major: u32) -> (r: Result<(), ApiError>)
    ensures
        8 <= major <= 24 ==> r is Ok,
        !(8 <= major <= 24) ==> (r matches Err(e) && e.status == 400 && e.code@ == "invalid_major"@),
{
    if !(8 <= major && major <= 24) {
        return Err(ApiError::bad_request("invalid_major", owned("Java major 必须在 [8, 24] 区间")));
    }
    Ok(())
}

/// A Paper install needs a version.
pub fn check_paper_version(version: &str) -> (r: Result<(), ApiError>)
    ensures
        version@.len() > 0 ==> r is Ok,
        version@.len() == 0 ==> (r matches Err(e) && e.status == 400 && e.code@
            == "invalid_version"@),
{
    if version.is_empty() {
        return Err(ApiError::bad_request("invalid_version", owned("version 不能为空")));
    }
    Ok(())
}

/// A console command from the panel must not be blank.
pub fn panel_command(raw: &str) -> (r: Result<String, ApiError>)
    ensures
        trim_s(raw@).len() == 0 ==> (r matches Err(e) && e.status == 400 && e.code@
            == "empty_command"@),
        trim_s(raw@).len() > 0 ==> (r matches Ok(c) && c@ == trim_s(raw@)),
{
    let t = trim(raw);
    if t.as_str().is_empty() {
        return Err(ApiError::bad_request("empty_command", owned("命令不能为空")));
    }
    Ok(t)
}

} // verus!
