//! Logging in: a user names themselves, and the hub hands back a signed
//! session token for a cookie. This only keeps users from logging in as each
//! other by accident.
use vstd::prelude::*;
use vstd::string::*;
use crate::clock::{clock_now, since_unix_epoch, whole_secs};
use crate::text::{ascii_lower, ascii_lower_fn, ascii_upper, ascii_upper_fn, is_ascii_alphanumeric, is_ascii_char, is_ascii_text, join, is_alphanumeric, same_text, string_push, to_lowercase, unicode_alphanumeric, unicode_lowercase};

verus! {

/// The name of the cookie that carries the session token.
pub const COOKIE_NAME: &'static str = "workshop_token";

/// The key that session tokens are signed with (HS256). It only keeps
/// users apart; it is not meant to be secret.
pub const JWT_SECRET: &'static str =
    "this-is-just-meant-to-reliably-segment-you-from-other-friendlies-known-not-secure";

/// Seconds past a token's expiry for which it is still accepted.
pub const EXPIRY_LEEWAY_SECONDS: i64 = 60;

/// Seconds for which a session token is valid: 24 hours.
pub const SESSION_SECONDS: i64 = 86400;

/// The claims of a session token.
pub struct Claims {
    /// The user id.
    pub sub: String,
    pub username: String,
    pub exp: i64,
    pub iat: i64,
}

/// The user a valid session token identifies.
pub struct UserIdentity {
    pub user_id: String,
    pub username: String,
}

/// A login form.
pub struct LoginRequest {
    username: String,
}

impl LoginRequest {
    pub fn new(username: String) -> (r: Self)
        ensures
            r.username() == username,
    {
        LoginRequest { username }
    }

    pub closed spec fn username(&self) -> String {
        self.username
    }

    /// The name the user gave.
    pub fn get_username(&self) -> (u: &String)
        ensures
            *u == self.username(),
    {
        &self.username
    }
}

/// The answer to a login.
pub struct LoginResponse {
    success: bool,
    message: String,
    redirect: Option<String>,
}

impl LoginResponse {
    pub closed spec fn succeeded(&self) -> bool {
        self.success
    }

    pub closed spec fn message_text(&self) -> Seq<char> {
        self.message@
    }

    pub closed spec fn redirect_text(&self) -> Option<Seq<char>> {
        match self.redirect {
            Some(r) => Some(r@),
            None => None,
        }
    }

    pub fn success(&self) -> (b: bool)
        ensures
            b == self.succeeded(),
    {
        self.success
    }

    pub fn message(&self) -> (m: &String)
        ensures
            m@ == self.message_text(),
    {
        &self.message
    }

    pub fn redirect(&self) -> (r: Option<&String>)
        ensures
            match r {
                Some(s) => self.redirect_text() == Some(s@),
                None => self.redirect_text() is None,
            },
    {
        match &self.redirect {
            Some(r) => Some(r),
            None => None,
        }
    }
}

/// The characters a username keeps: Unicode letters and digits, `-`, `_`.
pub open spec fn kept_in_username(c: char) -> bool {
    unicode_alphanumeric(c) || c == '-' || c == '_'
}

/// The username with every other character dropped, then lowercased.
pub open spec fn sanitized(username: Seq<char>) -> Seq<char> {
    unicode_lowercase(username.filter(|c: char| kept_in_username(c)))
}

/// The characters an ASCII username keeps: letters, digits, `-`, `_`.
pub open spec fn ascii_kept(c: char) -> bool {
    is_ascii_alphanumeric(c) || c == '-' || c == '_'
}

/// `ascii_kept`, as a predicate to filter with.
pub open spec fn ascii_kept_fn() -> spec_fn(char) -> bool {
    |c: char| ascii_kept(c)
}

/// An ASCII username sanitized: every other character dropped, then
/// lowercased.
pub open spec fn ascii_sanitized(username: Seq<char>) -> Seq<char> {
    username.filter(ascii_kept_fn()).map_values(ascii_lower_fn())
}

/// Sanitizes a username into something usable in a Kubernetes label.
pub fn sanitize_username(username: &str) -> (s: String)
    ensures
        s@ == sanitized(username@),
        is_ascii_text(username@) ==> s@ == ascii_sanitized(username@),
        (forall|i: int| 0 <= i < username@.len() ==> is_ascii_alphanumeric(#[trigger] username@[i]))
            ==> s@.len() == username@.len() && forall|i: int|
            0 <= i < username@.len() ==> #[trigger] s@[i] == ascii_lower(username@[i]),
{
    let n: usize = username.unicode_len();
    let mut kept = String::new();
    let mut i: usize = 0;
    while i < n
        invariant
            i <= n,
            n == username@.len(),
            kept@ == username@.subrange(0, i as int).filter(|c: char| kept_in_username(c)),
            is_ascii_text(username@) ==> kept@ == username@.subrange(0, i as int).filter(ascii_kept_fn()),
            is_ascii_text(username@) ==> is_ascii_text(kept@),
        decreases n - i,
    {
        let c: char = username.get_char(i);
        proof {
            let pred = |c: char| kept_in_username(c);
            assert(username@.subrange(0, i + 1) =~= username@.subrange(0, i as int).push(c));
            username@.subrange(0, i as int).lemma_filter_push(c, pred);
            username@.subrange(0, i as int).lemma_filter_push(c, ascii_kept_fn());
            if is_ascii_text(username@) {
                assert(is_ascii_char(username@[i as int]));
            }
        }
        if is_alphanumeric(c) || c == '-' || c == '_' {
            string_push(&mut kept, c);
        }
        i = i + 1;
    }
    proof {
        assert(username@.subrange(0, n as int) =~= username@);
        if forall|i: int| 0 <= i < username@.len() ==> is_ascii_alphanumeric(#[trigger] username@[i]) {
            assert forall|i: int| 0 <= i < username@.len() implies #[trigger] is_ascii_char(username@[i]) by {
                assert(is_ascii_alphanumeric(username@[i]));
            }
            lemma_ascii_alphanumeric_name_kept_whole(username@);
        }
    }
    to_lowercase(kept.as_str())
}

/// The characters a username keeps, stated directly: an ASCII character is
/// kept exactly when it is an ASCII letter, an ASCII digit, `-` or `_`; and
/// every character that `char::is_alphanumeric` accepts is kept.
pub proof fn lemma_kept_characters(c: char)
    ensures
        is_ascii_char(c) ==> (ascii_kept(c) <==> (('0' <= c && c <= '9') || ('a' <= c && c <= 'z')
            || ('A' <= c && c <= 'Z') || c == '-' || c == '_')),
        unicode_alphanumeric(c) ==> kept_in_username(c),
        kept_in_username('-') && kept_in_username('_'),
{
}

/// A username of ASCII letters and digits only loses nothing to
/// sanitizing: the result has its length, each character lowercased.
pub proof fn lemma_ascii_alphanumeric_name_kept_whole(username: Seq<char>)
    requires
        forall|i: int| 0 <= i < username.len() ==> is_ascii_alphanumeric(#[trigger] username[i]),
    ensures
        ascii_sanitized(username).len() == username.len(),
        forall|i: int|
            0 <= i < username.len() ==> #[trigger] ascii_sanitized(username)[i] == ascii_lower(username[i]),
{
    assert forall|i: int| 0 <= i < username.len() implies #[trigger] ascii_kept(username[i]) by {
        assert(is_ascii_alphanumeric(username[i]));
    }
    lemma_filter_all_kept(username);
}

proof fn lemma_ascii_char_facts(c: char)
    ensures
        ascii_kept(ascii_lower(c)) == ascii_kept(c),
        ascii_kept(ascii_upper(c)) == ascii_kept(c),
        ascii_lower(ascii_lower(c)) == ascii_lower(c),
        ascii_lower(ascii_upper(c)) == ascii_lower(c),
        is_ascii_char(c) ==> is_ascii_char(ascii_lower(c)) && is_ascii_char(ascii_upper(c)),
{
}

proof fn lemma_filter_all_kept(s: Seq<char>)
    requires
        forall|i: int| 0 <= i < s.len() ==> #[trigger] ascii_kept(s[i]),
    ensures
        s.filter(ascii_kept_fn()) == s,
    decreases s.len(),
{
    reveal(Seq::filter);
    if s.len() > 0 {
        let t = s.drop_last();
        assert forall|i: int| 0 <= i < t.len() implies #[trigger] ascii_kept(t[i]) by {
            assert(t[i] == s[i]);
        }
        lemma_filter_all_kept(t);
        assert(ascii_kept(s[s.len() - 1]));
        assert(t.push(s.last()) =~= s);
    }
}

proof fn lemma_filter_upper(s: Seq<char>)
    ensures
        s.map_values(ascii_upper_fn()).filter(ascii_kept_fn()) == s.filter(ascii_kept_fn()).map_values(
            ascii_upper_fn(),
        ),
    decreases s.len(),
{
    reveal(Seq::filter);
    if s.len() > 0 {
        let t = s.drop_last();
        lemma_filter_upper(t);
        let u = s.map_values(ascii_upper_fn());
        assert(u.drop_last() =~= t.map_values(ascii_upper_fn()));
        lemma_ascii_char_facts(s.last());
        let ft = t.filter(ascii_kept_fn());
        assert(ft.push(s.last()).map_values(ascii_upper_fn()) =~= ft.map_values(ascii_upper_fn()).push(
            ascii_upper(s.last()),
        ));
    }
}

/// Sanitizing an ASCII username gives ASCII text that sanitizing again
/// leaves unchanged.
pub proof fn lemma_ascii_sanitize_idempotent(username: Seq<char>)
    requires
        is_ascii_text(username),
    ensures
        is_ascii_text(ascii_sanitized(username)),
        ascii_sanitized(ascii_sanitized(username)) == ascii_sanitized(username),
{
    let f = username.filter(ascii_kept_fn());
    let s = ascii_sanitized(username);
    assert forall|i: int| 0 <= i < f.len() implies #[trigger] ascii_kept(f[i]) && is_ascii_char(f[i]) by {
        username.lemma_filter_pred(ascii_kept_fn(), i);
        assert(f.contains(f[i]));
        username.lemma_filter_contains_rev(ascii_kept_fn(), f[i]);
        let j = choose|j: int| 0 <= j < username.len() && username[j] == f[i];
        assert(is_ascii_char(username[j]));
    }
    assert forall|i: int| 0 <= i < s.len() implies #[trigger] ascii_kept(s[i]) && is_ascii_char(s[i]) by {
        lemma_ascii_char_facts(f[i]);
    }
    lemma_filter_all_kept(s);
    assert forall|i: int| 0 <= i < s.len() implies ascii_lower(#[trigger] s[i]) == s[i] by {
        lemma_ascii_char_facts(f[i]);
    }
    assert(s.map_values(ascii_lower_fn()) =~= s);
}

/// Sanitizing ignores case: an ASCII username written in upper case
/// sanitizes as the username itself does.
pub proof fn lemma_ascii_sanitize_ignores_case(username: Seq<char>)
    requires
        is_ascii_text(username),
    ensures
        is_ascii_text(username.map_values(ascii_upper_fn())),
        ascii_sanitized(username.map_values(ascii_upper_fn())) == ascii_sanitized(username),
{
    assert forall|i: int| 0 <= i < username.len() implies #[trigger] is_ascii_char(
        username.map_values(ascii_upper_fn())[i],
    ) by {
        lemma_ascii_char_facts(username[i]);
    }
    lemma_filter_upper(username);
    let f = username.filter(ascii_kept_fn());
    assert forall|i: int| 0 <= i < f.len() implies ascii_lower(ascii_upper(#[trigger] f[i])) == ascii_lower(f[i]) by {
        lemma_ascii_char_facts(f[i]);
    }
    assert(f.map_values(ascii_upper_fn()).map_values(ascii_lower_fn()) =~= f.map_values(ascii_lower_fn()));
}

/// The answer to a successful login.
pub fn login_succeeded() -> (r: LoginResponse)
    ensures
        r.succeeded(),
        r.message_text() == "Login successful"@,
        r.redirect_text() == Some("/"@),
{
    LoginResponse {
        success: true,
        message: String::from_str("Login successful"),
        redirect: Some(String::from_str("/")),
    }
}

/// The answer to a login whose token could not be signed.
pub fn login_failed_to_sign() -> (r: LoginResponse)
    ensures
        !r.succeeded(),
        r.message_text() == "Authentication error"@,
        r.redirect_text() is None,
{
    LoginResponse {
        success: false,
        message: String::from_str("Authentication error"),
        redirect: None,
    }
}

/// The first step of a login at Unix time `now`: a username that keeps
/// fewer than four characters after sanitizing is refused; any other gets the
/// claims of a token for `user-<sanitized>`, issued at `now` and valid for a
/// day.
pub fn begin_login(request: &LoginRequest, now: i64) -> (r: Result<Claims, LoginResponse>)
    requires
        now + SESSION_SECONDS <= i64::MAX,
    ensures
        is_ascii_text(request.username()@) ==> sanitized(request.username()@) == ascii_sanitized(
            request.username()@,
        ),
        sanitized(request.username()@).len() < 4 ==> (r matches Err(resp)
            && !resp.succeeded() && resp.message_text()
            == "Username must be at least 4 characters (alphanumeric only)."@
            && resp.redirect_text() is None),
        sanitized(request.username()@).len() >= 4 ==> (r matches Ok(claims)
            && claims.sub@ == "user-"@ + sanitized(request.username()@) && claims.username@
            == request.username()@ && claims.exp == now + SESSION_SECONDS && claims.iat == now),
{
    let name = &request.username;
    let clean = sanitize_username(name.as_str());
    if clean.as_str().unicode_len() < 4 {
        return Err(
            LoginResponse {
                success: false,
                message: String::from_str(
                    "Username must be at least 4 characters (alphanumeric only).",
                ),
                redirect: None,
            },
        );
    }
    let user_id = join("user-", clean.as_str());
    Ok(Claims { sub: user_id, username: name.clone(), exp: now + SESSION_SECONDS, iat: now })
}

/// A character of the URL-safe base64 alphabet, or the `.` that joins the
/// parts of a token.
pub open spec fn token_char(c: char) -> bool {
    is_ascii_alphanumeric(c) || c == '-' || c == '_' || c == '.'
}

/// Text made of token characters only.
pub open spec fn token_text(s: Seq<char>) -> bool {
    forall|i: int| 0 <= i < s.len() ==> #[trigger] token_char(s[i])
}

/// The token that `jsonwebtoken::encode` writes, with the default (HS256)
/// header and the key `secret`, for the claims `sub`, `username`, `exp`,
/// `iat`; `None` where encoding fails.
pub uninterp spec fn signed_token(
    secret: Seq<char>,
    sub: Seq<char>,
    username: Seq<char>,
    exp: i64,
    iat: i64,
) -> Option<Seq<char>>;

/// The claims `sub`, `username`, `exp`, `iat` that `jsonwebtoken::decode`
/// reads from `token` when its HS256 signature checks out under `secret`
/// and it carries an `exp` claim that is an unsigned integer; `None`
/// otherwise. The expiry itself is not checked here.
pub uninterp spec fn decoded_claims(secret: Seq<char>, token: Seq<char>) -> Option<
    (Seq<char>, Seq<char>, i64, i64),
>;

/// Signs the claims with `jsonwebtoken::encode` (default header, HS256,
/// key `secret`). Its result is named; what the source shows of it is that
/// decoding a signed token with the same key gives the claims back when
/// `exp` is not negative, and that a token is URL-safe base64 parts joined
/// by dots.
#[verifier::external_body]
fn sign_claims(claims: &Claims, secret: &str) -> (t: Option<String>)
    ensures
        match t {
            Some(s) => signed_token(secret@, claims.sub@, claims.username@, claims.exp, claims.iat)
                == Some(s@),
            None => signed_token(secret@, claims.sub@, claims.username@, claims.exp, claims.iat) is None,
        },
        t matches Some(s) ==> (claims.exp >= 0 ==> decoded_claims(secret@, s@) == Some(
            (claims.sub@, claims.username@, claims.exp, claims.iat),
        )),
        t matches Some(s) ==> token_text(s@),
{
    let mut m = serde_json::Map::new();
    m.insert("sub".to_string(), serde_json::Value::from(claims.sub.clone()));
    m.insert("username".to_string(), serde_json::Value::from(claims.username.clone()));
    m.insert("exp".to_string(), serde_json::Value::from(claims.exp));
    m.insert("iat".to_string(), serde_json::Value::from(claims.iat));
    let key = jsonwebtoken::EncodingKey::from_secret(secret.as_bytes());
    jsonwebtoken::encode(&jsonwebtoken::Header::default(), &m, &key).ok()
}

/// The identity a token holds at Unix time `now`: the subject and username
/// of its claims, unless it expired more than the leeway before `now`.
pub open spec fn token_identity(secret: Seq<char>, token: Seq<char>, now: u64) -> Option<
    (Seq<char>, Seq<char>),
> {
    match decoded_claims(secret, token) {
        Some((sub, username, exp, _iat)) => if exp + EXPIRY_LEEWAY_SECONDS < now {
            None
        } else {
            Some((sub, username))
        },
        None => None,
    }
}

/// A login at Unix time `now`: the answer, and the session token to set as
/// a cookie. A username that keeps fewer than four characters after sanitizing
/// is refused; a token that cannot be signed is an authentication error;
/// otherwise the login succeeds with the token of `begin_login`'s claims,
/// which holds the user's identity until a day (and the leeway) after
/// `now`.
pub fn finish_login(request: &LoginRequest, now: i64) -> (r: (LoginResponse, Option<String>))
    requires
        now + SESSION_SECONDS <= i64::MAX,
    ensures
        ({
            let user_id = "user-"@ + sanitized(request.username()@);
            let token = signed_token(
                JWT_SECRET@,
                user_id,
                request.username()@,
                (now + SESSION_SECONDS) as i64,
                now,
            );
            if sanitized(request.username()@).len() < 4 {
                &&& !r.0.succeeded()
                &&& r.0.message_text()
                    == "Username must be at least 4 characters (alphanumeric only)."@
                &&& r.0.redirect_text() is None
                &&& r.1 is None
            } else if token is None {
                &&& !r.0.succeeded()
                &&& r.0.message_text() == "Authentication error"@
                &&& r.0.redirect_text() is None
                &&& r.1 is None
            } else {
                &&& r.0.succeeded()
                &&& r.0.message_text() == "Login successful"@
                &&& r.0.redirect_text() == Some("/"@)
                &&& r.1 matches Some(t) && token == Some(t@) && token_text(t@) && (now + SESSION_SECONDS >= 0 ==> forall|at: u64|
                    #[trigger] token_identity(JWT_SECRET@, t@, at) == if at <= now
                        + SESSION_SECONDS + EXPIRY_LEEWAY_SECONDS {
                        Some((user_id, request.username()@))
                    } else {
                        None
                    })
            }
        }),
{
    let claims = match begin_login(request, now) {
        Ok(c) => c,
        Err(resp) => return (resp, None),
    };
    match sign_claims(&claims, JWT_SECRET) {
        Some(t) => (login_succeeded(), Some(t)),
        None => (login_failed_to_sign(), None),
    }
}

/// The cookie that carries a session token, as plain values.
pub struct SessionCookie {
    pub name: String,
    pub value: String,
    pub http_only: bool,
    /// `SameSite=Lax`.
    pub same_site_lax: bool,
    pub path: String,
    pub max_age_seconds: i64,
    pub domain: Option<String>,
}

/// The cookie a login sets: `COOKIE_NAME` holding the token, HTTP-only,
/// `SameSite=Lax`, for the path `/`, for a day; for the configured domain
/// where one is set and not empty, else for the host.
pub fn session_cookie(token: String, domain: Option<String>) -> (c: SessionCookie)
    ensures
        c.name@ == COOKIE_NAME@,
        c.value@ == token@,
        c.http_only,
        c.same_site_lax,
        c.path@ == "/"@,
        c.max_age_seconds == SESSION_SECONDS,
        match domain {
            Some(d) if d@.len() > 0 => c.domain matches Some(cd) && cd@ == d@,
            _ => c.domain is None,
        },
{
    let domain = match domain {
        Some(d) => if d.as_str().unicode_len() > 0 {
            Some(d)
        } else {
            None
        },
        None => None,
    };
    SessionCookie {
        name: String::from_str(COOKIE_NAME),
        value: token,
        http_only: true,
        same_site_lax: true,
        path: String::from_str("/"),
        max_age_seconds: SESSION_SECONDS,
        domain,
    }
}

/// What `cookie::Cookie::split_parse` yields for a `Cookie` header, in
/// order: the name and value of each cookie, or `None` where one fails to
/// parse.
pub uninterp spec fn parsed_cookies(header: Seq<char>) -> Seq<Option<(Seq<char>, Seq<char>)>>;

/// The header is the single pair `name=value`, both made of token
/// characters and the name not empty.
pub open spec fn single_cookie(header: Seq<char>, name: Seq<char>, value: Seq<char>) -> bool {
    &&& header == name + "="@ + value
    &&& name.len() > 0
    &&& token_text(name)
    &&& token_text(value)
}

/// The cookie at `i` of `header` parsed, with the name `name`.
pub open spec fn cookie_named(header: Seq<char>, i: int, name: Seq<char>) -> bool {
    parsed_cookies(header)[i] matches Some(c) && c.0 == name
}

/// Calls `Cookie::split_parse`, keeping the name and value of each cookie
/// and `None` for each parse error; what it yields is named, not stated,
/// but for a header that is one plain `name=value` pair, which it yields as
/// one cookie.
#[verifier::external_body]
fn cookie_pairs(header: &str) -> (pairs: Vec<Option<(String, String)>>)
    ensures
        pairs@.len() == parsed_cookies(header@).len(),
        forall|i: int|
            0 <= i < pairs@.len() ==> match (#[trigger] pairs@[i], parsed_cookies(header@)[i]) {
                (Some(p), Some(q)) => p.0@ == q.0 && p.1@ == q.1,
                (None, None) => true,
                _ => false,
            },
        forall|n: Seq<char>, v: Seq<char>|
            #[trigger] single_cookie(header@, n, v) ==> pairs@.len() == 1 && match pairs@[0] {
                Some(p) => p.0@ == n && p.1@ == v,
                None => false,
            },
{
    tower_cookies::Cookie::split_parse(header).map(|c| match c {
        Ok(c) => Some((c.name().to_string(), c.value().to_string())),
        Err(_) => None,
    }).collect()
}

/// The value of the first cookie named `COOKIE_NAME` in the header is `t`.
pub open spec fn first_cookie_value(header: Seq<char>, t: Seq<char>) -> bool {
    exists|i: int|
        0 <= i < parsed_cookies(header).len() && cookie_named(header, i, COOKIE_NAME@)
            && parsed_cookies(header)[i].unwrap().1 == t && forall|j: int|
            0 <= j < i ==> !#[trigger] cookie_named(header, j, COOKIE_NAME@)
}

/// No cookie of the header that parses is named `COOKIE_NAME`.
pub open spec fn no_session_cookie(header: Seq<char>) -> bool {
    forall|i: int|
        0 <= i < parsed_cookies(header).len() ==> !#[trigger] cookie_named(header, i, COOKIE_NAME@)
}

/// The first session cookie of a header has one value.
pub proof fn lemma_first_cookie_value_unique(header: Seq<char>, t: Seq<char>, u: Seq<char>)
    requires
        first_cookie_value(header, t),
        first_cookie_value(header, u),
    ensures
        t == u,
{
    let i = choose|i: int|
        0 <= i < parsed_cookies(header).len() && cookie_named(header, i, COOKIE_NAME@)
            && parsed_cookies(header)[i].unwrap().1 == t && forall|j: int|
            0 <= j < i ==> !#[trigger] cookie_named(header, j, COOKIE_NAME@);
    let k = choose|k: int|
        0 <= k < parsed_cookies(header).len() && cookie_named(header, k, COOKIE_NAME@)
            && parsed_cookies(header)[k].unwrap().1 == u && forall|j: int|
            0 <= j < k ==> !#[trigger] cookie_named(header, j, COOKIE_NAME@);
    if i < k {
        assert(!cookie_named(header, i, COOKIE_NAME@));
    } else if k < i {
        assert(!cookie_named(header, k, COOKIE_NAME@));
    }
}

/// The value of the first cookie named `COOKIE_NAME` among those of a
/// `Cookie` header that parse.
pub fn session_token(cookie_header: &str) -> (token: Option<String>)
    ensures
        match token {
            Some(t) => first_cookie_value(cookie_header@, t@),
            None => no_session_cookie(cookie_header@),
        },
        forall|v: Seq<char>|
            #[trigger] single_cookie(cookie_header@, COOKIE_NAME@, v) ==> (token matches Some(t)
                && t@ == v),
{
    let pairs = cookie_pairs(cookie_header);
    let n: usize = pairs.len();
    let mut i: usize = 0;
    while i < n
        invariant
            i <= n,
            n == pairs@.len(),
            n == parsed_cookies(cookie_header@).len(),
            forall|k: int|
                0 <= k < pairs@.len() ==> match (#[trigger] pairs@[k], parsed_cookies(cookie_header@)[k]) {
                    (Some(p), Some(q)) => p.0@ == q.0 && p.1@ == q.1,
                    (None, None) => true,
                    _ => false,
                },
            forall|j: int| 0 <= j < i ==> !#[trigger] cookie_named(cookie_header@, j, COOKIE_NAME@),
            forall|v: Seq<char>|
                #[trigger] single_cookie(cookie_header@, COOKIE_NAME@, v) ==> n == 1 && match pairs@[0] {
                    Some(p) => p.0@ == COOKIE_NAME@ && p.1@ == v,
                    None => false,
                },
        decreases n - i,
    {
        let ghost entry = pairs@[i as int];
        match &pairs[i] {
            Some(pair) => {
                if same_text(pair.0.as_str(), COOKIE_NAME) {
                    let t = pair.1.clone();
                    proof {
                        assert(entry == Some(*pair));
                        assert(cookie_named(cookie_header@, i as int, COOKIE_NAME@));
                        assert(parsed_cookies(cookie_header@)[i as int].unwrap().1 == t@);
                    }
                    return Some(t);
                }
            },
            None => {},
        }
        proof {
            assert(entry == pairs@[i as int]);
        }
        i = i + 1;
    }
    proof {
        assert forall|v: Seq<char>| #[trigger] single_cookie(cookie_header@, COOKIE_NAME@, v) implies false by {
            assert(cookie_named(cookie_header@, 0, COOKIE_NAME@));
        }
    }
    None
}

/// The user that the claims of a valid token identify.
pub fn identity_from_claims(claims: Claims) -> (u: UserIdentity)
    ensures
        u.user_id == claims.sub,
        u.username == claims.username,
{
    UserIdentity { user_id: claims.sub, username: claims.username }
}

/// Decodes a token with `jsonwebtoken::decode` (HS256 under `secret`) with
/// the expiry check switched off, and takes the four claims by name from
/// the decoded JSON object, each of its JSON type or the token is refused;
/// a claim that the token repeats counts once, with its last value. The
/// result is named.
#[verifier::external_body]
fn verify_token(token: &str, secret: &str) -> (c: Option<Claims>)
    ensures
        match c {
            Some(c) => decoded_claims(secret@, token@) == Some((c.sub@, c.username@, c.exp, c.iat)),
            None => decoded_claims(secret@, token@) is None,
        },
{
    let key = jsonwebtoken::DecodingKey::from_secret(secret.as_bytes());
    let mut validation = jsonwebtoken::Validation::default();
    validation.validate_exp = false;
    let m = jsonwebtoken::decode::<serde_json::Map<String, serde_json::Value>>(token, &key, &validation).ok()?.claims;
    Some(Claims {
        sub: m.get("sub")?.as_str()?.to_string(),
        username: m.get("username")?.as_str()?.to_string(),
        exp: m.get("exp")?.as_i64()?,
        iat: m.get("iat")?.as_i64()?,
    })
}

/// The identity that an optional user stands for.
pub open spec fn identity_view(u: Option<UserIdentity>) -> Option<(Seq<char>, Seq<char>)> {
    match u {
        Some(id) => Some((id.user_id@, id.username@)),
        None => None,
    }
}

/// `u` is the identity that the first session cookie of `header` holds at
/// Unix time `now`, where there is such a cookie.
pub open spec fn identifies_at(header: Seq<char>, u: Option<(Seq<char>, Seq<char>)>, now: u64) -> bool {
    forall|t: Seq<char>| #[trigger] first_cookie_value(header, t) ==> u == token_identity(JWT_SECRET@, t, now)
}

/// Where the header is the single plain pair `COOKIE_NAME=t`, `u` is the
/// identity that `t` holds at Unix time `now`.
pub open spec fn plain_identifies_at(header: Seq<char>, u: Option<(Seq<char>, Seq<char>)>, now: u64) -> bool {
    forall|t: Seq<char>| #[trigger] single_cookie(header, COOKIE_NAME@, t) ==> u == token_identity(JWT_SECRET@, t, now)
}

/// The user that a `Cookie` header's session token identifies at Unix time
/// `now`: none without a session cookie; otherwise the identity of the
/// first session cookie's token (see `token_identity`).
pub fn validate_cookie_at(cookie_header: &str, now: u64) -> (u: Option<UserIdentity>)
    ensures
        no_session_cookie(cookie_header@) ==> u is None,
        identifies_at(cookie_header@, identity_view(u), now),
        plain_identifies_at(cookie_header@, identity_view(u), now),
{
    let token = match session_token(cookie_header) {
        Some(t) => t,
        None => return None,
    };
    proof {
        assert forall|t: Seq<char>| #[trigger] first_cookie_value(cookie_header@, t) implies t == token@ by {
            lemma_first_cookie_value_unique(cookie_header@, t, token@);
        }
    }
    match verify_token(token.as_str(), JWT_SECRET) {
        Some(claims) => {
            if (claims.exp as i128) + (EXPIRY_LEEWAY_SECONDS as i128) < (now as i128) {
                None
            } else {
                Some(identity_from_claims(claims))
            }
        },
        None => None,
    }
}

/// The cookie a login sets, sent back as the header `COOKIE_NAME=t`,
/// identifies its user: for a token `t` of `finish_login`, which is token
/// text and holds the user's identity until a day and the leeway after the
/// login, `validate_cookie_at` on that header answers with that user.
pub proof fn lemma_login_cookie_identifies(
    t: Seq<char>,
    who: (Seq<char>, Seq<char>),
    u: Option<(Seq<char>, Seq<char>)>,
    now: u64,
)
    requires
        token_text(t),
        token_identity(JWT_SECRET@, t, now) == Some(who),
        plain_identifies_at(COOKIE_NAME@ + "="@ + t, u, now),
    ensures
        u == Some(who),
{
    reveal_strlit("workshop_token");
    assert(single_cookie(COOKIE_NAME@ + "="@ + t, COOKIE_NAME@, t));
}

/// The user that a `Cookie` header's session token identifies now (see
/// `validate_cookie_at`); a clock set before the epoch reads as the epoch.
pub fn validate_cookie(cookie_header: &str) -> (u: Option<UserIdentity>)
    ensures
        no_session_cookie(cookie_header@) ==> u is None,
        exists|now: u64| #[trigger] identifies_at(cookie_header@, identity_view(u), now)
            && plain_identifies_at(cookie_header@, identity_view(u), now),
{
    let now = match since_unix_epoch(&clock_now()) {
        Some(d) => whole_secs(&d),
        None => 0,
    };
    validate_cookie_at(cookie_header, now)
}

} // verus!
