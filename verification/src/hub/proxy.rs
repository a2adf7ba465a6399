//! Where the gateway sends each request: unauthenticated requests to the
//! login page, requests for `<workshop>.<domain>` to that workshop's pod, and
//! everything else to the hub's own pages.
use vstd::prelude::*;
use vstd::string::*;
use vstd::utf8::encode_utf8;
use crate::hub::auth::UserIdentity;
use crate::hub::error::HubError;
use crate::text::{
    chars_of, join, find_char, has_prefix, is_first_index, lemma_first_index_unique, same_text,
    starts_with, string_from_chars,
};

verus! {

/// The part of `s` before the first `c`, or all of `s` where there is none.
pub open spec fn before_first(s: Seq<char>, c: char) -> Seq<char> {
    if exists|i: int| is_first_index(s, c, i) {
        s.subrange(0, choose|i: int| is_first_index(s, c, i))
    } else {
        s
    }
}

/// The subdomain named by a `Host` header: the port is dropped, then the
/// first dot-separated label is the subdomain when it is not empty and the
/// rest of the name still holds a dot (three labels or more).
pub open spec fn subdomain_of(host: Seq<char>) -> Option<Seq<char>> {
    let h = before_first(host, ':');
    if exists|i: int| is_first_index(h, '.', i) {
        let i = choose|i: int| is_first_index(h, '.', i);
        if i > 0 && h.subrange(i + 1, h.len() as int).contains('.') {
            Some(h.subrange(0, i))
        } else {
            None
        }
    } else {
        None
    }
}

/// A host `w.d`, where `w` is a non-empty label without dots or colons and
/// the domain `d` holds a dot and no colon, names the subdomain `w`,
/// however many labels `d` has.
pub proof fn lemma_workshop_host_names_subdomain(w: Seq<char>, d: Seq<char>)
    requires
        w.len() > 0,
        !w.contains('.'),
        !w.contains(':'),
        d.contains('.'),
        !d.contains(':'),
    ensures
        subdomain_of(w + "."@ + d) == Some(w),
{
    reveal_strlit(".");
    let h = w + "."@ + d;
    assert(!h.contains(':')) by {
        if h.contains(':') {
            let k = choose|k: int| 0 <= k < h.len() && h[k] == ':';
            if k < w.len() {
                assert(w[k] == ':');
            } else if k > w.len() {
                assert(d[k - w.len() - 1] == ':');
            }
        }
    }
    assert(!exists|i: int| is_first_index(h, ':', i));
    assert(before_first(h, ':') == h);
    let n = w.len() as int;
    assert forall|j: int| 0 <= j < n implies h[j] != '.' by {
        assert(h[j] == w[j]);
    }
    assert(h[n] == '.');
    assert(is_first_index(h, '.', n));
    let i = choose|i: int| is_first_index(h, '.', i);
    lemma_first_index_unique(h, '.', i, n);
    assert(h.subrange(n + 1, h.len() as int) =~= d);
    assert(h.subrange(0, n) =~= w);
}

/// The subdomain named by a `Host` header (see `subdomain_of`):
/// `llm-embeddings.aiv.local:8080` names `llm-embeddings`; `aiv.local` and
/// `localhost` name none.
pub fn extract_subdomain(host: &str) -> (r: Option<String>)
    ensures
        match r {
            Some(s) => subdomain_of(host@) == Some(s@),
            None => subdomain_of(host@) is None,
        },
{
    let cs = chars_of(host);
    let n: usize = cs.len();
    let colon: usize = find_char(&cs, ':', 0, n);
    let ghost h = before_first(host@, ':');
    proof {
        if colon < n {
            assert(is_first_index(host@, ':', colon as int));
            let i = choose|i: int| is_first_index(host@, ':', i);
            lemma_first_index_unique(host@, ':', i, colon as int);
        } else {
            assert(!exists|i: int| is_first_index(host@, ':', i));
        }
        assert(h =~= host@.subrange(0, colon as int));
    }
    let dot: usize = find_char(&cs, '.', 0, colon);
    if dot == colon {
        proof {
            assert(!exists|i: int| is_first_index(h, '.', i));
        }
        return None;
    }
    proof {
        assert(is_first_index(h, '.', dot as int));
        let i = choose|i: int| is_first_index(h, '.', i);
        lemma_first_index_unique(h, '.', i, dot as int);
    }
    let second: usize = find_char(&cs, '.', dot + 1, colon);
    proof {
        let rest = h.subrange(dot + 1, h.len() as int);
        if second < colon {
            assert(rest[second - dot - 1] == '.');
        } else {
            assert forall|j: int| 0 <= j < rest.len() implies rest[j] != '.' by {
                assert(rest[j] == cs@[dot + 1 + j]);
            }
        }
    }
    if dot > 0 && second < colon {
        proof {
            assert(h.subrange(0, dot as int) =~= cs@.subrange(0, dot as int));
        }
        Some(string_from_chars(&cs, 0, dot))
    } else {
        None
    }
}

/// Where a request goes.
pub enum Upstream {
    /// The hub's own pages.
    Local,
    /// A workshop pod's proxy, at this URL.
    Workshop(String),
}

/// The upstream of a request, and the URI it is rewritten to, if any.
pub struct Route {
    pub upstream: Upstream,
    pub rewrite: Option<String>,
}

/// The routing decision for a request: made, or waiting for the pod of the
/// named workshop.
pub enum RouteStep {
    Done(Route),
    NeedPod(String),
}

/// Whether `http::Uri` accepts a string (through `FromStr`); it takes the
/// URI grammar to state.
pub uninterp spec fn uri_parses(s: Seq<char>) -> bool;

/// Whether `http::Uri` accepts an owned string (through `TryFrom<String>`);
/// it takes the URI grammar to state.
pub uninterp spec fn uri_parses_owned(s: Seq<char>) -> bool;

/// A byte that the form encoding writes as it is: `*`, `-`, `.`, `_`, and
/// ASCII digits and letters.
pub open spec fn form_unchanged(b: u8) -> bool {
    b == 42 || b == 45 || b == 46 || (48 <= b <= 57) || (65 <= b <= 90) || b == 95 || (97
        <= b <= 122)
}

/// The upper-case hexadecimal digit of `n` (below 16).
pub open spec fn hex_upper(n: int) -> char {
    if n < 10 {
        (48 + n) as char
    } else {
        (55 + n) as char
    }
}

/// The form encoding of one byte: itself where it is unchanged, `+` for a
/// space, `%XX` otherwise.
pub open spec fn form_byte(b: u8) -> Seq<char> {
    if form_unchanged(b) {
        seq![b as char]
    } else if b == 32 {
        seq!['+']
    } else {
        seq!['%', hex_upper(b as int / 16), hex_upper(b as int % 16)]
    }
}

/// The form encoding of a sequence of bytes, byte by byte.
pub open spec fn form_bytes(bs: Seq<u8>) -> Seq<char>
    decreases bs.len(),
{
    if bs.len() == 0 {
        Seq::<char>::empty()
    } else {
        form_bytes(bs.drop_last()) + form_byte(bs.last())
    }
}

/// The form encoding (`application/x-www-form-urlencoded`) of one key/value
/// pair: the UTF-8 bytes of each encoded, joined by `=`.
pub open spec fn urlencoded_pair(key: Seq<char>, value: Seq<char>) -> Seq<char> {
    form_bytes(encode_utf8(key)) + "="@ + form_bytes(encode_utf8(value))
}

/// Parses a `Uri` from a string slice (`FromStr`); whether it succeeds is named, not stated.
#[verifier::external_body]
fn uri_accepts(s: &str) -> (ok: bool)
    ensures
        ok == uri_parses(s@),
{
    s.parse::<axum::http::Uri>().is_ok()
}

/// Calls `Uri::try_from` on an owned string; whether it succeeds is named,
/// not stated.
#[verifier::external_body]
fn uri_accepts_owned(s: String) -> (ok: bool)
    ensures
        ok == uri_parses_owned(s@),
{
    axum::http::Uri::try_from(s).is_ok()
}

/// Calls `serde_urlencoded::to_string` on one pair of strings, which
/// writes it with `form_urlencoded`'s serializer and does not fail on
/// strings.
#[verifier::external_body]
fn urlencode_pair(key: &str, value: &str) -> (r: Option<String>)
    ensures
        match r {
            Some(s) => s@ == urlencoded_pair(key@, value@),
            None => false,
        },
{
    serde_urlencoded::to_string([(key, value)]).ok()
}

/// Paths served to users who have not logged in.
pub open spec fn open_path(path: Seq<char>) -> bool {
    path == "/workshop-login"@ || has_prefix(path, "/public"@) || has_prefix(path, "/assets"@)
        || path == "/health"@
}

/// The URI `/index` takes, with the request's query appended.
pub open spec fn index_uri(query: Option<Seq<char>>) -> Seq<char> {
    match query {
        Some(q) => "/index?"@ + q,
        None => "/index"@,
    }
}

/// The first routing decision. Without a user, open paths go to the hub
/// unchanged and every other path is rewritten to the login page. With a
/// user, a request for a workshop's subdomain waits for that workshop's
/// pod; any other goes to the hub, `/` rewritten to the index page.
pub fn route_request(path: &str, query: Option<&str>, host: &str, user: &Option<UserIdentity>) -> (step: RouteStep)
    ensures
        user is None ==> (step matches RouteStep::Done(route) && route.upstream is Local && if open_path(path@) {
            route.rewrite is None
        } else {
            route.rewrite matches Some(u) && u@ == "/workshop-login"@
        }),
        user is Some ==> match subdomain_of(host@) {
            Some(w) => step matches RouteStep::NeedPod(name) && name@ == w,
            None => step matches RouteStep::Done(route) && route.upstream is Local && if path@ == "/"@ {
                let target = index_uri(match query { Some(q) => Some(q@), None => None });
                route.rewrite matches Some(u) && u@ == (if uri_parses(target) { target } else { "/index"@ })
            } else {
                route.rewrite is None
            },
        },
{
    match user {
        None => {
            if same_text(path, "/workshop-login") || starts_with(path, "/public") || starts_with(path, "/assets") || same_text(path, "/health") {
                RouteStep::Done(Route { upstream: Upstream::Local, rewrite: None })
            } else {
                RouteStep::Done(Route { upstream: Upstream::Local, rewrite: Some(String::from_str("/workshop-login")) })
            }
        },
        Some(_) => {
            match extract_subdomain(host) {
                Some(workshop_name) => RouteStep::NeedPod(workshop_name),
                None => {
                    if same_text(path, "/") {
                        let target = match query {
                            Some(q) => join("/index?", q),
                            None => String::from_str("/index"),
                        };
                        let rewrite = if uri_accepts(target.as_str()) {
                            target
                        } else {
                            String::from_str("/index")
                        };
                        RouteStep::Done(Route { upstream: Upstream::Local, rewrite: Some(rewrite) })
                    } else {
                        RouteStep::Done(Route { upstream: Upstream::Local, rewrite: None })
                    }
                },
            }
        },
    }
}

/// The page that explains why a workshop's pod could not be had.
pub open spec fn error_path(workshop_name: Seq<char>, err: HubError) -> Seq<char> {
    match err {
        HubError::PodLimitReached => "/workshop-at-capacity/"@ + workshop_name,
        HubError::PodNotReady => "/workshop-pending/"@ + workshop_name,
        HubError::WorkshopNotFound => "/error-404"@,
        HubError::Error(e) => error_page(workshop_name, e@),
        HubError::KubeError { operation, message } => error_page(
            workshop_name,
            "Kubernetes API error during "@ + operation@ + ": "@ + message@,
        ),
    }
}

/// The error page of a workshop, carrying `message` in its query.
pub open spec fn error_page(workshop_name: Seq<char>, message: Seq<char>) -> Seq<char> {
    "/workshop-error/"@ + workshop_name + "?"@ + urlencoded_pair("message"@, message)
}

/// The second routing decision, once the pod of `workshop_name` was asked
/// for: its proxy URL sends the request there unchanged; an error sends it
/// to the hub's page for that error, or to `/workshop-error` where that
/// page's URI does not parse.
pub fn route_after_pod(workshop_name: &str, outcome: Result<String, HubError>) -> (route: Route)
    ensures
        match outcome {
            Ok(url) => route.upstream matches Upstream::Workshop(u) && u == url && route.rewrite is None,
            Err(e) => {
                &&& route.upstream is Local
                &&& route.rewrite matches Some(r)
                &&& r@ == (if uri_parses_owned(error_path(workshop_name@, e)) {
                    error_path(workshop_name@, e)
                } else {
                    "/workshop-error"@
                })
            },
        },
{
    let err = match outcome {
        Ok(url) => return Route { upstream: Upstream::Workshop(url), rewrite: None },
        Err(e) => e,
    };
    let path = match &err {
        HubError::PodLimitReached => join("/workshop-at-capacity/", workshop_name),
        HubError::PodNotReady => join("/workshop-pending/", workshop_name),
        HubError::WorkshopNotFound => String::from_str("/error-404"),
        HubError::Error(_) | HubError::KubeError { .. } => {
            let message = err.describe();
            let encoded = match urlencode_pair("message", message.as_str()) {
                Some(q) => q,
                None => String::new(),
            };
            let a = join("/workshop-error/", workshop_name);
            let b = join(a.as_str(), "?");
            join(b.as_str(), encoded.as_str())
        },
    };
    let ok = uri_accepts_owned(path.clone());
    let rewrite = if ok {
        path
    } else {
        String::from_str("/workshop-error")
    };
    Route { upstream: Upstream::Local, rewrite: Some(rewrite) }
}

} // verus!
