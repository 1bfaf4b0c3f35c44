//! Request dispatch: the tunnel prefix, the image path, and plain proxying
//! of `/<domain>/<path>?<query>` to `https://<domain>/<path>?<query>`.
use vstd::prelude::*;

verus! {

/// How `^/(?P<domain>[^/]+)(?P<path>/[^?]*)?(?P<query>\?.*)?$` splits a path,
/// as domain, path and query (an absent group is empty), if it matches.
pub uninterp spec fn api_path_split(path: Seq<char>) -> Option<(Seq<char>, Seq<char>, Seq<char>)>;

/// Relies on `regex::Regex::captures`: the named groups of the one match, if any.
#[verifier::external_body]
fn split_api_path(path: &str) -> (r: Option<(String, String, String)>)
    ensures
        r is Some <==> api_path_split(path@) is Some,
        r matches Some(t) ==> (t.0@, t.1@, t.2@) == api_path_split(path@).unwrap(),
{
    let re = regex::Regex::new(r"^/(?P<domain>[^/]+)(?P<path>/[^?]*)?(?P<query>\?.*)?$").ok()?;
    let caps = re.captures(path)?;
    let group = |n: &str| caps.name(n).map_or("", |m| m.as_str()).to_string();
    Some((group("domain"), group("path"), group("query")))
}

/// Whether a text is accepted as a URI.
pub uninterp spec fn uri_accepts(s: Seq<char>) -> bool;

/// Relies on `http::Uri`'s `FromStr`: whether the text parses as a URI.
#[verifier::external_body]
fn parses_as_uri(s: &str) -> (r: bool)
    ensures
        r == uri_accepts(s@),
{
    s.parse::<http::Uri>().is_ok()
}

pub open spec fn is_prefix(p: Seq<char>, s: Seq<char>) -> bool {
    p.len() <= s.len() && s.subrange(0, p.len() as int) == p
}

/// Whether `s` starts with `p`.
pub fn has_prefix(s: &str, p: &str) -> (r: bool)
    ensures
        r == is_prefix(p@, s@),
{
    let n = p.unicode_len();
    let m = s.unicode_len();
    if n > m {
        return false;
    }
    let mut i: usize = 0;
    while i < n
        invariant
            n == p@.len(),
            m == s@.len(),
            n <= m,
            i <= n,
            forall|k: int| 0 <= k < i ==> s@[k] == p@[k],
        decreases n - i,
    {
        if s.get_char(i) != p.get_char(i) {
            assert(s@.subrange(0, n as int)[i as int] != p@[i as int]);
            return false;
        }
        i = i + 1;
    }
    assert(s@.subrange(0, n as int) =~= p@);
    true
}

/// Whether two texts are equal.
pub fn same_text(a: &str, b: &str) -> (r: bool)
    ensures
        r == (a@ == b@),
{
    let n = b.unicode_len();
    if a.unicode_len() != n {
        return false;
    }
    let r = has_prefix(a, b);
    assert(a@.subrange(0, n as int) =~= a@);
    r
}

/// Whether a text holds a '.'.
pub fn contains_dot(s: &str) -> (r: bool)
    ensures
        r == s@.contains('.'),
{
    let n = s.unicode_len();
    let mut i: usize = 0;
    while i < n
        invariant
            n == s@.len(),
            i <= n,
            forall|k: int| 0 <= k < i ==> s@[k] != '.',
        decreases n - i,
    {
        if s.get_char(i) == '.' {
            return true;
        }
        i = i + 1;
    }
    false
}

/// The tunnel's path prefix: `/tj` when none is configured, and a leading
/// '/' added where the configured one lacks it.
pub fn prefix_from(configured: Option<&str>) -> (r: String)
    ensures
        configured is None ==> r@ == "/tj"@,
        configured matches Some(c) ==> (if is_prefix("/"@, c@) {
            r@ == c@
        } else {
            r@ == "/"@ + c@
        }),
{
    match configured {
        None => String::from_str("/tj"),
        Some(c) => {
            if has_prefix(c, "/") {
                String::from_str(c)
            } else {
                String::from_str("/").concat(c)
            }
        },
    }
}

pub enum Route {
    /// Open a tunnel.
    Tunnel,
    /// The image path.
    Image,
    /// Proxy to this URL.
    Api(String),
    NotFound,
}

/// Where a request for `path` goes, given the tunnel prefix.
pub fn route(path: &str, prefix: &str) -> (r: Route)
    ensures
        is_prefix(prefix@, path@) ==> r is Tunnel,
        !is_prefix(prefix@, path@) && is_prefix("/v2"@, path@) ==> r is Image,
        !is_prefix(prefix@, path@) && !is_prefix("/v2"@, path@) ==> match api_path_split(path@) {
            Some((d, p, q)) => {
                let url = "https://"@ + d + p + q;
                if d.contains('.') && uri_accepts(url) {
                    r matches Route::Api(u) && u@ == url
                } else {
                    r is NotFound
                }
            },
            None => r is NotFound,
        },
{
    if has_prefix(path, prefix) {
        return Route::Tunnel;
    }
    if has_prefix(path, "/v2") {
        return Route::Image;
    }
    match split_api_path(path) {
        Some((d, p, q)) => {
            if !contains_dot(d.as_str()) {
                return Route::NotFound;
            }
            let url = String::from_str("https://").concat(d.as_str()).concat(p.as_str()).concat(
                q.as_str(),
            );
            if parses_as_uri(url.as_str()) {
                Route::Api(url)
            } else {
                Route::NotFound
            }
        },
        None => Route::NotFound,
    }
}

/// Header names that a proxy must not forward: hop-by-hop headers, those a
/// proxy regenerates, and those of the hosting edge network.
pub open spec fn hop_headers() -> Seq<Seq<char>> {
    seq![
        "connection"@, "keep-alive"@, "proxy-authenticate"@, "proxy-authorization"@, "te"@,
        "trailer"@, "transfer-encoding"@, "upgrade"@, "x-forwarded-for"@, "x-forwarded-host"@,
        "x-forwarded-proto"@, "x-real-ip"@, "cf-connecting-ip"@, "cf-ray"@, "cf-ipcountry"@,
        "cf-request-id"@, "via"@, "x-forwarded-port"@, "x-forwarded-server"@,
    ]
}

pub fn get_hop_headers() -> (r: Vec<&'static str>)
    ensures
        r@.len() == hop_headers().len(),
        forall|i: int| 0 <= i < r@.len() ==> r@[i]@ == hop_headers()[i],
{
    let r = vec![
        "connection", "keep-alive", "proxy-authenticate", "proxy-authorization", "te",
        "trailer", "transfer-encoding", "upgrade", "x-forwarded-for", "x-forwarded-host",
        "x-forwarded-proto", "x-real-ip", "cf-connecting-ip", "cf-ray", "cf-ipcountry",
        "cf-request-id", "via", "x-forwarded-port", "x-forwarded-server",
    ];
    assert(r@.len() == hop_headers().len());
    r
}

/// Whether a header name is one that is not forwarded.
pub fn is_hop_header(name: &str) -> (r: bool)
    ensures
        r == hop_headers().contains(name@),
{
    let hops = get_hop_headers();
    let mut i: usize = 0;
    while i < hops.len()
        invariant
            hops@.len() == hop_headers().len(),
            forall|k: int| 0 <= k < hops@.len() ==> hops@[k]@ == hop_headers()[k],
            i <= hops@.len(),
            forall|k: int| 0 <= k < i ==> hop_headers()[k] != name@,
        decreases hops@.len() - i,
    {
        if same_text(hops[i], name) {
            assert(hop_headers()[i as int] == name@);
            return true;
        }
        i = i + 1;
    }
    false
}

/// Whether a request header is forwarded upstream.
pub fn forward_request_header(name: &str) -> (r: bool)
    ensures
        r == !hop_headers().contains(name@),
{
    !is_hop_header(name)
}

/// Whether a response header is passed back: not a hop header, and not the
/// content encoding (the body is handed on decoded).
pub fn forward_response_header(name: &str) -> (r: bool)
    ensures
        r == (!hop_headers().contains(name@) && name@ != "content-encoding"@),
{
    !is_hop_header(name) && !same_text(name, "content-encoding")
}

} // verus!
