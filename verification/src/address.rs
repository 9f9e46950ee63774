//! Endpoint resolution and URL building: parse the configured endpoint into a
//! scheme and a host, classify the addressing mode, and build the host and
//! path of each request URL from bucket and object.
use vstd::prelude::*;

verus! {

use vstd::string::StrSliceExecFns;
use vstd::string::StringExecFns;

use crate::err::OssError;
use crate::escape::query_escape;
use crate::escape::query_escape_of;
use crate::text::push_str;
use crate::text::str_eq;

/// Index of the first `.` in `s`, or `s.len()` when there is none.
pub open spec fn find_dot(s: Seq<char>) -> int
    decreases s.len(),
{
    if s.len() == 0 {
        0
    } else if s[0] == '.' {
        0
    } else {
        1 + find_dot(s.drop_first())
    }
}

proof fn lemma_find_dot(s: Seq<char>, k: int)
    requires
        0 <= k <= s.len(),
        forall|j: int| 0 <= j < k ==> s[j] != '.',
        k < s.len() ==> s[k] == '.',
        k == s.len() ==> forall|j: int| 0 <= j < s.len() ==> s[j] != '.',
    ensures
        find_dot(s) == k,
    decreases k,
{
    if k == 0 {
        if s.len() > 0 && s[0] != '.' {
            assert(k < s.len() ==> s[k] == '.');
            assert(false);
        }
    } else {
        assert(s[0] != '.');
        lemma_find_dot(s.drop_first(), k - 1);
    }
}

/// Numeric value of a decimal digit.
pub open spec fn digit_val(c: char) -> int {
    (c as int) - 48
}

/// Whether `c` is a decimal digit.
pub open spec fn is_digit(c: char) -> bool {
    '0' <= c && c <= '9'
}

/// Whether `p` is one octet of a literal IPv4 address: one to three decimal
/// digits, no leading zero, value at most 255.
pub open spec fn is_ipv4_octet(p: Seq<char>) -> bool {
    &&& 1 <= p.len() <= 3
    &&& forall|j: int| 0 <= j < p.len() ==> is_digit(#[trigger] p[j])
    &&& p.len() > 1 ==> p[0] != '0'
    &&& octet_val(p) <= 255
}

/// Value of a one- to three-digit decimal numeral.
pub open spec fn octet_val(p: Seq<char>) -> int {
    if p.len() == 1 {
        digit_val(p[0])
    } else if p.len() == 2 {
        digit_val(p[0]) * 10 + digit_val(p[1])
    } else {
        digit_val(p[0]) * 100 + digit_val(p[1]) * 10 + digit_val(p[2])
    }
}

/// Whether `s`, from the front, is `parts` octets separated by dots.
pub open spec fn is_ipv4_from(s: Seq<char>, parts: int) -> bool
    decreases parts,
{
    let d = find_dot(s);
    if parts <= 1 {
        d == s.len() && is_ipv4_octet(s)
    } else {
        &&& d < s.len()
        &&& is_ipv4_octet(s.take(d))
        &&& is_ipv4_from(s.skip(d + 1), parts - 1)
    }
}

/// Whether `s` is a literal IPv4 address as `std` parses one: four decimal
/// octets without leading zeros, separated by dots.
pub open spec fn is_ipv4_text(s: Seq<char>) -> bool {
    is_ipv4_from(s, 4)
}

/// Decide whether one part is a valid octet.
fn check_octet(p: &str) -> (r: bool)
    ensures
        r == is_ipv4_octet(p@),
{
    let n = p.unicode_len();
    if n == 0 || n > 3 {
        return false;
    }
    let mut i: usize = 0;
    while i < n
        invariant
            0 <= i <= n,
            n == p@.len(),
            forall|j: int| 0 <= j < i ==> is_digit(#[trigger] p@[j]),
        decreases n - i,
    {
        let c = p.get_char(i);
        if !('0' <= c && c <= '9') {
            return false;
        }
        i = i + 1;
    }
    if n > 1 && p.get_char(0) == '0' {
        return false;
    }
    let v: u32 = if n == 1 {
        p.get_char(0) as u32 - 48
    } else if n == 2 {
        (p.get_char(0) as u32 - 48) * 10 + (p.get_char(1) as u32 - 48)
    } else {
        (p.get_char(0) as u32 - 48) * 100 + (p.get_char(1) as u32 - 48) * 10 + (p.get_char(2)
            as u32 - 48)
    };
    v <= 255
}

/// Index of the first dot of `s`, or its length when there is none.
fn find_dot_at(s: &str) -> (r: usize)
    ensures
        r == find_dot(s@),
        r <= s@.len(),
{
    let n = s.unicode_len();
    let mut i: usize = 0;
    while i < n
        invariant
            0 <= i <= n,
            n == s@.len(),
            forall|j: int| 0 <= j < i ==> s@[j] != '.',
        decreases n - i,
    {
        if s.get_char(i) == '.' {
            proof {
                lemma_find_dot(s@, i as int);
            }
            return i;
        }
        i = i + 1;
    }
    proof {
        lemma_find_dot(s@, n as int);
    }
    n
}

/// Decide whether a host is a literal IPv4 address.
pub fn is_ipv4_literal(s: &str) -> (r: bool)
    ensures
        r == is_ipv4_text(s@),
{
    let mut rest: String = s.to_owned();
    let mut parts: usize = 4;
    loop
        invariant
            1 <= parts <= 4,
            is_ipv4_text(s@) == is_ipv4_from(rest@, parts as int),
        decreases parts,
    {
        let d = find_dot_at(rest.as_str());
        let n = rest.unicode_len();
        if parts == 1 {
            return d == n && check_octet(rest.as_str());
        }
        if d == n {
            return false;
        }
        if !check_octet(rest.as_str().substring_char(0, d)) {
            return false;
        }
        let next = rest.as_str().substring_char(d + 1, n).to_owned();
        proof {
            assert(next@ =~= rest@.skip(d + 1));
        }
        rest = next;
        parts = parts - 1;
    }
}

/// The addressing mode of a client: a CNAME host used as-is, a literal IP
/// host addressed path-style, or virtual-hosted addressing on the service
/// domain.
#[derive(Clone, Copy, PartialEq, Eq, Structural, Debug)]
pub enum UrlType {
    CNAME,
    IP,
    ALIYUN,
}

/// Which scheme and host a URL string parses to; what `url::Url::parse`
/// followed by `scheme` and `host_str` answers.
pub uninterp spec fn url_scheme_host(s: Seq<char>) -> Option<(Seq<char>, Option<Seq<char>>)>;

/// Relies on url::Url::parse, Url::scheme and Url::host_str: scheme and host
/// of a parsed URL are a function of the input string alone.
#[verifier::external_body]
pub(crate) fn parse_scheme_host(s: &str) -> (r: Option<(String, Option<String>)>)
    ensures
        r.deep_view() == url_scheme_host(s@),
{
    match url::Url::parse(s) {
        Ok(u) => Some((u.scheme().to_string(), u.host_str().map(|h| h.to_string()))),
        Err(_) => None,
    }
}

/// Scheme and host of the endpoint: parsed as written, or, when that fails,
/// with `http://` prefixed.
pub open spec fn effective_scheme_host(endpoint: Seq<char>) -> Option<
    (Seq<char>, Option<Seq<char>>),
> {
    match url_scheme_host(endpoint) {
        Some(sh) => Some(sh),
        None => url_scheme_host("http://"@ + endpoint),
    }
}

/// The addressing mode of a host: a literal IPv4 host is always addressed by
/// IP, whatever the `cname` flag says.
pub open spec fn classify_host(host: Seq<char>, cname: bool) -> UrlType {
    if is_ipv4_text(host) {
        UrlType::IP
    } else if cname {
        UrlType::CNAME
    } else {
        UrlType::ALIYUN
    }
}

/// A literal IPv4 host is addressed by IP regardless of the `cname` flag.
pub proof fn lemma_ipv4_mode_fixed(host: Seq<char>, cname: bool)
    requires
        is_ipv4_text(host),
    ensures
        classify_host(host, cname) == UrlType::IP,
{
}

/// The resolved endpoint: scheme, host and addressing mode, fixed for the
/// lifetime of a client.
#[derive(Debug, Clone)]
pub struct UrlMaker {
    pub schema: String,
    pub net_loc: String,
    pub typ: UrlType,
    pub is_proxy: bool,
}

/// Whether a resolved endpoint is exactly what resolving `endpoint` yields.
pub open spec fn resolved_ok(m: UrlMaker, endpoint: Seq<char>, cname: bool, proxy: bool) -> bool {
    match effective_scheme_host(endpoint) {
        Some((sc, hopt)) => match hopt {
            Some(h) => {
                &&& (sc == "http"@ || sc == "https"@)
                &&& m.schema@ == sc
                &&& m.net_loc@ == h
                &&& m.typ == classify_host(h, cname)
                &&& m.is_proxy == proxy
            },
            None => false,
        },
        None => false,
    }
}

/// Whether resolving `endpoint` must be refused.
pub open spec fn resolve_fails(endpoint: Seq<char>) -> bool {
    match effective_scheme_host(endpoint) {
        Some((sc, hopt)) => !(sc == "http"@ || sc == "https"@) || hopt is None,
        None => true,
    }
}

impl UrlMaker {
    /// Resolve an endpoint string. Only `http` and `https` schemes are
    /// accepted, and the endpoint must have an extractable host.
    pub fn new(endpoint: &str, is_cname: bool, is_proxy: bool) -> (r: Result<UrlMaker, OssError>)
        ensures
            match r {
                Ok(m) => resolved_ok(m, endpoint@, is_cname, is_proxy),
                Err(e) => resolve_fails(endpoint@) && e is Config,
            },
    {
        let parsed = match parse_scheme_host(endpoint) {
            Some(p) => Some(p),
            None => {
                let mut prefixed = String::new();
                proof {
                    reveal_strlit("http://");
                }
                push_str(&mut prefixed, "http://");
                push_str(&mut prefixed, endpoint);
                parse_scheme_host(prefixed.as_str())
            },
        };
        match parsed {
            None => Err(OssError::Config(String::from_str("cannot parse endpoint"))),
            Some((scheme, host_opt)) => {
                if !(str_eq(scheme.as_str(), "http") || str_eq(scheme.as_str(), "https")) {
                    return Err(
                        OssError::Config(
                            String::from_str("invalid schema: should be http or https only!"),
                        ),
                    );
                }
                match host_opt {
                    None => Err(
                        OssError::Config(
                            String::from_str("cannot extract host info from endpoint!"),
                        ),
                    ),
                    Some(host) => {
                        let typ = if is_ipv4_literal(host.as_str()) {
                            UrlType::IP
                        } else if is_cname {
                            UrlType::CNAME
                        } else {
                            UrlType::ALIYUN
                        };
                        Ok(UrlMaker { schema: scheme, net_loc: host, typ, is_proxy })
                    },
                }
            },
        }
    }

    /// The host and path that addressing `bucket` and `object` under this
    /// endpoint produces; the object key is query-escaped into the path.
    pub open spec fn host_path(&self, bucket: Seq<char>, object: Seq<char>) -> (Seq<char>, Seq<
        char,
    >) {
        let esc = query_escape_of(object);
        match self.typ {
            UrlType::CNAME => (self.net_loc@, "/"@ + esc),
            UrlType::IP => (
                self.net_loc@,
                if bucket.len() == 0 {
                    "/"@
                } else {
                    "/"@ + bucket + "/"@ + esc
                },
            ),
            UrlType::ALIYUN => if bucket.len() == 0 {
                (self.net_loc@, "/"@)
            } else {
                (bucket + "."@ + self.net_loc@, "/"@ + esc)
            },
        }
    }

    /// The full URL of a request: scheme, host, path, and the query string
    /// when one is present.
    pub open spec fn url_of(&self, bucket: Seq<char>, object: Seq<char>, params: Seq<char>) -> Seq<
        char,
    > {
        let (host, path) = self.host_path(bucket, object);
        let base = self.schema@ + "://"@ + host + path;
        if params.len() == 0 {
            base
        } else {
            base + "?"@ + params
        }
    }

    /// Build the host and path for a bucket and an object.
    pub fn build_url(&self, bucket: &str, object: &str) -> (r: (String, String))
        ensures
            (r.0@, r.1@) == self.host_path(bucket@, object@),
    {
        proof {
            reveal_strlit("/");
            reveal_strlit(".");
        }
        let object = query_escape(object);
        match self.typ {
            UrlType::CNAME => {
                let host = self.net_loc.clone();
                let mut path = String::from_str("/");
                push_str(&mut path, object.as_str());
                (host, path)
            },
            UrlType::IP => {
                let host = self.net_loc.clone();
                if bucket.is_empty() {
                    (host, String::from_str("/"))
                } else {
                    let mut path = String::from_str("/");
                    push_str(&mut path, bucket);
                    push_str(&mut path, "/");
                    push_str(&mut path, object.as_str());
                    (host, path)
                }
            },
            UrlType::ALIYUN => {
                if bucket.is_empty() {
                    (self.net_loc.clone(), String::from_str("/"))
                } else {
                    let mut host = String::from_str(bucket);
                    push_str(&mut host, ".");
                    push_str(&mut host, self.net_loc.as_str());
                    let mut path = String::from_str("/");
                    push_str(&mut path, object.as_str());
                    (host, path)
                }
            },
        }
    }

    /// Build the full request URL, appending the query string when non-empty.
    pub fn get_url(&self, bucket: &str, object: &str, params: &str) -> (r: String)
        ensures
            r@ == self.url_of(bucket@, object@, params@),
    {
        proof {
            reveal_strlit("://");
            reveal_strlit("?");
        }
        let (host, path) = self.build_url(bucket, object);
        let mut url = self.schema.clone();
        push_str(&mut url, "://");
        push_str(&mut url, host.as_str());
        push_str(&mut url, path.as_str());
        if !params.is_empty() {
            push_str(&mut url, "?");
            push_str(&mut url, params);
        }
        url
    }
}

} // verus!
