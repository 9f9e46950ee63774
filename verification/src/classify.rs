//! Response classification: a success status hands the body back; any other
//! status is parsed as a protocol error document with Code, Message and
//! RequestId fields, falling back to the raw text when parsing fails.
use vstd::prelude::*;

verus! {

use vstd::string::StrSliceExecFns;
use vstd::string::StringExecFns;

use crate::err::OssError;
use crate::text::push_str;
use crate::text::str_eq;

/// What lossy UTF-8 decoding returns: a function of the bytes alone.
pub uninterp spec fn lossy_of(b: Seq<u8>) -> Seq<char>;

/// Relies on String::from_utf8_lossy: the decoded text depends on the bytes
/// alone.
#[verifier::external_body]
pub fn utf8_lossy(b: &[u8]) -> (r: String)
    ensures
        r@ == lossy_of(b@),
{
    String::from_utf8_lossy(b).into_owned()
}

/// Position of the first occurrence of `pat` in `s` at or after `from`.
pub open spec fn find_sub(s: Seq<char>, pat: Seq<char>, from: int) -> Option<int>
    decreases s.len() - from,
{
    if from < 0 || pat.len() == 0 || from + pat.len() > s.len() {
        None
    } else if s.subrange(from, from + pat.len()) == pat {
        Some(from)
    } else {
        find_sub(s, pat, from + 1)
    }
}

/// Find the first occurrence of `pat` in `s` at or after `from`.
fn find_sub_at(s: &str, pat: &str, from: usize) -> (r: Option<usize>)
    ensures
        match r {
            Some(i) => find_sub(s@, pat@, from as int) == Some(i as int) && from <= i && i
                + pat@.len() <= s@.len(),
            None => find_sub(s@, pat@, from as int) is None,
        },
{
    let n = s.unicode_len();
    let m = pat.unicode_len();
    if m == 0 || from > n || m > n - from {
        return None;
    }
    let mut i: usize = from;
    while i <= n - m
        invariant
            from <= i <= n - m + 1,
            1 <= m <= n,
            n == s@.len(),
            m == pat@.len(),
            find_sub(s@, pat@, from as int) == find_sub(s@, pat@, i as int),
        decreases n - i,
    {
        let piece = s.substring_char(i, i + m);
        if str_eq(piece, pat) {
            proof {
                assert(s@.subrange(i as int, i + m) == pat@);
            }
            return Some(i);
        }
        proof {
            assert(s@.subrange(i as int, i + m) != pat@);
        }
        i = i + 1;
    }
    proof {
        assert(i + pat@.len() > s@.len());
    }
    None
}

/// The opening tag of an element.
pub open spec fn tag_open(name: Seq<char>) -> Seq<char> {
    "<"@ + name + ">"@
}

/// The closing tag of an element.
pub open spec fn tag_close(name: Seq<char>) -> Seq<char> {
    "</"@ + name + ">"@
}

/// The text between the first `<name>` and the next `</name>` after it, if
/// both are present.
pub open spec fn extract_tag(s: Seq<char>, name: Seq<char>) -> Option<Seq<char>> {
    match find_sub(s, tag_open(name), 0) {
        None => None,
        Some(i) => {
            let start = i + tag_open(name).len();
            match find_sub(s, tag_close(name), start) {
                None => None,
                Some(j) => Some(s.subrange(start, j)),
            }
        },
    }
}

/// Extract the content of the first `name` element.
fn extract_tag_text(s: &str, name: &str) -> (r: Option<String>)
    ensures
        r.deep_view() == extract_tag(s@, name@),
{
    proof {
        reveal_strlit("<");
        reveal_strlit("</");
        reveal_strlit(">");
    }
    let mut open = String::from_str("<");
    push_str(&mut open, name);
    push_str(&mut open, ">");
    let mut close = String::from_str("</");
    push_str(&mut close, name);
    push_str(&mut close, ">");
    proof {
        assert(open@ == tag_open(name@));
        assert(close@ == tag_close(name@));
    }
    let n = s.unicode_len();
    match find_sub_at(s, open.as_str(), 0) {
        None => None,
        Some(i) => {
            proof {
                assert(i + open@.len() <= n);
            }
            let start = i + open.as_str().unicode_len();
            match find_sub_at(s, close.as_str(), start) {
                None => None,
                Some(j) => {
                    proof {
                        assert(start + close@.len() <= s@.len());
                    }
                    Some(s.substring_char(start, j).to_owned())
                },
            }
        },
    }
}

/// A structured protocol error parsed out of an error response body.
#[derive(Debug)]
pub struct ServiceError {
    pub code: String,
    pub message: String,
    pub request_id: String,
}

/// The Code, Message and RequestId fields of an error document, when all
/// three are present.
pub open spec fn error_fields(t: Seq<char>) -> Option<(Seq<char>, Seq<char>, Seq<char>)> {
    match extract_tag(t, "Code"@) {
        None => None,
        Some(code) => match extract_tag(t, "Message"@) {
            None => None,
            Some(message) => match extract_tag(t, "RequestId"@) {
                None => None,
                Some(request_id) => Some((code, message, request_id)),
            },
        },
    }
}

impl ServiceError {
    /// Parse a protocol error document out of a response body.
    pub fn try_from_xml(body: &[u8]) -> (r: Option<ServiceError>)
        ensures
            match r {
                Some(e) => error_fields(lossy_of(body@)) == Some((e.code@, e.message@, e.request_id@)),
                None => error_fields(lossy_of(body@)) is None,
            },
    {
        let text = utf8_lossy(body);
        let code = match extract_tag_text(text.as_str(), "Code") {
            Some(c) => c,
            None => {
                return None;
            },
        };
        let message = match extract_tag_text(text.as_str(), "Message") {
            Some(m) => m,
            None => {
                return None;
            },
        };
        let request_id = match extract_tag_text(text.as_str(), "RequestId") {
            Some(ri) => ri,
            None => {
                return None;
            },
        };
        Some(ServiceError { code, message, request_id })
    }
}

/// Decide whether an HTTP status code belongs to the success class (2xx).
pub fn is_success_status(status: u16) -> (r: bool)
    ensures
        r == (200 <= status < 300),
{
    200 <= status && status < 300
}

/// Classify a response: a success status hands the body back unchanged; any
/// other status becomes a structured service error when the body parses as a
/// protocol error document, and otherwise an unparsed error that keeps the
/// body's text.
pub fn classify_response(status: u16, body: Vec<u8>) -> (r: Result<Vec<u8>, OssError>)
    ensures
        match r {
            Ok(b) => 200 <= status < 300 && b@ == body@,
            Err(e) => !(200 <= status < 300) && match error_fields(lossy_of(body@)) {
                Some((code, message, request_id)) => e matches OssError::Service {
                    status: s,
                    code: c,
                    message: m,
                    request_id: ri,
                } && s == status && c@ == code && m@ == message && ri@ == request_id,
                None => e matches OssError::UnparsedService { status: s, raw_body }
                    && s == status && raw_body@ == lossy_of(body@),
            },
        },
{
    if is_success_status(status) {
        return Ok(body);
    }
    match ServiceError::try_from_xml(body.as_slice()) {
        Some(e) => Err(
            OssError::Service {
                status,
                code: e.code,
                message: e.message,
                request_id: e.request_id,
            },
        ),
        None => Err(OssError::UnparsedService { status, raw_body: utf8_lossy(body.as_slice()) }),
    }
}

} // verus!
