//! Parameter canonicalization: the URL query string sent on the wire, and the
//! canonical sub-resource string that only signing consumes. Both walk the
//! parameter names in ascending order; V1 signs only allowlisted names with
//! verbatim values, V2 signs every parameter with escaped names and values.
use vstd::prelude::*;

verus! {

use vstd::string::StrSliceExecFns;

use crate::assoc::assoc_insert;
use crate::assoc::entries_sorted;
use crate::assoc::lemma_assoc_insert_sorted;
use crate::assoc::map_set;
use crate::config::AuthVersion;
use crate::escape::form_escape;
use crate::escape::form_escape_of;
use crate::escape::query_escape;
use crate::escape::query_escape_of;
use crate::text::push_char_from;
use crate::text::push_str;
use crate::text::str_eq;
use crate::types::Params;

/// Whether a parameter name participates in V1 signing: the fixed
/// allowlist of sub-resource names the protocol defines.
pub open spec fn is_sign_key(k: Seq<char>) -> bool {
    ||| k == "acl"@
    ||| k == "uploads"@
    ||| k == "location"@
    ||| k == "cors"@
    ||| k == "logging"@
    ||| k == "website"@
    ||| k == "referer"@
    ||| k == "lifecycle"@
    ||| k == "delete"@
    ||| k == "append"@
    ||| k == "tagging"@
    ||| k == "objectMeta"@
    ||| k == "uploadId"@
    ||| k == "partNumber"@
    ||| k == "security-token"@
    ||| k == "position"@
    ||| k == "img"@
    ||| k == "style"@
    ||| k == "styleName"@
    ||| k == "replication"@
    ||| k == "replicationProgress"@
    ||| k == "replicationLocation"@
    ||| k == "cname"@
    ||| k == "bucketInfo"@
    ||| k == "comp"@
    ||| k == "qos"@
    ||| k == "live"@
    ||| k == "status"@
    ||| k == "vod"@
    ||| k == "startTime"@
    ||| k == "endTime"@
    ||| k == "symlink"@
    ||| k == "x-oss-process"@
    ||| k == "response-content-type"@
    ||| k == "x-oss-traffic-limit"@
    ||| k == "response-content-language"@
    ||| k == "response-expires"@
    ||| k == "response-cache-control"@
    ||| k == "response-content-disposition"@
    ||| k == "response-content-encoding"@
    ||| k == "udf"@
    ||| k == "udfName"@
    ||| k == "udfImage"@
    ||| k == "udfId"@
    ||| k == "udfImageDesc"@
    ||| k == "udfApplication"@
    ||| k == "udfApplicationLog"@
    ||| k == "restore"@
    ||| k == "callback"@
    ||| k == "callback-var"@
    ||| k == "qosInfo"@
    ||| k == "policy"@
    ||| k == "stat"@
    ||| k == "encryption"@
    ||| k == "versions"@
    ||| k == "versioning"@
    ||| k == "versionId"@
    ||| k == "requestPayment"@
    ||| k == "x-oss-request-payer"@
    ||| k == "sequential"@
    ||| k == "inventory"@
    ||| k == "inventoryId"@
    ||| k == "continuation-token"@
    ||| k == "asyncFetch"@
    ||| k == "worm"@
    ||| k == "wormId"@
    ||| k == "wormExtend"@
    ||| k == "withHashContext"@
    ||| k == "x-oss-enable-md5"@
    ||| k == "x-oss-enable-sha1"@
    ||| k == "x-oss-enable-sha256"@
    ||| k == "x-oss-hash-ctx"@
    ||| k == "x-oss-md5-ctx"@
    ||| k == "transferAcceleration"@
    ||| k == "regionList"@
}

/// Decide whether a parameter name participates in V1 signing.
pub fn is_param_sign(k: &str) -> (r: bool)
    ensures
        r == is_sign_key(k@),
{
    let mut r = false;
    r = r || str_eq(k, "acl");
    r = r || str_eq(k, "uploads");
    r = r || str_eq(k, "location");
    r = r || str_eq(k, "cors");
    r = r || str_eq(k, "logging");
    r = r || str_eq(k, "website");
    r = r || str_eq(k, "referer");
    r = r || str_eq(k, "lifecycle");
    r = r || str_eq(k, "delete");
    r = r || str_eq(k, "append");
    r = r || str_eq(k, "tagging");
    r = r || str_eq(k, "objectMeta");
    r = r || str_eq(k, "uploadId");
    r = r || str_eq(k, "partNumber");
    r = r || str_eq(k, "security-token");
    r = r || str_eq(k, "position");
    r = r || str_eq(k, "img");
    r = r || str_eq(k, "style");
    r = r || str_eq(k, "styleName");
    r = r || str_eq(k, "replication");
    r = r || str_eq(k, "replicationProgress");
    r = r || str_eq(k, "replicationLocation");
    r = r || str_eq(k, "cname");
    r = r || str_eq(k, "bucketInfo");
    r = r || str_eq(k, "comp");
    r = r || str_eq(k, "qos");
    r = r || str_eq(k, "live");
    r = r || str_eq(k, "status");
    r = r || str_eq(k, "vod");
    r = r || str_eq(k, "startTime");
    r = r || str_eq(k, "endTime");
    r = r || str_eq(k, "symlink");
    r = r || str_eq(k, "x-oss-process");
    r = r || str_eq(k, "response-content-type");
    r = r || str_eq(k, "x-oss-traffic-limit");
    r = r || str_eq(k, "response-content-language");
    r = r || str_eq(k, "response-expires");
    r = r || str_eq(k, "response-cache-control");
    r = r || str_eq(k, "response-content-disposition");
    r = r || str_eq(k, "response-content-encoding");
    r = r || str_eq(k, "udf");
    r = r || str_eq(k, "udfName");
    r = r || str_eq(k, "udfImage");
    r = r || str_eq(k, "udfId");
    r = r || str_eq(k, "udfImageDesc");
    r = r || str_eq(k, "udfApplication");
    r = r || str_eq(k, "udfApplicationLog");
    r = r || str_eq(k, "restore");
    r = r || str_eq(k, "callback");
    r = r || str_eq(k, "callback-var");
    r = r || str_eq(k, "qosInfo");
    r = r || str_eq(k, "policy");
    r = r || str_eq(k, "stat");
    r = r || str_eq(k, "encryption");
    r = r || str_eq(k, "versions");
    r = r || str_eq(k, "versioning");
    r = r || str_eq(k, "versionId");
    r = r || str_eq(k, "requestPayment");
    r = r || str_eq(k, "x-oss-request-payer");
    r = r || str_eq(k, "sequential");
    r = r || str_eq(k, "inventory");
    r = r || str_eq(k, "inventoryId");
    r = r || str_eq(k, "continuation-token");
    r = r || str_eq(k, "asyncFetch");
    r = r || str_eq(k, "worm");
    r = r || str_eq(k, "wormId");
    r = r || str_eq(k, "wormExtend");
    r = r || str_eq(k, "withHashContext");
    r = r || str_eq(k, "x-oss-enable-md5");
    r = r || str_eq(k, "x-oss-enable-sha1");
    r = r || str_eq(k, "x-oss-enable-sha256");
    r = r || str_eq(k, "x-oss-hash-ctx");
    r = r || str_eq(k, "x-oss-md5-ctx");
    r = r || str_eq(k, "transferAcceleration");
    r = r || str_eq(k, "regionList");
    r
}

/// One canonical pair: `name=value`, or the bare name for a flag.
pub open spec fn pair_text(k: Seq<char>, v: Option<Seq<char>>) -> Seq<char> {
    match v {
        Some(s) => k + "="@ + s,
        None => k,
    }
}

/// The canonical pairs, joined with `&`.
pub open spec fn joined_pairs(m: Seq<(Seq<char>, Option<Seq<char>>)>) -> Seq<char>
    decreases m.len(),
{
    if m.len() == 0 {
        Seq::empty()
    } else if m.len() == 1 {
        pair_text(m[0].0, m[0].1)
    } else {
        pair_text(m[0].0, m[0].1) + "&"@ + joined_pairs(m.drop_first())
    }
}

proof fn lemma_joined_pairs_snoc(m: Seq<(Seq<char>, Option<Seq<char>>)>, p: (Seq<char>, Option<Seq<char>>))
    ensures
        joined_pairs(m.push(p)) == if m.len() == 0 {
            pair_text(p.0, p.1)
        } else {
            joined_pairs(m) + "&"@ + pair_text(p.0, p.1)
        },
    decreases m.len(),
{
    if m.len() == 0 {
        assert(m.push(p).len() == 1);
        assert(m.push(p)[0] == p);
    } else {
        assert(m.push(p)[0] == m[0]);
        assert(m.push(p).drop_first() =~= m.drop_first().push(p));
        lemma_joined_pairs_snoc(m.drop_first(), p);
        if m.len() == 1 {
            assert(joined_pairs(m.push(p)) == pair_text(m[0].0, m[0].1) + "&"@ + joined_pairs(
                m.drop_first().push(p),
            ));
            assert(joined_pairs(m.drop_first().push(p)) == pair_text(p.0, p.1));
            assert(joined_pairs(m) == pair_text(m[0].0, m[0].1));
        } else {
            assert(joined_pairs(m.push(p)) == pair_text(m[0].0, m[0].1) + "&"@ + (joined_pairs(
                m.drop_first(),
            ) + "&"@ + pair_text(p.0, p.1)));
            assert(pair_text(m[0].0, m[0].1) + "&"@ + (joined_pairs(m.drop_first()) + "&"@
                + pair_text(p.0, p.1)) =~= (pair_text(m[0].0, m[0].1) + "&"@ + joined_pairs(
                m.drop_first(),
            )) + "&"@ + pair_text(p.0, p.1));
        }
    }
}

/// The sorted sub-resource entries under V1: allowlisted names, values kept
/// verbatim.
pub open spec fn v1_entries(ps: Seq<(Seq<char>, Option<Seq<char>>)>) -> Seq<
    (Seq<char>, Option<Seq<char>>),
>
    decreases ps.len(),
{
    if ps.len() == 0 {
        Seq::empty()
    } else {
        let rest = v1_entries(ps.drop_last());
        if is_sign_key(ps.last().0) {
            assoc_insert(rest, ps.last().0, ps.last().1)
        } else {
            rest
        }
    }
}

/// How V2 signs one parameter value: an empty or absent value makes the
/// parameter a bare flag, any other value is query-escaped.
pub open spec fn v2_value(v: Option<Seq<char>>) -> Option<Seq<char>> {
    match v {
        None => None,
        Some(s) => if s.len() == 0 {
            None
        } else {
            Some(query_escape_of(s))
        },
    }
}

/// The sorted sub-resource entries under V2: every parameter, names
/// form-encoded, values escaped.
pub open spec fn v2_entries(ps: Seq<(Seq<char>, Option<Seq<char>>)>) -> Seq<
    (Seq<char>, Option<Seq<char>>),
>
    decreases ps.len(),
{
    if ps.len() == 0 {
        Seq::empty()
    } else {
        assoc_insert(v2_entries(ps.drop_last()), form_escape_of(ps.last().0), v2_value(ps.last().1))
    }
}

/// The canonical sub-resource string of a parameter mapping.
pub open spec fn sub_resource_text(
    ps: Seq<(Seq<char>, Option<Seq<char>>)>,
    version: AuthVersion,
) -> Seq<char> {
    match version {
        AuthVersion::V1 => joined_pairs(v1_entries(ps)),
        AuthVersion::V2 => joined_pairs(v2_entries(ps)),
    }
}

/// Build the canonical sub-resource string: filter and transform the
/// parameters as the auth version asks, sort by name, and join.
pub fn sub_resource(params: &Params, version: AuthVersion) -> (r: String)
    ensures
        r@ == sub_resource_text(params@, version),
{
    let entries = params.entries();
    let ghost dv = entries.deep_view();
    let mut picked: Vec<(String, Option<String>)> = Vec::new();
    let mut i: usize = 0;
    proof {
        assert(dv.take(0) =~= Seq::<(Seq<char>, Option<Seq<char>>)>::empty());
        assert(picked.deep_view() =~= Seq::<(Seq<char>, Option<Seq<char>>)>::empty());
    }
    while i < entries.len()
        invariant
            0 <= i <= entries@.len(),
            entries.deep_view() == dv,
            entries@.len() == dv.len(),
            dv == params@,
            match version {
                AuthVersion::V1 => picked.deep_view() == v1_entries(dv.take(i as int)),
                AuthVersion::V2 => picked.deep_view() == v2_entries(dv.take(i as int)),
            },
        decreases entries@.len() - i,
    {
        let ghost before = picked.deep_view();
        proof {
            assert(dv[i as int] == entries@[i as int].deep_view());
            assert(dv.take(i + 1).drop_last() =~= dv.take(i as int));
            assert(dv.take(i + 1).last() == dv[i as int]);
        }
        let (k, v) = &entries[i];
        match version {
            AuthVersion::V1 => {
                if is_param_sign(k.as_str()) {
                    map_set(&mut picked, k.clone(), v.clone());
                }
            },
            AuthVersion::V2 => {
                let ek = form_escape(k.as_str());
                let ev: Option<String> = match v {
                    None => None,
                    Some(s) => {
                        if s.as_str().is_empty() {
                            None
                        } else {
                            Some(query_escape(s.as_str()))
                        }
                    },
                };
                proof {
                    assert(ev.deep_view() == v2_value(dv[i as int].1));
                }
                map_set(&mut picked, ek, ev);
            },
        }
        i = i + 1;
    }
    proof {
        assert(dv.take(i as int) =~= dv);
    }
    join_entries(&picked)
}

/// Join canonical entries with `&`.
fn join_entries(entries: &Vec<(String, Option<String>)>) -> (r: String)
    ensures
        r@ == joined_pairs(entries.deep_view()),
{
    let ghost dv = entries.deep_view();
    let mut out = String::new();
    let mut i: usize = 0;
    proof {
        reveal_strlit("&");
        reveal_strlit("=");
        assert(dv.take(0) =~= Seq::<(Seq<char>, Option<Seq<char>>)>::empty());
        assert(joined_pairs(dv.take(0)) == Seq::<char>::empty());
    }
    while i < entries.len()
        invariant
            0 <= i <= entries@.len(),
            entries.deep_view() == dv,
            entries@.len() == dv.len(),
            out@ == joined_pairs(dv.take(i as int)),
        decreases entries@.len() - i,
    {
        proof {
            assert(dv[i as int] == entries@[i as int].deep_view());
            assert(dv.take(i + 1) =~= dv.take(i as int).push(dv[i as int]));
            lemma_joined_pairs_snoc(dv.take(i as int), dv[i as int]);
        }
        if i != 0 {
            push_str(&mut out, "&");
        }
        let (k, v) = &entries[i];
        push_str(&mut out, k.as_str());
        if let Some(s) = v {
            push_str(&mut out, "=");
            push_str(&mut out, s.as_str());
        }
        i = i + 1;
    }
    proof {
        assert(dv.take(i as int) =~= dv);
    }
    out
}

/// The form-encoding of a parameter mapping: pairs with a value become
/// `name=value`, both escaped with space as `+`; pairs without a value are
/// skipped entirely.
pub open spec fn form_pairs_text(ps: Seq<(Seq<char>, Option<Seq<char>>)>) -> Seq<char>
    decreases ps.len(),
{
    if ps.len() == 0 {
        Seq::empty()
    } else {
        let prev = form_pairs_text(ps.drop_last());
        match ps.last().1 {
            None => prev,
            Some(v) => {
                let pair = form_escape_of(ps.last().0) + "="@ + form_escape_of(v);
                if prev.len() == 0 {
                    pair
                } else {
                    prev + "&"@ + pair
                }
            },
        }
    }
}

/// Relies on serde_urlencoded::to_string: a sequence of string pairs
/// form-encodes to `name=value` entries joined by `&`, escaping with
/// space as `+`; a pair whose value is absent is skipped. For such input
/// the serializer does not fail.
#[verifier::external_body]
fn encode_pairs(pairs: &Vec<(String, Option<String>)>) -> (r: String)
    ensures
        r@ == form_pairs_text(pairs.deep_view()),
{
    match serde_urlencoded::to_string(pairs) {
        Ok(s) => s,
        Err(_) => String::new(),
    }
}

/// `+` rewritten to `%20`, so that a space in a query string is `%20`.
pub open spec fn plus_to_20(s: Seq<char>) -> Seq<char>
    decreases s.len(),
{
    if s.len() == 0 {
        Seq::empty()
    } else {
        (if s[0] == '+' {
            "%20"@
        } else {
            seq![s[0]]
        }) + plus_to_20(s.drop_first())
    }
}

proof fn lemma_plus_to_20_snoc(s: Seq<char>, c: char)
    ensures
        plus_to_20(s.push(c)) == plus_to_20(s) + (if c == '+' {
            "%20"@
        } else {
            seq![c]
        }),
    decreases s.len(),
{
    let tail: Seq<char> = if c == '+' {
        "%20"@
    } else {
        seq![c]
    };
    if s.len() == 0 {
        assert(s.push(c)[0] == c);
        assert(s.push(c).drop_first() =~= Seq::<char>::empty());
        assert(plus_to_20(Seq::<char>::empty()) == Seq::<char>::empty());
        assert(plus_to_20(s.push(c)) == tail + plus_to_20(Seq::<char>::empty()));
        assert(tail + Seq::<char>::empty() =~= tail);
        assert(plus_to_20(s) + tail =~= tail);
    } else {
        assert(s.push(c)[0] == s[0]);
        assert(s.push(c).drop_first() =~= s.drop_first().push(c));
        lemma_plus_to_20_snoc(s.drop_first(), c);
        let head: Seq<char> = if s[0] == '+' {
            "%20"@
        } else {
            seq![s[0]]
        };
        assert(plus_to_20(s.push(c)) == head + (plus_to_20(s.drop_first()) + tail));
        assert(head + (plus_to_20(s.drop_first()) + tail) =~= (head + plus_to_20(s.drop_first()))
            + tail);
    }
}

/// Rewrite every `+` to `%20`.
fn replace_plus(s: &str) -> (r: String)
    ensures
        r@ == plus_to_20(s@),
{
    let n = s.unicode_len();
    let mut out = String::new();
    let mut i: usize = 0;
    proof {
        reveal_strlit("%20");
        assert(s@.take(0) =~= Seq::<char>::empty());
    }
    while i < n
        invariant
            0 <= i <= n,
            n == s@.len(),
            out@ == plus_to_20(s@.take(i as int)),
        decreases n - i,
    {
        proof {
            assert(s@.take(i + 1) =~= s@.take(i as int).push(s@[i as int]));
            lemma_plus_to_20_snoc(s@.take(i as int), s@[i as int]);
        }
        let c = s.get_char(i);
        if c == '+' {
            push_str(&mut out, "%20");
        } else {
            push_char_from(&mut out, s, i);
        }
        i = i + 1;
    }
    proof {
        assert(s@.take(i as int) =~= s@);
    }
    out
}

/// The URL query string of a parameter mapping: its form-encoding with every
/// space escaped as `%20`, never `+`.
pub open spec fn url_params_text(ps: Seq<(Seq<char>, Option<Seq<char>>)>) -> Seq<char> {
    plus_to_20(form_pairs_text(ps))
}

/// Build the query string that goes on the wire.
pub fn url_params(params: &Params) -> (r: String)
    ensures
        r@ == url_params_text(params@),
{
    let encoded = encode_pairs(params.entries());
    replace_plus(encoded.as_str())
}

/// The V1 sub-resource entries come out sorted by name: the canonical string
/// walks the signed parameter names in ascending order.
pub proof fn lemma_v1_entries_sorted(ps: Seq<(Seq<char>, Option<Seq<char>>)>)
    ensures
        entries_sorted(v1_entries(ps)),
    decreases ps.len(),
{
    if ps.len() > 0 {
        lemma_v1_entries_sorted(ps.drop_last());
        if is_sign_key(ps.last().0) {
            lemma_assoc_insert_sorted(v1_entries(ps.drop_last()), ps.last().0, ps.last().1);
        }
    }
}

/// The V2 sub-resource entries come out sorted by (escaped) name.
pub proof fn lemma_v2_entries_sorted(ps: Seq<(Seq<char>, Option<Seq<char>>)>)
    ensures
        entries_sorted(v2_entries(ps)),
    decreases ps.len(),
{
    if ps.len() > 0 {
        lemma_v2_entries_sorted(ps.drop_last());
        lemma_assoc_insert_sorted(
            v2_entries(ps.drop_last()),
            form_escape_of(ps.last().0),
            v2_value(ps.last().1),
        );
    }
}

} // verus!

