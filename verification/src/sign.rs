//! The signer: canonical resource construction, the string-to-sign, the HMAC
//! signature, and the Authorization header value. Signing is a pure function
//! of its inputs — equal inputs always produce equal signatures.
use crypto::mac::Mac;
use vstd::prelude::*;

verus! {

use vstd::string::StringExecFns;

use crate::assoc::assoc_get;
use crate::config::AuthVersion;
use crate::escape::form_escape;
use crate::escape::form_escape_of;
use crate::escape::query_escape;
use crate::escape::query_escape_of;
use crate::headers::build_canon_block;
use crate::headers::build_signed_entries;
use crate::headers::canon_block;
use crate::headers::signed_entries;
use crate::text::push_str;
use crate::types::Headers;
use crate::types::Method;

/// What HMAC-SHA1 returns: a function of key and message alone.
pub uninterp spec fn hmac_sha1_of(key: Seq<u8>, data: Seq<u8>) -> Seq<u8>;

/// What HMAC-SHA256 returns: a function of key and message alone.
pub uninterp spec fn hmac_sha256_of(key: Seq<u8>, data: Seq<u8>) -> Seq<u8>;

/// What standard base64 encoding returns: a function of the input bytes alone.
pub uninterp spec fn b64_of(data: Seq<u8>) -> Seq<char>;

/// Relies on crypto's Hmac over Sha1: a deterministic 20-byte MAC.
#[verifier::external_body]
fn hmac_sha1(key: &[u8], data: &[u8]) -> (r: Vec<u8>)
    ensures
        r@ == hmac_sha1_of(key@, data@),
        r@.len() == 20,
{
    let mut mac = crypto::hmac::Hmac::new(crypto::sha1::Sha1::new(), key);
    mac.input(data);
    mac.result().code().to_vec()
}

/// Relies on crypto's Hmac over Sha256: a deterministic 32-byte MAC.
#[verifier::external_body]
fn hmac_sha256(key: &[u8], data: &[u8]) -> (r: Vec<u8>)
    ensures
        r@ == hmac_sha256_of(key@, data@),
        r@.len() == 32,
{
    let mut mac = crypto::hmac::Hmac::new(crypto::sha2::Sha256::new(), key);
    mac.input(data);
    mac.result().code().to_vec()
}

/// Relies on base64::encode: standard alphabet with padding, four output
/// characters for every three input bytes.
#[verifier::external_body]
fn b64_encode(data: &[u8]) -> (r: String)
    ensures
        r@ == b64_of(data@),
        r@.len() == 4 * ((data@.len() + 2) / 3),
{
    base64::encode(data)
}

/// The signature: an HMAC keyed by the secret over the UTF-8 bytes of the
/// string-to-sign — SHA-1 under V1, SHA-256 under V2 — encoded as base64.
pub open spec fn signature_of(version: AuthVersion, secret: Seq<char>, sts: Seq<char>) -> Seq<
    char,
> {
    let key = vstd::utf8::encode_utf8(secret);
    let msg = vstd::utf8::encode_utf8(sts);
    match version {
        AuthVersion::V1 => b64_of(hmac_sha1_of(key, msg)),
        AuthVersion::V2 => b64_of(hmac_sha256_of(key, msg)),
    }
}

/// The signer is deterministic: equal version, secret and string-to-sign
/// always give the same signature.
pub proof fn lemma_signer_deterministic(
    va: AuthVersion,
    sa: Seq<char>,
    ta: Seq<char>,
    vb: AuthVersion,
    sb: Seq<char>,
    tb: Seq<char>,
)
    requires
        va == vb,
        sa == sb,
        ta == tb,
    ensures
        signature_of(va, sa, ta) == signature_of(vb, sb, tb),
{
}

/// Compute the signature over a string-to-sign.
pub fn compute_signature(version: AuthVersion, secret: &str, sts: &str) -> (r: String)
    ensures
        r@ == signature_of(version, secret@, sts@),
{
    let mac = match version {
        AuthVersion::V1 => hmac_sha1(secret.as_bytes(), sts.as_bytes()),
        AuthVersion::V2 => hmac_sha256(secret.as_bytes(), sts.as_bytes()),
    };
    b64_encode(mac.as_slice())
}

/// Keys joined with `;`.
pub open spec fn semi_joined(ks: Seq<Seq<char>>) -> Seq<char>
    decreases ks.len(),
{
    if ks.len() == 0 {
        Seq::empty()
    } else if ks.len() == 1 {
        ks[0]
    } else {
        ks[0] + ";"@ + semi_joined(ks.drop_first())
    }
}

proof fn lemma_semi_joined_snoc(ks: Seq<Seq<char>>, k: Seq<char>)
    ensures
        semi_joined(ks.push(k)) == if ks.len() == 0 {
            k
        } else {
            semi_joined(ks) + ";"@ + k
        },
    decreases ks.len(),
{
    if ks.len() == 0 {
        assert(ks.push(k).len() == 1);
        assert(ks.push(k)[0] == k);
    } else {
        assert(ks.push(k)[0] == ks[0]);
        assert(ks.push(k).drop_first() =~= ks.drop_first().push(k));
        lemma_semi_joined_snoc(ks.drop_first(), k);
        if ks.len() == 1 {
            assert(semi_joined(ks.push(k)) == ks[0] + ";"@ + k);
            assert(semi_joined(ks) == ks[0]);
        } else {
            assert(semi_joined(ks.push(k)) == ks[0] + ";"@ + (semi_joined(ks.drop_first()) + ";"@
                + k));
            assert(ks[0] + ";"@ + (semi_joined(ks.drop_first()) + ";"@ + k) =~= (ks[0] + ";"@
                + semi_joined(ks.drop_first())) + ";"@ + k);
        }
    }
}

/// Join keys with `;`.
pub fn join_semicolon(ks: &Vec<String>) -> (r: String)
    ensures
        r@ == semi_joined(ks.deep_view()),
{
    let ghost dv = ks.deep_view();
    let mut out = String::new();
    let mut i: usize = 0;
    proof {
        reveal_strlit(";");
        assert(dv.take(0) =~= Seq::<Seq<char>>::empty());
    }
    while i < ks.len()
        invariant
            0 <= i <= ks@.len(),
            ks.deep_view() == dv,
            ks@.len() == dv.len(),
            out@ == semi_joined(dv.take(i as int)),
        decreases ks@.len() - i,
    {
        proof {
            assert(dv[i as int] == ks@[i as int]@);
            assert(dv.take(i + 1) =~= dv.take(i as int).push(dv[i as int]));
            lemma_semi_joined_snoc(dv.take(i as int), dv[i as int]);
        }
        if i != 0 {
            push_str(&mut out, ";");
        }
        push_str(&mut out, ks[i].as_str());
        i = i + 1;
    }
    proof {
        assert(dv.take(i as int) =~= dv);
    }
    out
}

/// The string-to-sign: method, Content-MD5, Content-Type and Date lines, the
/// canonical header block, under V2 the semicolon-joined additional header
/// names when there are any, and the canonical resource.
pub open spec fn string_to_sign(
    version: AuthVersion,
    method: Seq<char>,
    content_md5: Seq<char>,
    content_type: Seq<char>,
    date: Seq<char>,
    block: Seq<char>,
    additional: Seq<Seq<char>>,
    resource: Seq<char>,
) -> Seq<char> {
    let base = method + "\n"@ + content_md5 + "\n"@ + content_type + "\n"@ + date + "\n"@ + block;
    match version {
        AuthVersion::V1 => base + resource,
        AuthVersion::V2 => if additional.len() == 0 {
            base + resource
        } else {
            base + semi_joined(additional) + "\n"@ + resource
        },
    }
}

/// The value of a header, or the empty string when it is absent.
pub open spec fn hdr_or_empty(h: Seq<(Seq<char>, Seq<char>)>, name: Seq<char>) -> Seq<char> {
    match assoc_get(h, name) {
        Some(v) => v,
        None => Seq::empty(),
    }
}

/// The string-to-sign of a request, read off its headers.
pub open spec fn signed_str_text(
    version: AuthVersion,
    method: Seq<char>,
    h: Seq<(Seq<char>, Seq<char>)>,
    additional: Seq<Seq<char>>,
    resource: Seq<char>,
) -> Seq<char> {
    string_to_sign(
        version,
        method,
        hdr_or_empty(h, "content-md5"@),
        hdr_or_empty(h, "content-type"@),
        hdr_or_empty(h, "date"@),
        canon_block(signed_entries(h, additional, version)),
        additional,
        resource,
    )
}

/// Build the string-to-sign of a request and compute its signature.
pub fn get_signed_str(
    version: AuthVersion,
    method: Method,
    headers: &Headers,
    additional: &Vec<String>,
    resource: &str,
    key_secret: &str,
) -> (r: String)
    ensures
        r@ == signature_of(
            version,
            key_secret@,
            signed_str_text(version, method.token(), headers@, additional.deep_view(), resource@),
        ),
{
    proof {
        reveal_strlit("\n");
        reveal_strlit("content-md5");
        reveal_strlit("content-type");
        reveal_strlit("date");
    }
    let hs = build_signed_entries(headers, additional, version);
    let block = build_canon_block(&hs);
    let mut sts = String::new();
    push_str(&mut sts, method.as_str());
    push_str(&mut sts, "\n");
    if let Some(v) = headers.get("content-md5") {
        push_str(&mut sts, v.as_str());
    }
    push_str(&mut sts, "\n");
    if let Some(v) = headers.get("content-type") {
        push_str(&mut sts, v.as_str());
    }
    push_str(&mut sts, "\n");
    if let Some(v) = headers.get("date") {
        push_str(&mut sts, v.as_str());
    }
    push_str(&mut sts, "\n");
    push_str(&mut sts, block.as_str());
    match version {
        AuthVersion::V1 => {
            push_str(&mut sts, resource);
        },
        AuthVersion::V2 => {
            if !additional.is_empty() {
                let joined = join_semicolon(additional);
                push_str(&mut sts, joined.as_str());
                push_str(&mut sts, "\n");
            }
            push_str(&mut sts, resource);
        },
    }
    proof {
        assert(sts@ =~= signed_str_text(
            version,
            method.token(),
            headers@,
            additional.deep_view(),
            resource@,
        ));
    }
    compute_signature(version, key_secret, sts.as_str())
}

/// The Authorization header value for an access key, effective additional
/// header names, and a computed signature.
pub open spec fn auth_text(
    version: AuthVersion,
    access_key_id: Seq<char>,
    additional: Seq<Seq<char>>,
    signature: Seq<char>,
) -> Seq<char> {
    match version {
        AuthVersion::V1 => "OSS "@ + access_key_id + ":"@ + signature,
        AuthVersion::V2 => if additional.len() == 0 {
            "OSS2 AccessKeyId:"@ + access_key_id + ",Signature:"@ + signature
        } else {
            "OSS2 AccessKeyId:"@ + access_key_id + ",AdditionalHeaders:"@ + semi_joined(additional)
                + ",Signature:"@ + signature
        },
    }
}

/// Format the Authorization header value.
pub fn authorization_value(
    version: AuthVersion,
    access_key_id: &str,
    additional: &Vec<String>,
    signature: &str,
) -> (r: String)
    ensures
        r@ == auth_text(version, access_key_id@, additional.deep_view(), signature@),
{
    let mut out = String::new();
    match version {
        AuthVersion::V1 => {
            proof {
                reveal_strlit("OSS ");
                reveal_strlit(":");
            }
            push_str(&mut out, "OSS ");
            push_str(&mut out, access_key_id);
            push_str(&mut out, ":");
            push_str(&mut out, signature);
        },
        AuthVersion::V2 => {
            proof {
                reveal_strlit("OSS2 AccessKeyId:");
                reveal_strlit(",AdditionalHeaders:");
                reveal_strlit(",Signature:");
            }
            push_str(&mut out, "OSS2 AccessKeyId:");
            push_str(&mut out, access_key_id);
            if !additional.is_empty() {
                let joined = join_semicolon(additional);
                push_str(&mut out, ",AdditionalHeaders:");
                push_str(&mut out, joined.as_str());
            }
            push_str(&mut out, ",Signature:");
            push_str(&mut out, signature);
        },
    }
    out
}

/// The canonical resource: the path the server reproduces when it verifies
/// the signature, with the sub-resource string appended after `?` when it is
/// non-empty.
pub open spec fn resource_text(
    version: AuthVersion,
    bucket: Seq<char>,
    object: Seq<char>,
    sub: Seq<char>,
) -> Seq<char> {
    let subp: Seq<char> = if sub.len() == 0 {
        sub
    } else {
        "?"@ + sub
    };
    if bucket.len() == 0 {
        match version {
            AuthVersion::V1 => "/"@ + bucket + subp,
            AuthVersion::V2 => "%2F"@ + subp,
        }
    } else {
        match version {
            AuthVersion::V1 => "/"@ + bucket + "/"@ + object + subp,
            AuthVersion::V2 => form_escape_of("/"@ + bucket + "/"@) + query_escape_of(object)
                + subp,
        }
    }
}

/// Build the canonical resource of a request.
pub fn get_resource(version: AuthVersion, bucket: &str, object: &str, sub: &str) -> (r: String)
    ensures
        r@ == resource_text(version, bucket@, object@, sub@),
{
    proof {
        reveal_strlit("?");
        reveal_strlit("/");
        reveal_strlit("%2F");
    }
    let mut subp = String::new();
    if !sub.is_empty() {
        push_str(&mut subp, "?");
        push_str(&mut subp, sub);
    }
    let mut out = String::new();
    if bucket.is_empty() {
        match version {
            AuthVersion::V1 => {
                push_str(&mut out, "/");
                push_str(&mut out, bucket);
                push_str(&mut out, subp.as_str());
            },
            AuthVersion::V2 => {
                push_str(&mut out, "%2F");
                push_str(&mut out, subp.as_str());
            },
        }
    } else {
        match version {
            AuthVersion::V1 => {
                push_str(&mut out, "/");
                push_str(&mut out, bucket);
                push_str(&mut out, "/");
                push_str(&mut out, object);
                push_str(&mut out, subp.as_str());
            },
            AuthVersion::V2 => {
                let mut rooted = String::from_str("/");
                push_str(&mut rooted, bucket);
                push_str(&mut rooted, "/");
                let encoded = form_escape(rooted.as_str());
                let escaped_object = query_escape(object);
                push_str(&mut out, encoded.as_str());
                push_str(&mut out, escaped_object.as_str());
                push_str(&mut out, subp.as_str());
            },
        }
    }
    out
}

} // verus!
