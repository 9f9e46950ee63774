//! The connection: per-request orchestration. It builds the query string and
//! the canonical sub-resource, addresses the URL, injects the bookkeeping
//! headers, and signs — the Authorization header is computed last, over the
//! headers as they will be sent.
use vstd::prelude::*;

verus! {

use vstd::string::StringExecFns;

use crate::address::resolve_fails;
use crate::address::resolved_ok;
use crate::address::url_scheme_host;
use crate::address::UrlMaker;
use crate::assoc::assoc_insert;
use crate::config::ClientBuilder;
use crate::config::ClientConfig;
use crate::err::OssError;
use crate::escape::dec_of;
use crate::escape::dec_str;
use crate::headers::additional_keys_of;
use crate::headers::get_additional_header_keys;
use crate::params::sub_resource;
use crate::params::sub_resource_text;
use crate::params::url_params;
use crate::params::url_params_text;
use crate::sign::auth_text;
use crate::sign::authorization_value;
use crate::sign::get_resource;
use crate::sign::get_signed_str;
use crate::sign::resource_text;
use crate::sign::signature_of;
use crate::sign::signed_str_text;
use crate::types::Headers;
use crate::types::Method;
use crate::types::Params;
use crate::types::Request;

/// What the hexadecimal MD5 digest of a byte sequence is.
pub uninterp spec fn md5_hex_of(data: Seq<u8>) -> Seq<char>;

/// Relies on md5::compute and the digest's LowerHex form: 32 lowercase hex
/// characters, a function of the input bytes alone.
#[verifier::external_body]
fn md5_hex(data: &[u8]) -> (r: String)
    ensures
        r@ == md5_hex_of(data@),
        r@.len() == 32,
{
    format!("{:x}", md5::compute(data))
}

/// The headers after the body bookkeeping: the content length in decimal, and
/// the body's MD5 digest when a body is present and digesting is enabled.
pub open spec fn body_headers(
    h: Seq<(Seq<char>, Seq<char>)>,
    body: Seq<u8>,
    enable_md5: bool,
) -> Seq<(Seq<char>, Seq<char>)> {
    let with_len = assoc_insert(h, "content-length"@, dec_of(body.len()));
    if body.len() > 0 && enable_md5 {
        assoc_insert(with_len, "content-md5"@, md5_hex_of(body))
    } else {
        with_len
    }
}

/// The headers after per-request injection: content bookkeeping, then date,
/// user agent, the host of the request URL when it has one, and the security
/// token when one is configured.
pub open spec fn prepared_headers(
    h: Seq<(Seq<char>, Seq<char>)>,
    body: Seq<u8>,
    enable_md5: bool,
    date: Seq<char>,
    ua: Seq<char>,
    url: Seq<char>,
    token: Seq<char>,
) -> Seq<(Seq<char>, Seq<char>)> {
    let with_date = assoc_insert(body_headers(h, body, enable_md5), "date"@, date);
    let with_ua = assoc_insert(with_date, "user-agent"@, ua);
    let with_host = match url_scheme_host(url) {
        Some((sc, hopt)) => match hopt {
            Some(host) => assoc_insert(with_ua, "host"@, host),
            None => with_ua,
        },
        None => with_ua,
    };
    if token.len() > 0 {
        assoc_insert(with_host, "x-oss-security-token"@, token)
    } else {
        with_host
    }
}

/// The headers once signed: the Authorization value, computed over every
/// other header, set last.
pub open spec fn signed_headers(
    cfg: ClientConfig,
    method: Method,
    h: Seq<(Seq<char>, Seq<char>)>,
    resource: Seq<char>,
) -> Seq<(Seq<char>, Seq<char>)> {
    let additional = additional_keys_of(cfg.additional_headers.deep_view(), h);
    let sig = signature_of(
        cfg.auth_version,
        cfg.access_key_secret@,
        signed_str_text(cfg.auth_version, method.token(), h, additional, resource),
    );
    assoc_insert(h, "authorization"@, auth_text(cfg.auth_version, cfg.access_key_id@, additional, sig))
}

/// A connection: the validated configuration and the resolved endpoint,
/// read-only once built and shared by every request.
#[derive(Debug, Clone)]
pub struct Conn {
    pub config: ClientConfig,
    pub url_maker: UrlMaker,
}

impl ClientBuilder {
    /// Validate the configuration and build a connection from it.
    pub fn build(self) -> (r: Result<Conn, OssError>)
        ensures
            match r {
                Ok(c) => c.config == self.config && resolved_ok(
                    c.url_maker,
                    self.config.endpoint@,
                    self.config.cname,
                    self.config.http_proxy is Some,
                ),
                Err(e) => resolve_fails(self.config.endpoint@) && e is Config,
            },
    {
        let is_proxy = self.config.http_proxy.is_some();
        match UrlMaker::new(self.config.endpoint.as_str(), self.config.cname, is_proxy) {
            Ok(um) => Ok(Conn { config: self.config, url_maker: um }),
            Err(e) => Err(e),
        }
    }
}

impl Conn {
    /// Pair a validated configuration with its resolved endpoint.
    pub fn new(config: ClientConfig, url_maker: UrlMaker) -> (r: Conn)
        ensures
            r.config == config,
            r.url_maker == url_maker,
    {
        Conn { config, url_maker }
    }

    /// Set the content bookkeeping headers from the body.
    fn handle_body(&self, req: &mut Request)
        requires
            old(req).headers.wf(),
        ensures
            final(req).headers@ == body_headers(
                old(req).headers@,
                old(req).body@,
                self.config.enable_md5,
            ),
            final(req).headers.wf(),
            final(req).url == old(req).url,
            final(req).method == old(req).method,
            final(req).params == old(req).params,
            final(req).body == old(req).body,
    {
        let length = req.body.len();
        let ltext = dec_str(length as u64);
        req.headers.set(String::from_str("content-length"), ltext);
        if req.body.len() > 0 && self.config.enable_md5 {
            let digest = md5_hex(req.body.as_slice());
            req.headers.set(String::from_str("content-md5"), digest);
        }
    }

    /// Compute the Authorization header over the request as it stands, and
    /// set it; it must be the last header set before dispatch.
    fn sign_header(&self, req: &mut Request, resource: &str)
        requires
            old(req).headers.wf(),
        ensures
            final(req).headers@ == signed_headers(
                self.config,
                old(req).method,
                old(req).headers@,
                resource@,
            ),
            final(req).headers.wf(),
            final(req).url == old(req).url,
            final(req).method == old(req).method,
            final(req).params == old(req).params,
            final(req).body == old(req).body,
    {
        let additional = get_additional_header_keys(&self.config.additional_headers, &req.headers);
        let sig = get_signed_str(
            self.config.auth_version,
            req.method,
            &req.headers,
            &additional,
            resource,
            self.config.key_secret(),
        );
        let auth = authorization_value(
            self.config.auth_version,
            self.config.key_id(),
            &additional,
            sig.as_str(),
        );
        req.headers.set(String::from_str("authorization"), auth);
    }

    /// Assemble and sign a request: build the query string and the canonical
    /// sub-resource from the parameters, address the URL, inject the
    /// per-request headers, and sign. The caller supplies the HTTP-date text
    /// for the Date header; dispatching the result is the transport's job.
    pub fn execute(
        &self,
        method: Method,
        bucket: &str,
        object: &str,
        params: Option<Params>,
        headers: Option<Headers>,
        data: Vec<u8>,
        date: String,
    ) -> (r: Request)
        requires
            match params {
                Some(p) => p.wf(),
                None => true,
            },
            match headers {
                Some(h) => h.wf(),
                None => true,
            },
        ensures
            ({
                let pv = match params {
                    Some(p) => p@,
                    None => Seq::empty(),
                };
                let hv = match headers {
                    Some(h) => h@,
                    None => Seq::empty(),
                };
                let qs = url_params_text(pv);
                let sub = sub_resource_text(pv, self.config.auth_version);
                let url = self.url_maker.url_of(bucket@, object@, qs);
                let resource = resource_text(self.config.auth_version, bucket@, object@, sub);
                let base = prepared_headers(
                    hv,
                    data@,
                    self.config.enable_md5,
                    date@,
                    self.config.ua@,
                    url,
                    self.config.token_view(),
                );
                &&& r.url@ == url
                &&& r.method == method
                &&& r.body@ == data@
                &&& r.params@ == pv
                &&& r.headers@ == signed_headers(self.config, method, base, resource)
                &&& r.headers.wf()
            }),
    {
        let params = match params {
            Some(p) => p,
            None => Params::new(),
        };
        let headers = match headers {
            Some(h) => h,
            None => Headers::new(),
        };
        let qs = url_params(&params);
        let sub = sub_resource(&params, self.config.auth_version);
        let url = self.url_maker.get_url(bucket, object, qs.as_str());
        let resource = get_resource(self.config.auth_version, bucket, object, sub.as_str());
        let mut req = Request { url, method, headers, params, body: data };
        self.handle_body(&mut req);
        req.headers.set(String::from_str("date"), date);
        req.headers.set(String::from_str("user-agent"), self.config.ua.clone());
        if let Some((_, host_opt)) = crate::address::parse_scheme_host(req.url.as_str()) {
            if let Some(host) = host_opt {
                req.headers.set(String::from_str("host"), host);
            }
        }
        let token = self.config.token();
        if !token.is_empty() {
            let t = token.to_owned();
            req.headers.set(String::from_str("x-oss-security-token"), t);
        }
        self.sign_header(&mut req, resource.as_str());
        req
    }
}

} // verus!
