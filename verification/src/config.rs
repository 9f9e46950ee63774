//! Client configuration: credentials, endpoint, authentication version and the
//! header policy. A configuration is validated once, when a connection is
//! built, and read-only afterwards.
use vstd::prelude::*;

verus! {

/// Which authentication signature algorithm the client uses.
#[derive(Clone, Copy, PartialEq, Eq, Structural, Debug)]
pub enum AuthVersion {
    V1,
    V2,
}

/// An HTTP proxy, when requests go through one.
#[derive(Debug, Clone)]
pub struct HttpProxy {
    pub host: String,
    pub user: Option<String>,
    pub password: Option<String>,
}

/// Everything a client is configured with.
#[derive(Debug, Clone)]
pub struct ClientConfig {
    pub endpoint: String,
    pub access_key_id: String,
    pub access_key_secret: String,
    pub security_token: Option<String>,
    pub ua: String,
    pub cname: bool,
    pub auth_version: AuthVersion,
    pub additional_headers: Vec<String>,
    pub http_proxy: Option<HttpProxy>,
    pub enable_md5: bool,
    pub md5_threshold: i64,
    pub enable_crc: bool,
    pub retries: u32,
    pub debug: bool,
    pub log_level: i8,
    pub upload_limit_speed: i64,
}

/// The value of each field of the default configuration.
pub open spec fn is_default_config(c: ClientConfig) -> bool {
    &&& c.endpoint@ == Seq::<char>::empty()
    &&& c.access_key_id@ == Seq::<char>::empty()
    &&& c.access_key_secret@ == Seq::<char>::empty()
    &&& c.security_token is None
    &&& c.ua@ == Seq::<char>::empty()
    &&& !c.cname
    &&& c.auth_version == AuthVersion::V1
    &&& c.additional_headers@ == Seq::<String>::empty()
    &&& c.http_proxy is None
    &&& !c.enable_md5
    &&& c.md5_threshold == 0
    &&& !c.enable_crc
    &&& c.retries == 0
    &&& !c.debug
    &&& c.log_level == 0
    &&& c.upload_limit_speed == 0
}

impl Default for ClientConfig {
    /// An empty configuration: no credentials, no endpoint, base auth version.
    fn default() -> (r: ClientConfig)
        ensures
            is_default_config(r),
    {
        let r = ClientConfig {
            endpoint: String::new(),
            access_key_id: String::new(),
            access_key_secret: String::new(),
            security_token: None,
            ua: String::new(),
            cname: false,
            auth_version: AuthVersion::V1,
            additional_headers: Vec::new(),
            http_proxy: None,
            enable_md5: false,
            md5_threshold: 0,
            enable_crc: false,
            retries: 0,
            debug: false,
            log_level: 0,
            upload_limit_speed: 0,
        };
        proof {
            assert(r.additional_headers@ =~= Seq::<String>::empty());
        }
        r
    }
}

impl ClientConfig {
    /// The configured security token, or the empty string when none is set.
    pub open spec fn token_view(&self) -> Seq<char> {
        match self.security_token {
            Some(t) => t@,
            None => Seq::empty(),
        }
    }

    /// The access key id.
    pub fn key_id(&self) -> (r: &str)
        ensures
            r@ == self.access_key_id@,
    {
        self.access_key_id.as_str()
    }

    /// The access key secret.
    pub fn key_secret(&self) -> (r: &str)
        ensures
            r@ == self.access_key_secret@,
    {
        self.access_key_secret.as_str()
    }

    /// The security token, empty when none is configured.
    pub fn token(&self) -> (r: &str)
        ensures
            r@ == self.token_view(),
    {
        match &self.security_token {
            Some(t) => t.as_str(),
            None => {
                proof {
                    reveal_strlit("");
                    assert(""@ =~= Seq::<char>::empty());
                }
                ""
            },
        }
    }
}

/// Builds a client configuration step by step.
pub struct ClientBuilder {
    pub config: ClientConfig,
}

impl ClientBuilder {
    /// Start from the default configuration.
    pub fn new() -> (r: ClientBuilder)
        ensures
            is_default_config(r.config),
    {
        ClientBuilder { config: Default::default() }
    }

    /// Set the service endpoint.
    pub fn endpoint(self, endpoint: String) -> (r: ClientBuilder)
        ensures
            r.config == (ClientConfig { endpoint, ..self.config }),
    {
        let mut config = self.config;
        config.endpoint = endpoint;
        ClientBuilder { config }
    }

    /// Set the access key id.
    pub fn access_key(self, key: String) -> (r: ClientBuilder)
        ensures
            r.config == (ClientConfig { access_key_id: key, ..self.config }),
    {
        let mut config = self.config;
        config.access_key_id = key;
        ClientBuilder { config }
    }

    /// Set the access key secret.
    pub fn access_secret(self, secret: String) -> (r: ClientBuilder)
        ensures
            r.config == (ClientConfig { access_key_secret: secret, ..self.config }),
    {
        let mut config = self.config;
        config.access_key_secret = secret;
        ClientBuilder { config }
    }
}

} // verus!
