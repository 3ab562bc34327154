//! The client: where the service is, how it is addressed, and who asks.
use vstd::prelude::*;
use vstd::string::*;
use crate::encode::{push_urlencoded, url_encoded};
use crate::errors::ValueError;
use crate::executor::BaseExecutor;
use crate::headers::{check_header_value, is_header_value};
use crate::text::{from_chars, to_chars};

verus! {

/// The method of a request.
#[derive(Clone, Copy, Debug, PartialEq, Eq, Structural)]
pub enum Method {
    Get,
    Put,
    Post,
    Delete,
    Head,
    Options,
    Patch,
}

impl Method {
    /// The name of the method as it goes over the wire.
    pub open spec fn text(self) -> Seq<char> {
        match self {
            Method::Get => "GET"@,
            Method::Put => "PUT"@,
            Method::Post => "POST"@,
            Method::Delete => "DELETE"@,
            Method::Head => "HEAD"@,
            Method::Options => "OPTIONS"@,
            Method::Patch => "PATCH"@,
        }
    }

    /// The name of the method as it goes over the wire.
    pub fn as_str(&self) -> (s: &'static str)
        ensures
            s@ == self.text(),
    {
        match self {
            Method::Get => "GET",
            Method::Put => "PUT",
            Method::Post => "POST",
            Method::Delete => "DELETE",
            Method::Head => "HEAD",
            Method::Options => "OPTIONS",
            Method::Patch => "PATCH",
        }
    }
}

/// The keys that a request is signed with.
#[derive(Clone, Debug, PartialEq, Eq)]
pub struct Credentials {
    access_key: String,
    secret_key: String,
    session_token: Option<String>,
}

/// The keys of a [`Credentials`] as plain text.
pub struct CredentialsView {
    pub access_key: Seq<char>,
    pub secret_key: Seq<char>,
    pub session_token: Option<Seq<char>>,
}

impl View for Credentials {
    type V = CredentialsView;

    closed spec fn view(&self) -> CredentialsView {
        CredentialsView {
            access_key: self.access_key@,
            secret_key: self.secret_key@,
            session_token: match self.session_token {
                Some(t) => Some(t@),
                None => None,
            },
        }
    }
}

impl Credentials {
    pub fn new(access_key: &str, secret_key: &str, session_token: Option<&str>) -> (c: Self)
        ensures
            c@.access_key == access_key@,
            c@.secret_key == secret_key@,
            c@.session_token == match session_token {
                Some(t) => Some(t@),
                None => None,
            },
    {
        Credentials {
            access_key: String::from_str(access_key),
            secret_key: String::from_str(secret_key),
            session_token: match session_token {
                Some(t) => Some(String::from_str(t)),
                None => None,
            },
        }
    }

    pub fn access_key(&self) -> (s: &str)
        ensures
            s@ == self@.access_key,
    {
        self.access_key.as_str()
    }

    pub fn secret_key(&self) -> (s: &str)
        ensures
            s@ == self@.secret_key,
    {
        self.secret_key.as_str()
    }

    pub fn session_token(&self) -> (s: Option<&str>)
        ensures
            match s {
                Some(t) => self@.session_token == Some(t@),
                None => self@.session_token is None,
            },
    {
        match &self.session_token {
            Some(t) => Some(t.as_str()),
            None => None,
        }
    }
}

/// The form that a host must have: an optional `http://` or `https://`,
/// a name of letters, digits, `_`, `-` and `.`, and an optional port.
pub const HOST_PATTERN: &'static str = "^(http(s)?://)?[A-Za-z0-9_\\-.]+(:\\d+)?$";

/// Whether the regular expression `pattern` matches somewhere in
/// `haystack`; nothing, where `pattern` is no regular expression.
pub uninterp spec fn regex_match(pattern: Seq<char>, haystack: Seq<char>) -> Option<bool>;

/// `regex::Regex::new` on `pattern`, then `Regex::is_match` on
/// `haystack`: whether the expression matches somewhere in the text.
/// Nothing comes back where `Regex::new` refuses the pattern.
#[verifier::external_body]
fn regex_is_match(pattern: &str, haystack: &str) -> (r: Option<bool>)
    ensures
        r == regex_match(pattern@, haystack@),
{
    match regex::Regex::new(pattern) {
        Ok(re) => Some(re.is_match(haystack)),
        Err(_) => None,
    }
}

/// `s` starts with `p`.
pub open spec fn has_prefix(s: Seq<char>, p: Seq<char>) -> bool {
    s.len() >= p.len() && s.take(p.len() as int) == p
}

/// The host without the scheme that may stand before it.
pub open spec fn bare_host(host: Seq<char>) -> Seq<char> {
    if has_prefix(host, "https://"@) {
        host.skip("https://"@.len() as int)
    } else if has_prefix(host, "http://"@) {
        host.skip("http://"@.len() as int)
    } else {
        host
    }
}

/// Whether the transport is to insist on TLS: as the scheme before the
/// host says, or `secure` where there is none.
pub open spec fn host_secure(host: Seq<char>, secure: bool) -> bool {
    if has_prefix(host, "https://"@) {
        true
    } else if has_prefix(host, "http://"@) {
        false
    } else {
        secure
    }
}

/// The start of every URL of the client: the scheme and the host.
pub open spec fn base_url(secure: bool, bare: Seq<char>) -> Seq<char> {
    if secure {
        "https://"@ + bare
    } else {
        "http://"@ + bare
    }
}

/// What is left of `s` behind `p`, where `s` starts with `p`.
pub fn strip_prefix(s: &Vec<char>, p: &str) -> (r: Option<Vec<char>>)
    ensures
        match r {
            Some(rest) => has_prefix(s@, p@) && rest@ == s@.skip(p@.len() as int),
            None => !has_prefix(s@, p@),
        },
{
    let pc = to_chars(p);
    if s.len() < pc.len() {
        return None;
    }
    let mut i: usize = 0;
    while i < pc.len()
        invariant
            i <= pc.len() <= s.len(),
            pc@ == p@,
            forall|j: int| 0 <= j < i ==> s@[j] == pc@[j],
        decreases pc.len() - i,
    {
        if s[i] != pc[i] {
            assert(s@.take(p@.len() as int)[i as int] != p@[i as int]);
            return None;
        }
        i += 1;
    }
    assert(s@.take(p@.len() as int) =~= p@);
    let mut rest: Vec<char> = Vec::new();
    let mut k: usize = pc.len();
    while k < s.len()
        invariant
            pc.len() <= k <= s.len(),
            rest@ == s@.subrange(pc.len() as int, k as int),
        decreases s.len() - k,
    {
        rest.push(s[k]);
        k += 1;
        assert(rest@ =~= s@.subrange(pc.len() as int, k as int));
    }
    assert(s@.subrange(pc.len() as int, s.len() as int) =~= s@.skip(pc.len() as int));
    Some(rest)
}

/// What a [`Builder`] holds.
pub struct BuilderView<P> {
    pub host: Option<Seq<char>>,
    pub chost: Option<Seq<char>>,
    pub region: Seq<char>,
    pub agent: Seq<char>,
    pub secure: bool,
    pub provider: Option<P>,
}

/// What a [`Minio`] holds, but for its provider.
pub struct MinioView {
    /// The start of every URL: scheme and host.
    pub host: Seq<char>,
    /// The value of the `Host` header.
    pub chost: Seq<char>,
    /// Whether the transport is to insist on TLS.
    pub secure: bool,
    pub region: Seq<char>,
    /// The value of the `User-Agent` header.
    pub agent: Seq<char>,
}

/// Collects the settings of a [`Minio`]. `P` is the caller's credential
/// provider, which the client carries and never looks into.
pub struct Builder<P> {
    host: Option<String>,
    chost: Option<String>,
    region: String,
    agent: String,
    secure: bool,
    provider: Option<P>,
}

pub open spec fn opt_string_view(s: Option<String>) -> Option<Seq<char>> {
    match s {
        Some(t) => Some(t@),
        None => None,
    }
}

impl<P> View for Builder<P> {
    type V = BuilderView<P>;

    closed spec fn view(&self) -> BuilderView<P> {
        BuilderView {
            host: opt_string_view(self.host),
            chost: opt_string_view(self.chost),
            region: self.region@,
            agent: self.agent@,
            secure: self.secure,
            provider: self.provider,
        }
    }
}

/// What building gives for the settings `b`, where `host_ok` says
/// whether the host has the form of [`HOST_PATTERN`]: the first of the
/// faults, in this order: no host, a host of another form, no provider,
/// an agent that cannot stand in a header, a host that cannot, a value
/// for the `Host` header that cannot.
pub open spec fn build_fault<P>(b: BuilderView<P>, host_ok: bool) -> Option<ValueError> {
    if b.host is None {
        Some(ValueError::MissHost)
    } else if !host_ok {
        Some(ValueError::InvalidHostname)
    } else if b.provider is None {
        Some(ValueError::MissProvider)
    } else if !is_header_value(b.agent) {
        Some(ValueError::InvalidAgent)
    } else if !is_header_value(bare_host(b.host->0)) {
        Some(ValueError::InvalidHost)
    } else if b.chost is Some && !is_header_value(b.chost->0) {
        Some(ValueError::InvalidHost)
    } else {
        None
    }
}

/// The client that the settings `b` give. The URL's scheme follows the
/// `secure` setting; a scheme written before the host decides only
/// whether the transport is to insist on TLS.
pub open spec fn built<P>(b: BuilderView<P>) -> MinioView {
    MinioView {
        host: base_url(b.secure, bare_host(b.host->0)),
        chost: match b.chost {
            Some(c) => c,
            None => "127.0.0.1"@,
        },
        secure: host_secure(b.host->0, b.secure),
        region: b.region,
        agent: b.agent,
    }
}

impl<P> Builder<P> {
    /// The settings to start from: region `us-east-1`, TLS, no host and no
    /// provider.
    pub fn new() -> (b: Self)
        ensures
            b@ == (BuilderView::<P> {
                host: None,
                chost: None,
                region: "us-east-1"@,
                agent: "MinIO (Linux; x86_64) minio-rs"@,
                secure: true,
                provider: None,
            }),
    {
        Builder {
            host: None,
            chost: None,
            secure: true,
            region: String::from_str("us-east-1"),
            agent: String::from_str("MinIO (Linux; x86_64) minio-rs"),
            provider: None,
        }
    }

    /// Sets the host of the service: `[http(s)://]hostname[:port]`.
    pub fn host(self, host: &str) -> (b: Self)
        ensures
            b@ == (BuilderView { host: Some(host@), ..self@ }),
    {
        let mut this = self;
        this.host = Some(String::from_str(host));
        this
    }

    /// Sets the host of the service, as [`Builder::host`] does.
    pub fn chost(self, host: &str) -> (b: Self)
        ensures
            b@ == (BuilderView { host: Some(host@), ..self@ }),
    {
        let mut this = self;
        this.host = Some(String::from_str(host));
        this
    }

    /// Sets the region that requests are signed for.
    pub fn region(self, region: &str) -> (b: Self)
        ensures
            b@ == (BuilderView { region: region@, ..self@ }),
    {
        let mut this = self;
        this.region = String::from_str(region);
        this
    }

    /// Sets the value of the `User-Agent` header.
    pub fn agent(self, agent: &str) -> (b: Self)
        ensures
            b@ == (BuilderView { agent: agent@, ..self@ }),
    {
        let mut this = self;
        this.agent = String::from_str(agent);
        this
    }

    /// Sets whether the service is reached over TLS.
    pub fn secure(self, secure: bool) -> (b: Self)
        ensures
            b@ == (BuilderView { secure, ..self@ }),
    {
        let mut this = self;
        this.secure = secure;
        this
    }

    /// Sets the credential provider.
    pub fn provider(self, provider: P) -> (b: Self)
        ensures
            b@ == (BuilderView { provider: Some(provider), ..self@ }),
    {
        let mut this = self;
        this.provider = Some(provider);
        this
    }

    /// Builds the client from the settings, given whether the host has the
    /// form of [`HOST_PATTERN`].
    pub fn build_checked(self, host_ok: bool) -> (r: Result<Minio<P>, ValueError>)
        ensures
            match r {
                Ok(m) => build_fault(self@, host_ok) is None && m@ == built(self@) && Some(
                    *m.spec_provider(),
                ) == self@.provider,
                Err(e) => build_fault(self@, host_ok) == Some(e),
            },
    {
        let host = match self.host {
            Some(h) => h,
            None => {
                return Err(ValueError::MissHost);
            },
        };
        if !host_ok {
            return Err(ValueError::InvalidHostname);
        }
        let provider = match self.provider {
            Some(p) => p,
            None => {
                return Err(ValueError::MissProvider);
            },
        };
        let chars = to_chars(host.as_str());
        let (bare, secure) = match strip_prefix(&chars, "https://") {
            Some(rest) => (rest, true),
            None => match strip_prefix(&chars, "http://") {
                Some(rest) => (rest, false),
                None => (chars, self.secure),
            },
        };
        if !check_header_value(self.agent.as_str()) {
            return Err(ValueError::InvalidAgent);
        }
        let bare_text = from_chars(&bare);
        if !check_header_value(bare_text.as_str()) {
            return Err(ValueError::InvalidHost);
        }
        let mut url = String::from_str(
            if self.secure {
                "https://"
            } else {
                "http://"
            },
        );
        url.append(bare_text.as_str());
        let chost = match self.chost {
            Some(c) => {
                if !check_header_value(c.as_str()) {
                    return Err(ValueError::InvalidHost);
                }
                c
            },
            None => {
                proof {
                    reveal_strlit("127.0.0.1");
                }
                String::from_str("127.0.0.1")
            },
        };
        Ok(Minio { host: url, chost, secure, region: self.region, agent: self.agent, provider })
    }

    /// Builds the client from the settings. The host is held against
    /// [`HOST_PATTERN`] first.
    pub fn build(self) -> (r: Result<Minio<P>, ValueError>)
        ensures
            match r {
                Ok(m) => build_fault(self@, host_matches(self@.host)) is None && m@ == built(self@)
                    && Some(*m.spec_provider()) == self@.provider,
                Err(e) => build_fault(self@, host_matches(self@.host)) == Some(e),
            },
    {
        let host_ok = match &self.host {
            Some(h) => match regex_is_match(HOST_PATTERN, h.as_str()) {
                Some(b) => b,
                None => false,
            },
            None => false,
        };
        self.build_checked(host_ok)
    }
}

/// Whether `host` is there and has the form of [`HOST_PATTERN`].
pub open spec fn host_matches(host: Option<Seq<char>>) -> bool {
    match host {
        Some(h) => regex_match(HOST_PATTERN@, h) == Some(true),
        None => false,
    }
}

/// A client of one service: where it is, how requests to it are labelled,
/// and the caller's credential provider.
pub struct Minio<P> {
    host: String,
    chost: String,
    secure: bool,
    region: String,
    agent: String,
    provider: P,
}

impl<P> View for Minio<P> {
    type V = MinioView;

    closed spec fn view(&self) -> MinioView {
        MinioView {
            host: self.host@,
            chost: self.chost@,
            secure: self.secure,
            region: self.region@,
            agent: self.agent@,
        }
    }
}

/// The path of a URL: `/`, `/bucket/` or `/bucket/key`, with the key
/// percent-encoded but for its slashes. A key without a bucket is passed
/// over.
pub open spec fn path_text(bucket: Option<Seq<char>>, key: Option<Seq<char>>) -> Seq<char> {
    match bucket {
        Some(b) => match key {
            Some(k) => seq!['/'] + b + seq!['/'] + url_encoded(k, true),
            None => seq!['/'] + b + seq!['/'],
        },
        None => seq!['/'],
    }
}

/// Appends the path of a URL for a bucket and a key.
pub fn push_path(out: &mut String, bucket: Option<&str>, key: Option<&str>)
    ensures
        final(out)@ == old(out)@ + path_text(
            crate::validate::opt_view(bucket),
            crate::validate::opt_view(key),
        ),
{
    out.push('/');
    if let Some(b) = bucket {
        out.append(b);
        out.push('/');
        if let Some(k) = key {
            push_urlencoded(out, k, true);
        }
    }
    assert(out@ =~= old(out)@ + path_text(
        crate::validate::opt_view(bucket),
        crate::validate::opt_view(key),
    ));
}

impl<P> Minio<P> {
    #[verifier::type_invariant]
    closed spec fn inv(&self) -> bool {
        is_header_value(self.agent@) && is_header_value(self.chost@)
    }

    /// The credential provider that the client was built with.
    pub closed spec fn spec_provider(&self) -> &P {
        &self.provider
    }

    /// What every client satisfies: agent and `Host` value can stand in a
    /// header.
    pub open spec fn wf(&self) -> bool {
        is_header_value(self@.agent) && is_header_value(self@.chost)
    }

    /// A builder with the settings to start from.
    pub fn builder() -> (b: Builder<P>)
        ensures
            b@ == (BuilderView::<P> {
                host: None,
                chost: None,
                region: "us-east-1"@,
                agent: "MinIO (Linux; x86_64) minio-rs"@,
                secure: true,
                provider: None,
            }),
    {
        Builder::new()
    }

    /// The region that requests are signed for.
    pub fn region(&self) -> (r: &str)
        ensures
            r@ == self@.region,
    {
        self.region.as_str()
    }

    /// The start of every URL: scheme and host.
    pub fn host(&self) -> (r: &str)
        ensures
            r@ == self@.host,
    {
        self.host.as_str()
    }

    /// The value of the `Host` header.
    pub fn chost(&self) -> (r: &str)
        ensures
            r@ == self@.chost,
            self.wf(),
    {
        proof {
            use_type_invariant(self);
        }
        self.chost.as_str()
    }

    /// The value of the `User-Agent` header.
    pub fn agent(&self) -> (r: &str)
        ensures
            r@ == self@.agent,
            self.wf(),
    {
        proof {
            use_type_invariant(self);
        }
        self.agent.as_str()
    }

    /// Whether the transport is to insist on TLS.
    pub fn secure(&self) -> (r: bool)
        ensures
            r == self@.secure,
    {
        self.secure
    }

    /// The credential provider that the client was built with.
    pub fn provider(&self) -> (p: &P)
        ensures
            p == self.spec_provider(),
    {
        &self.provider
    }

    /// The URL of a bucket or an object, without a query: the client's
    /// scheme and host, then [`path_text`].
    pub fn build_uri(&self, bucket: Option<&str>, key: Option<&str>) -> (uri: String)
        ensures
            uri@ == self@.host + path_text(
                crate::validate::opt_view(bucket),
                crate::validate::opt_view(key),
            ),
    {
        let mut uri = self.host.clone();
        push_path(&mut uri, bucket, key);
        uri
    }

    /// A request of this client with the method `method`, for the client's
    /// region, and nothing else set.
    pub fn executor(&self, method: Method) -> (e: BaseExecutor<'_, P>)
        ensures
            e@ == crate::executor::fresh_request(method, self@.region),
            e.client() == self,
    {
        BaseExecutor::new(method, self)
    }
}

} // verus!
