use vstd::prelude::*;

verus! {

#[verifier::external_type_specification]
#[verifier::external_body]
pub struct ExClient(reqwest::Client);

#[verifier::external_type_specification]
#[verifier::external_body]
pub struct ExClientBuilder(reqwest::ClientBuilder);

#[verifier::external_type_specification]
#[verifier::external_body]
pub struct ExProxy(reqwest::Proxy);

#[verifier::external_type_specification]
#[verifier::external_body]
pub struct ExReqwestError(reqwest::Error);

/// Why no HTTP client could be made.
#[derive(Clone, Copy, Debug, PartialEq, Eq)]
pub enum ClientError {
    /// The proxy address is not a URL, even with `http://` put in front.
    InvalidProxy,
    /// The client could not be set up (TLS backend or resolver configuration).
    BuildFailed,
}

/// Whether `reqwest::Proxy::all` accepts the address `url`.
pub uninterp spec fn proxy_accepted(url: Seq<char>) -> bool;

/// A proxy for every scheme, with the address it was made from.
pub struct ProxyFor {
    proxy: reqwest::Proxy,
    address: Ghost<Seq<char>>,
}

impl ProxyFor {
    pub closed spec fn address(&self) -> Seq<char> {
        self.address@
    }
}

/// A client builder, with the addresses of the proxies added to it in order.
pub struct Builder {
    builder: reqwest::ClientBuilder,
    proxies: Ghost<Seq<Seq<char>>>,
}

impl Builder {
    pub closed spec fn proxies(&self) -> Seq<Seq<char>> {
        self.proxies@
    }
}

/// An HTTP client, with the addresses of the proxies it sends requests
/// through. With none, reqwest's default applies: the system's proxy settings.
pub struct HttpClient {
    client: reqwest::Client,
    proxies: Ghost<Seq<Seq<char>>>,
}

impl HttpClient {
    pub closed spec fn proxies(&self) -> Seq<Seq<char>> {
        self.proxies@
    }

    /// The client itself, for sending requests.
    pub fn inner(&self) -> &reqwest::Client {
        &self.client
    }
}

/// Relies on reqwest::Proxy::all: a proxy for every scheme made from the
/// address alone (parsed as a URL, retried with `http://` when it has no scheme).
#[verifier::external_body]
fn proxy_for_all(url: &str) -> (r: Result<ProxyFor, reqwest::Error>)
    ensures
        r.is_ok() == proxy_accepted(url@),
        r matches Ok(p) ==> p.address() == url@,
{
    match reqwest::Proxy::all(url) {
        Ok(proxy) => Ok(ProxyFor { proxy, address: Ghost(url@) }),
        Err(e) => Err(e),
    }
}

/// Relies on reqwest::Client::builder: a builder with default settings and no
/// proxy added.
#[verifier::external_body]
fn client_builder() -> (r: Builder)
    ensures
        r.proxies() == Seq::<Seq<char>>::empty(),
{
    Builder { builder: reqwest::Client::builder(), proxies: Ghost(Seq::empty()) }
}

/// Relies on reqwest::ClientBuilder::proxy: appends `p` to the builder's
/// proxies (and turns off the system proxy settings).
#[verifier::external_body]
fn builder_proxy(b: Builder, p: ProxyFor) -> (r: Builder)
    ensures
        r.proxies() == b.proxies().push(p.address()),
{
    Builder { builder: b.builder.proxy(p.proxy), proxies: Ghost(b.proxies@.push(p.address@)) }
}

/// Relies on reqwest::ClientBuilder::build: a client with the builder's
/// proxies; it fails when a TLS backend or the resolver cannot be set up.
#[verifier::external_body]
fn builder_build(b: Builder) -> (r: Result<HttpClient, reqwest::Error>)
    ensures
        r matches Ok(c) ==> c.proxies() == b.proxies(),
{
    match b.builder.build() {
        Ok(client) => Ok(HttpClient { client, proxies: Ghost(b.proxies@) }),
        Err(e) => Err(e),
    }
}

/// The proxies a client made for `proxy_url` goes through.
pub open spec fn proxies_for(proxy_url: Option<&str>) -> Seq<Seq<char>> {
    match proxy_url {
        Some(u) => seq![u@],
        None => Seq::empty(),
    }
}

/// Makes an HTTP client that sends everything through `proxy_url`, exactly,
/// when one is given. An address that is not a URL is refused before any
/// client is built.
pub fn create_client(proxy_url: Option<&str>) -> (r: Result<HttpClient, ClientError>)
    ensures
        (r matches Err(e) && e == ClientError::InvalidProxy) <==> (proxy_url matches Some(u)
            && !proxy_accepted(u@)),
        r matches Ok(c) ==> c.proxies() == proxies_for(proxy_url),
{
    let builder = client_builder();
    let builder = match proxy_url {
        Some(url) => match proxy_for_all(url) {
            Ok(p) => builder_proxy(builder, p),
            Err(_) => return Err(ClientError::InvalidProxy),
        },
        None => builder,
    };
    assert(builder.proxies() =~= proxies_for(proxy_url));
    match builder_build(builder) {
        Ok(c) => Ok(c),
        Err(_) => Err(ClientError::BuildFailed),
    }
}

/// Replaces `client` by a new one that goes through exactly `proxy_url` (or
/// through no added proxy). On failure `client` is left as it was.
pub fn update_proxy(client: &mut HttpClient, proxy_url: Option<&str>) -> (r: Result<(), ClientError>)
    ensures
        r.is_err() ==> *final(client) == *old(client),
        r.is_ok() ==> final(client).proxies() == proxies_for(proxy_url),
        (r matches Err(e) && e == ClientError::InvalidProxy) <==> (proxy_url matches Some(u)
            && !proxy_accepted(u@)),
{
    match create_client(proxy_url) {
        Ok(c) => {
            *client = c;
            Ok(())
        },
        Err(e) => Err(e),
    }
}

} // verus!
