//! The proxy leg: picks the upstream from route metadata, builds the
//! outbound request (method, query, every header but Host, body), and relays
//! the upstream's reply unchanged.
use vstd::prelude::*;
use crate::config::{RouteConfig, opt_view};
use crate::gateway::Status;

verus! {

/// The closed set of upstream kinds a route can send to.
#[derive(Clone, Copy, Debug, PartialEq, Eq)]
pub enum Target {
    Identity,
    Policy,
    Default,
}

/// The upstream kind a route's target tag selects: `identity` for the
/// identity provider, `policy` for the policy engine; anything else, or no
/// tag, is the default upstream.
pub open spec fn target_of(tag: Option<Seq<char>>) -> Target {
    match tag {
        Some(t) => if t == "identity"@ {
            Target::Identity
        } else if t == "policy"@ {
            Target::Policy
        } else {
            Target::Default
        },
        None => Target::Default,
    }
}

impl Target {
    /// The upstream kind of a route's target tag.
    pub fn from_tag(tag: &Option<String>) -> (r: Target)
        ensures
            r == target_of(opt_view(*tag)),
    {
        match tag {
            Some(t) => {
                if *t == String::from_str("identity") {
                    Target::Identity
                } else if *t == String::from_str("policy") {
                    Target::Policy
                } else {
                    Target::Default
                }
            },
            None => Target::Default,
        }
    }
}

/// Base URLs of the upstreams.
#[derive(Clone, Debug)]
pub struct Upstreams {
    pub identity_url: String,
    pub policy_url: String,
    pub default_url: String,
}

/// The base URL of `target`.
pub open spec fn base_of(u: Upstreams, target: Target) -> Seq<char> {
    match target {
        Target::Identity => u.identity_url@,
        Target::Policy => u.policy_url@,
        Target::Default => u.default_url@,
    }
}

/// The upstream a request goes to: the route's target, or the default
/// upstream when no route matched.
pub open spec fn route_target(route: Option<RouteConfig>) -> Target {
    match route {
        Some(c) => target_of(opt_view(c.target)),
        None => Target::Default,
    }
}

/// The outbound URL: base, path, and `?query` when there is a query.
pub open spec fn outbound_url(base: Seq<char>, path: Seq<char>, query: Seq<char>) -> Seq<char> {
    if query.len() == 0 {
        base + path
    } else {
        base + path + "?"@ + query
    }
}

/// A header: lower-case name and raw value.
pub type Header = (String, Vec<u8>);

/// The view of a header.
pub open spec fn header_view(h: Header) -> (Seq<char>, Seq<u8>) {
    (h.0@, h.1@)
}

/// The headers of `hs` other than Host, in order.
pub open spec fn without_host(hs: Seq<Header>) -> Seq<(Seq<char>, Seq<u8>)>
    decreases hs.len(),
{
    if hs.len() == 0 {
        Seq::empty()
    } else {
        let rest = without_host(hs.drop_last());
        if hs.last().0@ == "host"@ {
            rest
        } else {
            rest.push(header_view(hs.last()))
        }
    }
}

/// Views of a sequence of headers.
pub open spec fn header_views(hs: Seq<Header>) -> Seq<(Seq<char>, Seq<u8>)> {
    hs.map_values(|h: Header| header_view(h))
}

impl Upstreams {
    /// The base URL for `target`.
    pub fn base(&self, target: Target) -> (r: &String)
        ensures
            r@ == base_of(*self, target),
    {
        match target {
            Target::Identity => &self.identity_url,
            Target::Policy => &self.policy_url,
            Target::Default => &self.default_url,
        }
    }
}

/// The URL to forward a request for `path` and `query` to.
pub fn proxy_url(upstreams: &Upstreams, route: Option<&RouteConfig>, path: &str, query: &str) -> (r: String)
    ensures
        r@ == outbound_url(
            base_of(*upstreams, route_target(match route { Some(c) => Some(*c), None => None })),
            path@,
            query@,
        ),
{
    let target = match route {
        Some(c) => Target::from_tag(&c.target),
        None => Target::Default,
    };
    let mut url = upstreams.base(target).clone();
    url.append(path);
    if query.unicode_len() != 0 {
        url.append("?");
        url.append(query);
    }
    url
}

/// A copy of a header.
fn copy_header(h: &Header) -> (r: Header)
    ensures
        header_view(r) == header_view(*h),
{
    (h.0.clone(), h.1.clone())
}

/// The headers to send upstream: all of them but Host, in order.
pub fn forwarded_headers(headers: &Vec<Header>) -> (r: Vec<Header>)
    ensures
        header_views(r@) == without_host(headers@),
{
    let host = String::from_str("host");
    let mut r: Vec<Header> = Vec::new();
    let mut k: usize = 0;
    while k < headers.len()
        invariant
            k <= headers.len(),
            host@ == "host"@,
            header_views(r@) == without_host(headers@.take(k as int)),
        decreases headers.len() - k,
    {
        let ghost before = r@;
        if headers[k].0 != host {
            r.push(copy_header(&headers[k]));
        }
        proof {
            assert(headers@.take(k + 1).drop_last() =~= headers@.take(k as int));
            assert(headers@.take(k + 1).last() == headers@[k as int]);
            assert(header_views(r@) =~= without_host(headers@.take(k + 1)));
        }
        k = k + 1;
    }
    proof {
        assert(headers@.take(headers@.len() as int) =~= headers@);
    }
    r
}

/// The request the proxy leg sends upstream.
#[derive(Clone, Debug)]
pub struct OutboundRequest {
    pub method: String,
    pub url: String,
    pub headers: Vec<Header>,
    pub body: Option<Vec<u8>>,
}

/// Builds the outbound request: same method, the URL of the selected
/// upstream, every header but Host, and the body when it is not empty.
pub fn outbound_request(
    upstreams: &Upstreams,
    route: Option<&RouteConfig>,
    method: &str,
    path: &str,
    query: &str,
    headers: &Vec<Header>,
    body: Vec<u8>,
) -> (r: OutboundRequest)
    ensures
        r.method@ == method@,
        r.url@ == outbound_url(
            base_of(*upstreams, route_target(match route { Some(c) => Some(*c), None => None })),
            path@,
            query@,
        ),
        header_views(r.headers@) == without_host(headers@),
        body@.len() == 0 ==> r.body is None,
        body@.len() != 0 ==> r.body == Some(body),
{
    let url = proxy_url(upstreams, route, path, query);
    let hs = forwarded_headers(headers);
    let b = if body.len() == 0 {
        None
    } else {
        Some(body)
    };
    OutboundRequest { method: String::from_str(method), url, headers: hs, body: b }
}

/// What goes back to the caller.
#[derive(Clone, Debug)]
pub struct ProxyResponse {
    pub status: u16,
    pub headers: Vec<Header>,
    pub body: Vec<u8>,
}

/// Relays the upstream's reply: status, headers and body unchanged.
pub fn relay(status: u16, headers: Vec<Header>, body: Vec<u8>) -> (r: ProxyResponse)
    ensures
        r.status == status,
        r.headers == headers,
        r.body == body,
{
    ProxyResponse { status, headers, body }
}

/// Where the proxy leg failed.
#[derive(Clone, Copy, Debug, PartialEq, Eq)]
pub enum ProxyFailure {
    /// The inbound body could not be read.
    RequestBody,
    /// The upstream could not be reached or failed at the transport level.
    Upstream,
    /// The upstream's body could not be read.
    UpstreamBody,
    /// The response could not be assembled.
    Response,
}

/// The status a proxy failure maps to: transport failures towards the
/// upstream are a bad gateway, local failures an internal error.
pub fn failure_status(f: ProxyFailure) -> (r: Status)
    ensures
        (f == ProxyFailure::Upstream || f == ProxyFailure::UpstreamBody) <==> r == Status::BadGateway,
        (f == ProxyFailure::RequestBody || f == ProxyFailure::Response) <==> r == Status::InternalError,
{
    match f {
        ProxyFailure::RequestBody => Status::InternalError,
        ProxyFailure::Upstream => Status::BadGateway,
        ProxyFailure::UpstreamBody => Status::BadGateway,
        ProxyFailure::Response => Status::InternalError,
    }
}

/// Round trip through an upstream that echoes what it receives: the caller
/// gets back the echoed status, the request's headers but Host, and the
/// request's body bytes.
pub proof fn echo_round_trip(
    request_headers: Seq<Header>,
    request_body: Seq<u8>,
    sent: OutboundRequest,
    reply: ProxyResponse,
    status: u16,
)
    requires
        header_views(sent.headers@) == without_host(request_headers),
        request_body.len() == 0 ==> sent.body is None,
        request_body.len() != 0 ==> (sent.body matches Some(b) && b@ == request_body),
        reply.status == status,
        header_views(reply.headers@) == header_views(sent.headers@),
        reply.body@ == (match sent.body { Some(b) => b@, None => Seq::empty() }),
    ensures
        reply.status == status,
        header_views(reply.headers@) == without_host(request_headers),
        reply.body@ == request_body,
{
}

} // verus!
