use std::sync::Arc;
use vstd::prelude::*;

use crate::artifact::{decimal, etag_of, opt_view, share, to_decimal, Artifact, ArtifactView};
use crate::paths::{strip_slashes, trim_leading_slashes};
use crate::store::{opt_artifact_view, StaticStore};

verus! {

/// How the server sets the `Cache-Control` header.
#[derive(Debug, Clone, PartialEq, Eq)]
pub enum CacheStrategy {
    /// Clients check for a new version before they use a cached file.
    Eager,
    /// Clients may use a cached file for up to a week while they check for a new one.
    Lazy,
    /// No caching.
    NoCache,
    /// A `Cache-Control` value given by the caller.
    Custom(String),
}

/// The value of `Cache-Control` under a strategy.
pub open spec fn cache_control(s: CacheStrategy) -> Seq<char> {
    match s {
        CacheStrategy::Eager => "max-age=0, must-revalidate"@,
        CacheStrategy::Lazy => "max-age=0, stale-while-revalidate=604800"@,
        CacheStrategy::NoCache => "no-cache"@,
        CacheStrategy::Custom(v) => v@,
    }
}

impl CacheStrategy {
    /// The value of the `Cache-Control` header under this strategy.
    pub fn header_value(&self) -> (r: String)
        ensures
            r@ == cache_control(*self),
    {
        match self {
            CacheStrategy::Eager => String::from_str("max-age=0, must-revalidate"),
            CacheStrategy::Lazy => String::from_str("max-age=0, stale-while-revalidate=604800"),
            CacheStrategy::NoCache => String::from_str("no-cache"),
            CacheStrategy::Custom(v) => v.clone(),
        }
    }

    /// A copy of this strategy.
    pub fn duplicate(&self) -> (r: CacheStrategy)
        ensures
            cache_control(r) == cache_control(*self),
            r == *self,
    {
        match self {
            CacheStrategy::Eager => CacheStrategy::Eager,
            CacheStrategy::Lazy => CacheStrategy::Lazy,
            CacheStrategy::NoCache => CacheStrategy::NoCache,
            CacheStrategy::Custom(v) => {
                let c = v.clone();
                proof {
                    assert(c == *v);
                }
                CacheStrategy::Custom(c)
            },
        }
    }
}

/// Whether the program was built for development or for production.
#[derive(Debug, Clone, Copy, PartialEq, Eq)]
pub enum BuildMode {
    Development,
    Production,
}

/// The cache strategy used unless the integrator picks another.
pub open spec fn default_strategy(mode: BuildMode) -> CacheStrategy {
    match mode {
        BuildMode::Development => CacheStrategy::NoCache,
        BuildMode::Production => CacheStrategy::Eager,
    }
}

/// An inbound request, as far as serving reads it.
#[derive(Debug, Clone)]
pub struct Request {
    pub path: String,
    pub query: Option<String>,
    pub if_none_match: Option<String>,
}

#[derive(Debug, Clone, PartialEq, Eq)]
pub struct Header {
    pub name: String,
    pub value: String,
}

/// A response: status, headers in order, body.
#[derive(Debug, Clone)]
pub struct Response {
    pub status: u16,
    pub headers: Vec<Header>,
    pub body: Vec<u8>,
}

pub struct ResponseView {
    pub status: u16,
    pub headers: Seq<(Seq<char>, Seq<char>)>,
    pub body: Seq<u8>,
}

impl View for Response {
    type V = ResponseView;

    open spec fn view(&self) -> ResponseView {
        ResponseView {
            status: self.status,
            headers: self.headers@.map_values(|h: Header| (h.name@, h.value@)),
            body: self.body@,
        }
    }
}

/// The headers sent with a found artifact.
pub open spec fn found_headers(a: ArtifactView, s: CacheStrategy) -> Seq<(Seq<char>, Seq<char>)> {
    let base = seq![
        ("Content-Type"@, a.content_type),
        ("Content-Length"@, decimal(a.content_length as nat)),
        ("ETag"@, etag_of(a)),
        ("Cache-Control"@, cache_control(s)),
    ];
    match a.last_modified {
        Some(lm) => base.push(("Last-Modified"@, lm)),
        None => base,
    }
}

/// The response to a lookup result: 404 with nothing when nothing was found; else the
/// artifact's headers, with 304 and an empty body when `If-None-Match` equals its ETag,
/// and 200 with its bytes otherwise.
pub open spec fn response_for(
    found: Option<ArtifactView>,
    s: CacheStrategy,
    if_none_match: Option<Seq<char>>,
) -> ResponseView {
    match found {
        None => ResponseView { status: 404, headers: Seq::empty(), body: Seq::empty() },
        Some(a) => if if_none_match == Some(etag_of(a)) {
            ResponseView { status: 304, headers: found_headers(a, s), body: Seq::empty() }
        } else {
            ResponseView { status: 200, headers: found_headers(a, s), body: a.bytes }
        },
    }
}

/// The path probed for directory-style routing.
pub open spec fn index_of(p: Seq<char>) -> Seq<char> {
    p + "/index.html"@
}

/// The path served for a request path whose leading slashes are gone: `index.html` for
/// the empty path, `p/index.html` where that exists, else `p` itself.
pub open spec fn target_for(p: Seq<char>, index_exists: bool) -> Seq<char> {
    if p.len() == 0 {
        "index.html"@
    } else if index_exists {
        index_of(p)
    } else {
        p
    }
}

fn header(name: &str, value: String) -> (r: Header)
    ensures
        r.name@ == name@,
        r.value@ == value@,
{
    Header { name: String::from_str(name), value }
}

/// The directory index to probe for a raw request path, or none for the root.
pub fn index_probe(raw_path: &str) -> (r: Option<String>)
    ensures
        match r {
            Some(c) => strip_slashes(raw_path@).len() > 0 && c@ == index_of(strip_slashes(raw_path@)),
            None => strip_slashes(raw_path@).len() == 0,
        },
{
    let mut p = trim_leading_slashes(raw_path);
    if p.unicode_len() == 0 {
        None
    } else {
        p.append("/index.html");
        Some(p)
    }
}

/// The path to look up for a raw request path, given whether its directory index exists.
pub fn served_target(raw_path: &str, index_exists: bool) -> (r: String)
    ensures
        r@ == target_for(strip_slashes(raw_path@), index_exists),
{
    let p = trim_leading_slashes(raw_path);
    if p.unicode_len() == 0 {
        String::from_str("index.html")
    } else if index_exists {
        let mut c = p;
        c.append("/index.html");
        c
    } else {
        p
    }
}

/// Renders the response for what a lookup found.
pub fn render_response(
    found: Option<Artifact>,
    strategy: &CacheStrategy,
    if_none_match: &Option<String>,
) -> (r: Response)
    ensures
        r@ == response_for(opt_artifact_view(found), *strategy, opt_view(*if_none_match)),
{
    match found {
        None => {
            let r = Response { status: 404, headers: Vec::new(), body: Vec::new() };
            assert(r@.headers =~= Seq::<(Seq<char>, Seq<char>)>::empty());
            assert(r@.body =~= Seq::<u8>::empty());
            r
        },
        Some(file) => {
            let etag = file.etag();
            let not_modified = match if_none_match {
                Some(v) => v.eq(&etag),
                None => false,
            };
            let ghost a = file@;
            let mut headers: Vec<Header> = Vec::new();
            headers.push(header("Content-Type", file.content_type));
            headers.push(header("Content-Length", to_decimal(file.content_length)));
            headers.push(header("ETag", etag));
            headers.push(header("Cache-Control", strategy.header_value()));
            match file.last_modified {
                Some(lm) => {
                    headers.push(header("Last-Modified", lm));
                },
                None => {},
            }
            let r = if not_modified {
                Response { status: 304, headers, body: Vec::new() }
            } else {
                Response { status: 200, headers, body: (*file.bytes).clone() }
            };
            assert(r@.headers =~= found_headers(a, *strategy));
            r
        },
    }
}

/// Serves built front-end assets from an embedded store.
#[derive(Clone)]
pub struct ViteServe {
    pub cache_strategy: CacheStrategy,
    /// Shared by every copy of the server.
    pub assets: Arc<StaticStore>,
}

impl ViteServe {
    pub open spec fn wf(self) -> bool {
        self.assets.wf()
    }

    /// The path looked up for a raw request path.
    pub open spec fn served_path(self, raw: Seq<char>) -> Seq<char> {
        let p = strip_slashes(raw);
        target_for(p, p.len() > 0 && self.assets.lookup(index_of(p)).is_some())
    }

    /// The response to a request.
    pub open spec fn response(self, path: Seq<char>, if_none_match: Option<Seq<char>>) -> ResponseView {
        response_for(self.assets.lookup(self.served_path(path)), self.cache_strategy, if_none_match)
    }

    /// The empty path serves `index.html`; a directory-style path `d` whose `d/index.html`
    /// resolves serves that, whether or not `d` itself resolves.
    pub proof fn law_index_fallback(self, d: Seq<char>)
        ensures
            self.served_path(Seq::empty()) == "index.html"@,
            self.response(Seq::empty(), None) == response_for(
                self.assets.lookup("index.html"@),
                self.cache_strategy,
                None,
            ),
            d.len() > 0 && d[0] != '/' && self.assets.lookup(index_of(d)).is_some()
                ==> self.served_path(d) == index_of(d) && self.response(d, None) == response_for(
                self.assets.lookup(index_of(d)),
                self.cache_strategy,
                None,
            ),
    {
        assert(strip_slashes(Seq::<char>::empty()) == Seq::<char>::empty());
        if d.len() > 0 && d[0] != '/' {
            assert(strip_slashes(d) == d);
        }
    }

    /// Where a request finds an artifact, the plain answer is a 200 carrying its ETag, and
    /// sending that ETag back as `If-None-Match` gives a 304 with an empty body and the
    /// same headers.
    pub proof fn law_etag_round_trip(self, path: Seq<char>)
        requires
            self.assets.lookup(self.served_path(path)).is_some(),
        ensures
            ({
                let a = self.assets.lookup(self.served_path(path)).unwrap();
                let full = self.response(path, None);
                let cached = self.response(path, Some(etag_of(a)));
                &&& full.status == 200
                &&& full.headers[2] == ("ETag"@, etag_of(a))
                &&& cached.status == 304
                &&& cached.body.len() == 0
                &&& cached.headers == full.headers
            }),
    {
    }

    /// A server over `assets`, with the default cache strategy of the build mode.
    pub fn new(assets: StaticStore, mode: BuildMode) -> (r: ViteServe)
        ensures
            *r.assets == assets,
            r.cache_strategy == default_strategy(mode),
    {
        let cache_strategy = match mode {
            BuildMode::Development => CacheStrategy::NoCache,
            BuildMode::Production => CacheStrategy::Eager,
        };
        ViteServe { cache_strategy, assets: Arc::new(assets) }
    }

    /// The same server with another cache strategy.
    pub fn with_cache_strategy(self, cache_strategy: CacheStrategy) -> (r: ViteServe)
        ensures
            r.assets == self.assets,
            r.cache_strategy == cache_strategy,
    {
        let mut s = self;
        s.cache_strategy = cache_strategy;
        s
    }

    /// A copy of this server that shares its store.
    pub fn duplicate(&self) -> (r: ViteServe)
        ensures
            r.cache_strategy == self.cache_strategy,
            r.assets == self.assets,
    {
        ViteServe { cache_strategy: self.cache_strategy.duplicate(), assets: share(&self.assets) }
    }

    /// True when a lookup of `path` finds an artifact.
    pub fn has_asset(&self, path: &str) -> (r: bool)
        requires
            self.wf(),
        ensures
            r == self.assets.lookup(path@).is_some(),
    {
        self.assets.has_asset(path)
    }

    /// Answers a request: leading slashes stripped, directory index preferred, then the
    /// conditional response for what was found.
    pub fn serve(&self, req: &Request) -> (r: Response)
        requires
            self.wf(),
        ensures
            r@ == self.response(req.path@, opt_view(req.if_none_match)),
    {
        let index_exists = match index_probe(req.path.as_str()) {
            Some(c) => self.has_asset(c.as_str()),
            None => false,
        };
        let target = served_target(req.path.as_str(), index_exists);
        let found = self.assets.resolve(target.as_str());
        render_response(found, &self.cache_strategy, &req.if_none_match)
    }
}

} // verus!
