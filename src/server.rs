//! Answering requests from the embedded resources and the statistics
//! document.
//!
//! The server holds only values built at start-up and never changes them: the
//! answer to a request is a function of the path alone, and each answer's
//! declared length is taken from the very bytes it carries.

use crate::bundle::{bundle, lemma_only_fixed_names, Asset, AssetSet, AssetSetView, BuildFile};
use crate::manifest::{fixed_name, page_manifest, Reference, SLASH};
use crate::text::{bytes_eq, contains};
use vstd::prelude::*;
use vstd::slice::{slice_subrange, slice_to_vec};
use vstd::string::StringSliceAdditionalSpecFns;

verus! {

/// The status of a response that carries a resource.
pub const STATUS_OK: u16 = 200;

/// The status of a response to a path that names nothing.
pub const STATUS_NOT_FOUND: u16 = 404;

/// The media type that a response declares.
#[derive(Clone, Copy, Debug, PartialEq, Eq, Structural)]
pub enum ContentType {
    Html,
    JavaScript,
    Css,
    Font,
    Json,
}

pub open spec fn mime_of(t: ContentType) -> Seq<char> {
    match t {
        ContentType::Html => "text/html"@,
        ContentType::JavaScript => "application/javascript"@,
        ContentType::Css => "text/css"@,
        ContentType::Font => "font/ttf"@,
        ContentType::Json => "application/json"@,
    }
}

impl ContentType {
    /// The value of the `content-type` header.
    pub fn mime(self) -> (m: &'static str)
        ensures
            m@ == mime_of(self),
    {
        match self {
            ContentType::Html => "text/html",
            ContentType::JavaScript => "application/javascript",
            ContentType::Css => "text/css",
            ContentType::Font => "font/ttf",
            ContentType::Json => "application/json",
        }
    }
}

/// What a request path names.
#[derive(Clone, Copy, Debug, PartialEq, Eq, Structural)]
pub enum Route {
    Resource(Asset),
    Statistics,
    NotFound,
}

/// The path of a fixed name: `/` followed by the name.
pub open spec fn fixed_path(r: Reference) -> Seq<u8> {
    seq![SLASH] + fixed_name(r)
}

/// The page is served at `/` and at `/ui`, every other resource at the path of
/// its fixed name, and the statistics document at `/input`.
pub open spec fn route_of(path: Seq<u8>) -> Route {
    if path == "/".spec_bytes() || path == "/ui".spec_bytes() {
        Route::Resource(Asset::Page)
    } else if path == fixed_path(Reference::Script) {
        Route::Resource(Asset::Script)
    } else if path == fixed_path(Reference::Stylesheet) {
        Route::Resource(Asset::Stylesheet)
    } else if path == fixed_path(Reference::FontRegular) {
        Route::Resource(Asset::FontRegular)
    } else if path == fixed_path(Reference::FontVariable) {
        Route::Resource(Asset::FontVariable)
    } else if path == "/input".spec_bytes() {
        Route::Statistics
    } else {
        Route::NotFound
    }
}

pub open spec fn content_type_of(a: Asset) -> ContentType {
    match a {
        Asset::Page => ContentType::Html,
        Asset::Script => ContentType::JavaScript,
        Asset::Stylesheet => ContentType::Css,
        Asset::FontRegular | Asset::FontVariable => ContentType::Font,
    }
}

/// A response: its status, its headers and its body.
pub struct Response {
    pub status: u16,
    /// The `content-type` header, where there is one.
    pub content_type: Option<ContentType>,
    /// The `content-length` header.
    pub content_length: usize,
    /// Whether the `accept-ranges: bytes` header is sent.
    pub accept_ranges: bool,
    pub body: Vec<u8>,
}

pub struct ResponseView {
    pub status: u16,
    pub content_type: Option<ContentType>,
    pub content_length: nat,
    pub accept_ranges: bool,
    pub body: Seq<u8>,
}

impl View for Response {
    type V = ResponseView;

    open spec fn view(&self) -> ResponseView {
        ResponseView {
            status: self.status,
            content_type: self.content_type,
            content_length: self.content_length as nat,
            accept_ranges: self.accept_ranges,
            body: self.body@,
        }
    }
}

pub open spec fn not_found() -> ResponseView {
    ResponseView {
        status: STATUS_NOT_FOUND,
        content_type: None,
        content_length: 0,
        accept_ranges: false,
        body: Seq::empty(),
    }
}

/// The response to a request for `path`.
pub open spec fn response(assets: AssetSetView, statistics: Seq<u8>, path: Seq<u8>) -> ResponseView {
    match route_of(path) {
        Route::Resource(a) => match assets.resource(a) {
            Some(b) => ResponseView {
                status: STATUS_OK,
                content_type: Some(content_type_of(a)),
                content_length: b.len(),
                accept_ranges: true,
                body: b,
            },
            None => not_found(),
        },
        Route::Statistics => ResponseView {
            status: STATUS_OK,
            content_type: Some(ContentType::Json),
            content_length: statistics.len(),
            accept_ranges: false,
            body: statistics,
        },
        Route::NotFound => not_found(),
    }
}

fn is_fixed_path(path: &[u8], r: Reference) -> (res: bool)
    ensures
        res == (path@ == fixed_path(r)),
{
    let name = r.fixed_name();
    if path.len() == 0 || path[0] != SLASH {
        return false;
    }
    let rest = slice_subrange(path, 1, path.len());
    let res = bytes_eq(rest, name);
    assert(path@ =~= seq![path@[0]] + rest@);
    assert(path@ == fixed_path(r) ==> rest@ =~= fixed_path(r).subrange(1, fixed_path(r).len() as int));
    assert(fixed_path(r).subrange(1, fixed_path(r).len() as int) =~= name@);
    res
}

/// What `path` names.
pub fn route(path: &[u8]) -> (r: Route)
    ensures
        r == route_of(path@),
{
    if bytes_eq(path, "/".as_bytes()) || bytes_eq(path, "/ui".as_bytes()) {
        Route::Resource(Asset::Page)
    } else if is_fixed_path(path, Reference::Script) {
        Route::Resource(Asset::Script)
    } else if is_fixed_path(path, Reference::Stylesheet) {
        Route::Resource(Asset::Stylesheet)
    } else if is_fixed_path(path, Reference::FontRegular) {
        Route::Resource(Asset::FontRegular)
    } else if is_fixed_path(path, Reference::FontVariable) {
        Route::Resource(Asset::FontVariable)
    } else if bytes_eq(path, "/input".as_bytes()) {
        Route::Statistics
    } else {
        Route::NotFound
    }
}

fn content_type_for(a: Asset) -> (t: ContentType)
    ensures
        t == content_type_of(a),
{
    match a {
        Asset::Page => ContentType::Html,
        Asset::Script => ContentType::JavaScript,
        Asset::Stylesheet => ContentType::Css,
        Asset::FontRegular | Asset::FontVariable => ContentType::Font,
    }
}

fn not_found_response() -> (r: Response)
    ensures
        r@ == not_found(),
{
    let r = Response {
        status: STATUS_NOT_FOUND,
        content_type: None,
        content_length: 0,
        accept_ranges: false,
        body: Vec::new(),
    };
    assert(r@.body =~= Seq::<u8>::empty());
    r
}

/// The name under which the project is reported: the name of its directory,
/// or `Project` where the directory has no name that reads as text.
pub fn project_name(dir_name: Option<&str>) -> (r: String)
    ensures
        r@ == match dir_name {
            Some(n) => n@,
            None => "Project"@,
        },
{
    match dir_name {
        Some(n) => n.to_owned(),
        None => "Project".to_owned(),
    }
}

/// The state that requests are answered from: the embedded resources and the
/// serialised statistics document, both fixed at start-up.
pub struct Server {
    assets: AssetSet,
    statistics: Vec<u8>,
}

pub struct ServerView {
    pub assets: AssetSetView,
    pub statistics: Seq<u8>,
}

impl View for Server {
    type V = ServerView;

    closed spec fn view(&self) -> ServerView {
        ServerView { assets: self.assets@, statistics: self.statistics@ }
    }
}

impl Server {
    pub fn new(assets: AssetSet, statistics: Vec<u8>) -> (s: Server)
        ensures
            s@ == (ServerView { assets: assets@, statistics: statistics@ }),
    {
        Server { assets, statistics }
    }

    /// Answers a request for `path`. The declared length is always that of
    /// the body.
    pub fn respond(&self, path: &[u8]) -> (r: Response)
        ensures
            r@ == response(self@.assets, self@.statistics, path@),
            r.content_length == r.body@.len(),
    {
        match route(path) {
            Route::Resource(a) => match self.assets.payload(a) {
                Some(b) => Response {
                    status: STATUS_OK,
                    content_type: Some(content_type_for(a)),
                    content_length: b.len(),
                    accept_ranges: true,
                    body: slice_to_vec(b),
                },
                None => not_found_response(),
            },
            Route::Statistics => Response {
                status: STATUS_OK,
                content_type: Some(ContentType::Json),
                content_length: self.statistics.len(),
                accept_ranges: false,
                body: slice_to_vec(self.statistics.as_slice()),
            },
            Route::NotFound => not_found_response(),
        }
    }
}

/// Every response declares as its length the length of the body it carries,
/// and a resource is served with exactly the bytes that the set holds.
pub proof fn lemma_length_matches_body(assets: AssetSetView, statistics: Seq<u8>, path: Seq<u8>)
    ensures
        response(assets, statistics, path).content_length == response(
            assets,
            statistics,
            path,
        ).body.len(),
        route_of(path) matches Route::Resource(a) ==> (assets.resource(a) matches Some(b) ==> (
        response(assets, statistics, path).status == STATUS_OK && response(
            assets,
            statistics,
            path,
        ).body == b)),
{
}

/// A path that names nothing is answered with a not-found response.
pub proof fn lemma_unmapped_path_not_found(assets: AssetSetView, statistics: Seq<u8>, path: Seq<u8>)
    requires
        route_of(path) == Route::NotFound,
    ensures
        response(assets, statistics, path) == not_found(),
        response(assets, statistics, path).status == STATUS_NOT_FOUND,
{
}

/// The page served at `/` after bundling a build holds the fixed names of
/// the script and stylesheet, never their hashed names (but where a hashed
/// name is its fixed name already).
pub proof fn lemma_served_page_only_fixed_names(
    html: Seq<u8>,
    files: Seq<BuildFile>,
    statistics: Seq<u8>,
    path: Seq<u8>,
)
    requires
        bundle(html, files) is Ok,
        route_of(path) == Route::Resource(Asset::Page),
    ensures
        ({
            let body = response(bundle(html, files)->Ok_0, statistics, path).body;
            let m = page_manifest(html)->Ok_0;
            &&& body == bundle(html, files)->Ok_0.page
            &&& m.script != fixed_name(Reference::Script) ==> !contains(body, m.script)
            &&& m.stylesheet matches Some(c) ==> (c != fixed_name(Reference::Stylesheet)
                ==> !contains(body, c))
        }),
{
    lemma_only_fixed_names(html, files);
}

} // verus!
