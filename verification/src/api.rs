//! The wire's decisions: how failures are reported, how request parameters
//! default, and how a path outside the API is served.

use vstd::prelude::*;
use crate::text::{has_prefix, str_starts_with, str_equal, u64_to_decimal, decimal, joined};

verus! {

/// A failure's body: a message the frontend can show as-is.
pub struct ErrorMessage {
    pub error: String,
}

/// The statuses a handler fails with.
pub enum Status {
    BadRequest,
    NotFound,
    Conflict,
    InternalServerError,
    ServiceUnavailable,
}

pub open spec fn status_code(s: Status) -> u16 {
    match s {
        Status::BadRequest => 400,
        Status::NotFound => 404,
        Status::Conflict => 409,
        Status::InternalServerError => 500,
        Status::ServiceUnavailable => 503,
    }
}

impl Status {
    /// The HTTP status code.
    pub fn code(&self) -> (r: u16)
        ensures
            r == status_code(*self),
            *self == Status::BadRequest ==> r == 400,
            *self == Status::NotFound ==> r == 404,
            *self == Status::Conflict ==> r == 409,
            *self == Status::InternalServerError ==> r == 500,
            *self == Status::ServiceUnavailable ==> r == 503,
    {
        match self {
            Status::BadRequest => 400,
            Status::NotFound => 404,
            Status::Conflict => 409,
            Status::InternalServerError => 500,
            Status::ServiceUnavailable => 503,
        }
    }
}

/// Every handler's failure mode: a status and a message.
pub struct ApiError {
    pub status: Status,
    pub body: ErrorMessage,
}

pub fn bad_request(message: String) -> (r: ApiError)
    ensures
        r.status == Status::BadRequest,
        r.body.error == message,
{
    ApiError { status: Status::BadRequest, body: ErrorMessage { error: message } }
}

pub fn not_found(message: String) -> (r: ApiError)
    ensures
        r.status == Status::NotFound,
        r.body.error == message,
{
    ApiError { status: Status::NotFound, body: ErrorMessage { error: message } }
}

pub fn internal(message: String) -> (r: ApiError)
    ensures
        r.status == Status::InternalServerError,
        r.body.error == message,
{
    ApiError { status: Status::InternalServerError, body: ErrorMessage { error: message } }
}

pub fn conflict(message: String) -> (r: ApiError)
    ensures
        r.status == Status::Conflict,
        r.body.error == message,
{
    ApiError { status: Status::Conflict, body: ErrorMessage { error: message } }
}

/// The corpus could not read a stored graph.
pub fn graph_unreadable(reason: &str) -> (r: ApiError)
    ensures
        r.status == Status::InternalServerError,
        r.body.error@ == "could not read the stored graph: "@ + reason@,
{
    internal(joined("could not read the stored graph: ", reason))
}

/// The workbook resolved, but its graph is no longer stored.
pub fn graph_gone(hash: &str) -> (r: ApiError)
    ensures
        r.status == Status::NotFound,
        r.body.error@ == "the corpus no longer holds "@ + hash@,
{
    not_found(joined("the corpus no longer holds ", hash))
}

/// The graph holds no node with that id.
pub fn node_absent(id: u32) -> (r: ApiError)
    ensures
        r.status == Status::NotFound,
        r.body.error@ == "node "@ + decimal(id as nat) + " is not in this graph"@,
{
    let mut s = String::from_str("node ");
    let n = u64_to_decimal(id as u64);
    s.append(n.as_str());
    s.append(" is not in this graph");
    not_found(s)
}

/// The search engine refused the query.
pub fn search_failed(reason: &str) -> (r: ApiError)
    ensures
        r.status == Status::BadRequest,
        r.body.error@ == "search failed: "@ + reason@,
{
    bad_request(joined("search failed: ", reason))
}

/// Expanding the hits into graph context failed.
pub fn expansion_failed(reason: &str) -> (r: ApiError)
    ensures
        r.status == Status::BadRequest,
        r.body.error@ == "expansion failed: "@ + reason@,
{
    bad_request(joined("expansion failed: ", reason))
}

/// An index job is already running.
pub fn index_busy(running: &str) -> (r: ApiError)
    ensures
        r.status == Status::Conflict,
        r.body.error@ == "already indexing "@ + running@ + " — one at a time"@,
{
    let mut s = String::from_str("already indexing ");
    s.append(running);
    s.append(" — one at a time");
    conflict(s)
}

/// How many hits a search asks for: 8 unless given, and at least one.
pub open spec fn search_limit_of(limit: Option<usize>) -> usize {
    match limit {
        Some(n) => if n >= 1 { n } else { 1 },
        None => 8,
    }
}

/// A limit the request gives is kept as it is, but for zero, which asks
/// for one hit; with no limit a search asks for eight.
pub proof fn law_search_limit(limit: Option<usize>)
    ensures
        limit is Some && limit->0 >= 1 ==> search_limit_of(limit) == limit->0,
        limit == Some(0usize) ==> search_limit_of(limit) == 1,
        limit is None ==> search_limit_of(limit) == 8,
{
}

/// What a search runs with, from its query parameters.
pub struct SearchSettings {
    pub limit: usize,
    pub lexical_only: bool,
}

impl SearchSettings {
    pub fn from_params(limit: Option<usize>, lexical_only: Option<bool>) -> (r: SearchSettings)
        ensures
            r.limit == search_limit_of(limit),
            r.limit >= 1,
            limit is Some && limit->0 >= 1 ==> r.limit == limit->0,
            limit == Some(0usize) ==> r.limit == 1,
            limit is None ==> r.limit == 8,
            r.lexical_only == (lexical_only == Some(true)),
    {
        let limit = match limit {
            Some(n) => if n >= 1 { n } else { 1 },
            None => 8,
        };
        let lexical_only = match lexical_only {
            Some(b) => b,
            None => false,
        };
        SearchSettings { limit, lexical_only }
    }
}

/// How far an `ask` expands its hits into the graph.
pub struct ExpandSettings {
    pub hops: usize,
    pub budget: usize,
    pub children: usize,
}

impl ExpandSettings {
    /// Two hops, a budget of 40 nodes (at least one) and no children,
    /// unless the request says otherwise.
    pub fn from_params(hops: Option<usize>, budget: Option<usize>, children: Option<usize>) -> (r:
        ExpandSettings)
        ensures
            r.hops == (match hops { Some(h) => h, None => 2 }),
            r.budget == (match budget {
                Some(b) => if b >= 1 { b } else { 1 },
                None => 40,
            }),
            r.children == (match children { Some(c) => c, None => 0 }),
            r.budget >= 1,
    {
        let hops = match hops {
            Some(h) => h,
            None => 2,
        };
        let budget = match budget {
            Some(b) => if b >= 1 { b } else { 1 },
            None => 40,
        };
        let children = match children {
            Some(c) => c,
            None => 0,
        };
        ExpandSettings { hops, budget, children }
    }
}

/// How long the cited passage may run: 8000 characters unless given, and
/// at least 200.
pub fn render_max_chars(chars: Option<usize>) -> (r: usize)
    ensures
        r == (match chars {
            Some(c) => if c >= 200 { c } else { 200 },
            None => 8000,
        }),
        r >= 200,
{
    match chars {
        Some(c) => if c >= 200 { c } else { 200 },
        None => 8000,
    }
}

/// `s` without its leading slashes.
pub open spec fn trim_leading_slashes(s: Seq<char>) -> Seq<char>
    decreases s.len(),
{
    if s.len() > 0 && s[0] == '/' {
        trim_leading_slashes(s.drop_first())
    } else {
        s
    }
}

/// Trimming leading slashes drops a run of `/` from the front and nothing
/// else: what is left is the rest of the string, and does not begin with
/// `/`.
pub proof fn law_trim_leading_slashes(s: Seq<char>)
    ensures
        trim_leading_slashes(s).len() <= s.len(),
        trim_leading_slashes(s) == s.subrange(s.len() - trim_leading_slashes(s).len(), s.len() as int),
        forall|j: int| 0 <= j < s.len() - trim_leading_slashes(s).len() ==> s[j] == '/',
        trim_leading_slashes(s).len() > 0 ==> trim_leading_slashes(s)[0] != '/',
    decreases s.len(),
{
    if s.len() > 0 && s[0] == '/' {
        law_trim_leading_slashes(s.drop_first());
        let r = trim_leading_slashes(s);
        assert(s.drop_first().subrange(s.len() - 1 - r.len(), s.len() - 1) =~= s.subrange(
            s.len() - r.len(),
            s.len() as int,
        ));
        assert forall|j: int| 0 <= j < s.len() - r.len() implies s[j] == '/' by {
            if j > 0 {
                assert(s.drop_first()[j - 1] == s[j]);
            }
        }
    } else {
        assert(s.subrange(0, s.len() as int) =~= s);
    }
}

/// Whether a path belongs to the API or the socket rather than the assets.
pub open spec fn is_endpoint_path(path: Seq<char>) -> bool {
    has_prefix(path, "/api/"@) || path == "/ws"@
}

/// What a request outside the routes gets.
pub enum StaticRoute {
    /// An API or socket path that no route took.
    NoEndpoint(ApiError),
    /// The asset to serve, by name, falling back to `index.html` where the
    /// build has no such file.
    Asset(String),
}

proof fn lemma_trim_skip(s: Seq<char>, i: int)
    requires
        0 <= i <= s.len(),
        forall|j: int| 0 <= j < i ==> s[j] == '/',
    ensures
        trim_leading_slashes(s) == trim_leading_slashes(s.subrange(i, s.len() as int)),
    decreases i,
{
    if i > 0 {
        lemma_trim_skip(s.drop_first(), i - 1);
        assert(s.drop_first().subrange(i - 1, s.len() - 1) =~= s.subrange(i, s.len() as int));
    } else {
        assert(s.subrange(0, s.len() as int) =~= s);
    }
}

/// Routes a path that no API route took: API and socket paths are not
/// found; anything else names an asset, the bare root naming `index.html`.
pub fn static_route(path: &str) -> (r: StaticRoute)
    ensures
        is_endpoint_path(path@) ==> (r matches StaticRoute::NoEndpoint(e) && e.status == Status::NotFound
            && e.body.error@ == "no such endpoint: "@ + path@),
        !is_endpoint_path(path@) ==> (r matches StaticRoute::Asset(name) && name@ == (if trim_leading_slashes(path@).len() == 0 {
            "index.html"@
        } else {
            trim_leading_slashes(path@)
        })),
{
    if str_starts_with(path, "/api/") || str_equal(path, "/ws") {
        return StaticRoute::NoEndpoint(not_found(joined("no such endpoint: ", path)));
    }
    let n = path.unicode_len();
    let mut i: usize = 0;
    while i < n && path.get_char(i) == '/'
        invariant
            n == path@.len(),
            i <= n,
            forall|j: int| 0 <= j < i ==> path@[j] == '/',
        decreases n - i,
    {
        i = i + 1;
    }
    proof {
        lemma_trim_skip(path@, i as int);
    }
    if i == n {
        StaticRoute::Asset(String::from_str("index.html"))
    } else {
        let name = path.substring_char(i, n);
        StaticRoute::Asset(String::from_str(name))
    }
}

/// How an asset request is answered, given which files the build holds.
pub enum AssetReply {
    /// Serve the requested file.
    Requested,
    /// Serve `index.html` in its place: the browser routes for itself.
    IndexPage,
    /// The frontend was never built.
    NotBuilt { status: Status, message: String },
}

/// The requested file where the build has it, else `index.html`, else a
/// plain-text refusal saying how to build the frontend.
pub fn asset_reply(has_requested: bool, has_index: bool) -> (r: AssetReply)
    ensures
        has_requested ==> r == AssetReply::Requested,
        !has_requested && has_index ==> r == AssetReply::IndexPage,
        !has_requested && !has_index ==> (r matches AssetReply::NotBuilt { status, message } && status
            == Status::ServiceUnavailable && message@
            == "the frontend has not been built — run `npm install && npm run build` in frontend/"@),
{
    if has_requested {
        AssetReply::Requested
    } else if has_index {
        AssetReply::IndexPage
    } else {
        AssetReply::NotBuilt {
            status: Status::ServiceUnavailable,
            message: String::from_str(
                "the frontend has not been built — run `npm install && npm run build` in frontend/",
            ),
        }
    }
}

/// The text after the last `.`, or all of it where there is none.
pub open spec fn after_last_dot(s: Seq<char>) -> Seq<char>
    decreases s.len(),
{
    if s.len() == 0 {
        s
    } else if s.last() == '.' {
        Seq::empty()
    } else {
        after_last_dot(s.drop_last()).push(s.last())
    }
}

/// What follows the last `.` is a suffix of the text that holds no `.`,
/// and the character before it, where there is one, is that `.`.
pub proof fn law_after_last_dot(s: Seq<char>)
    ensures
        after_last_dot(s).len() <= s.len(),
        after_last_dot(s) == s.subrange(s.len() - after_last_dot(s).len(), s.len() as int),
        forall|j: int| 0 <= j < after_last_dot(s).len() ==> after_last_dot(s)[j] != '.',
        after_last_dot(s).len() < s.len() ==> s[s.len() - after_last_dot(s).len() - 1] == '.',
    decreases s.len(),
{
    if s.len() > 0 && s.last() != '.' {
        let d = s.drop_last();
        law_after_last_dot(d);
        let r = after_last_dot(s);
        assert(r == after_last_dot(d).push(s.last()));
        assert(d.subrange(d.len() - after_last_dot(d).len(), d.len() as int).push(s.last()) =~= s.subrange(
            s.len() - r.len(),
            s.len() as int,
        ));
        assert forall|j: int| 0 <= j < r.len() implies r[j] != '.' by {
            if j < r.len() - 1 {
                assert(r[j] == after_last_dot(d)[j]);
            }
        }
        if r.len() < s.len() {
            assert(d[d.len() - after_last_dot(d).len() - 1] == s[s.len() - r.len() - 1]);
        }
    } else if s.len() > 0 {
        assert(s.subrange(s.len() as int, s.len() as int) =~= Seq::<char>::empty());
    } else {
        assert(s.subrange(0, 0) =~= s);
    }
}

/// The content type served for an extension.
pub open spec fn mime_of(ext: Seq<char>) -> Seq<char> {
    if ext == "html"@ {
        "text/html; charset=utf-8"@
    } else if ext == "js"@ || ext == "mjs"@ {
        "text/javascript; charset=utf-8"@
    } else if ext == "css"@ {
        "text/css; charset=utf-8"@
    } else if ext == "json"@ || ext == "map"@ {
        "application/json"@
    } else if ext == "svg"@ {
        "image/svg+xml"@
    } else if ext == "png"@ {
        "image/png"@
    } else if ext == "ico"@ {
        "image/x-icon"@
    } else if ext == "woff2"@ {
        "font/woff2"@
    } else if ext == "wasm"@ {
        "application/wasm"@
    } else {
        "application/octet-stream"@
    }
}

/// The content types by extension: pages, scripts, styles, source maps and
/// JSON, images, fonts and WebAssembly each get their own; anything else is
/// served as raw bytes.
pub proof fn law_mime_of(ext: Seq<char>)
    ensures
        ext == "html"@ ==> mime_of(ext) == "text/html; charset=utf-8"@,
        ext == "js"@ || ext == "mjs"@ ==> mime_of(ext) == "text/javascript; charset=utf-8"@,
        ext == "css"@ ==> mime_of(ext) == "text/css; charset=utf-8"@,
        ext == "json"@ || ext == "map"@ ==> mime_of(ext) == "application/json"@,
        ext == "svg"@ ==> mime_of(ext) == "image/svg+xml"@,
        ext == "png"@ ==> mime_of(ext) == "image/png"@,
        ext == "ico"@ ==> mime_of(ext) == "image/x-icon"@,
        ext == "woff2"@ ==> mime_of(ext) == "font/woff2"@,
        ext == "wasm"@ ==> mime_of(ext) == "application/wasm"@,
        !(ext == "html"@ || ext == "js"@ || ext == "mjs"@ || ext == "css"@ || ext == "json"@ || ext == "map"@
            || ext == "svg"@ || ext == "png"@ || ext == "ico"@ || ext == "woff2"@ || ext == "wasm"@)
            ==> mime_of(ext) == "application/octet-stream"@,
{
    reveal_strlit("html");
    reveal_strlit("js");
    reveal_strlit("mjs");
    reveal_strlit("css");
    reveal_strlit("json");
    reveal_strlit("map");
    reveal_strlit("svg");
    reveal_strlit("png");
    reveal_strlit("ico");
    reveal_strlit("woff2");
    reveal_strlit("wasm");
    assert("html"@.len() == 4 && "html"@[0] == 'h' && "html"@[1] == 't');
    assert("js"@.len() == 2 && "js"@[0] == 'j' && "js"@[1] == 's');
    assert("mjs"@.len() == 3 && "mjs"@[0] == 'm' && "mjs"@[1] == 'j');
    assert("css"@.len() == 3 && "css"@[0] == 'c' && "css"@[1] == 's');
    assert("json"@.len() == 4 && "json"@[0] == 'j' && "json"@[1] == 's');
    assert("map"@.len() == 3 && "map"@[0] == 'm' && "map"@[1] == 'a');
    assert("svg"@.len() == 3 && "svg"@[0] == 's' && "svg"@[1] == 'v');
    assert("png"@.len() == 3 && "png"@[0] == 'p' && "png"@[1] == 'n');
    assert("ico"@.len() == 3 && "ico"@[0] == 'i' && "ico"@[1] == 'c');
    assert("woff2"@.len() == 5 && "woff2"@[0] == 'w' && "woff2"@[1] == 'o');
    assert("wasm"@.len() == 4 && "wasm"@[0] == 'w' && "wasm"@[1] == 'a');
}

/// The content type for an asset, by the text after its last `.`.
pub fn mime_for(name: &str) -> (r: &'static str)
    ensures
        r@ == mime_of(after_last_dot(name@)),
        after_last_dot(name@) == "html"@ ==> r@ == "text/html; charset=utf-8"@,
        after_last_dot(name@) == "js"@ || after_last_dot(name@) == "mjs"@ ==> r@
            == "text/javascript; charset=utf-8"@,
        after_last_dot(name@) == "css"@ ==> r@ == "text/css; charset=utf-8"@,
        after_last_dot(name@) == "json"@ || after_last_dot(name@) == "map"@ ==> r@ == "application/json"@,
        after_last_dot(name@) == "svg"@ ==> r@ == "image/svg+xml"@,
        after_last_dot(name@) == "png"@ ==> r@ == "image/png"@,
        after_last_dot(name@) == "ico"@ ==> r@ == "image/x-icon"@,
        after_last_dot(name@) == "woff2"@ ==> r@ == "font/woff2"@,
        after_last_dot(name@) == "wasm"@ ==> r@ == "application/wasm"@,
        !(after_last_dot(name@) == "html"@ || after_last_dot(name@) == "js"@ || after_last_dot(name@) == "mjs"@
            || after_last_dot(name@) == "css"@ || after_last_dot(name@) == "json"@ || after_last_dot(name@)
            == "map"@ || after_last_dot(name@) == "svg"@ || after_last_dot(name@) == "png"@ || after_last_dot(
            name@,
        ) == "ico"@ || after_last_dot(name@) == "woff2"@ || after_last_dot(name@) == "wasm"@) ==> r@
            == "application/octet-stream"@,
{
    let n = name.unicode_len();
    let mut j: usize = n;
    proof {
        assert(name@.subrange(0, n as int) =~= name@);
        assert(name@.subrange(n as int, n as int) =~= Seq::<char>::empty());
    }
    while j > 0 && name.get_char(j - 1) != '.'
        invariant
            n == name@.len(),
            j <= n,
            after_last_dot(name@) == after_last_dot(name@.subrange(0, j as int)) + name@.subrange(
                j as int,
                n as int,
            ),
        decreases j,
    {
        proof {
            let pre = name@.subrange(0, j as int);
            assert(pre.drop_last() =~= name@.subrange(0, j - 1));
            assert(pre.last() == name@[j - 1]);
            assert(after_last_dot(pre.drop_last()).push(pre.last()) + name@.subrange(j as int, n as int)
                =~= after_last_dot(pre.drop_last()) + name@.subrange(j - 1, n as int));
        }
        j = j - 1;
    }
    proof {
        if j == 0 {
            assert(name@.subrange(0, 0) =~= Seq::<char>::empty());
            assert(after_last_dot(name@) =~= name@.subrange(0, n as int));
        } else {
            assert(name@.subrange(0, j as int).last() == '.');
            assert(after_last_dot(name@) =~= name@.subrange(j as int, n as int));
        }
    }
    let ext = name.substring_char(j, n);
    proof {
        law_mime_of(after_last_dot(name@));
    }
    if str_equal(ext, "html") {
        "text/html; charset=utf-8"
    } else if str_equal(ext, "js") || str_equal(ext, "mjs") {
        "text/javascript; charset=utf-8"
    } else if str_equal(ext, "css") {
        "text/css; charset=utf-8"
    } else if str_equal(ext, "json") || str_equal(ext, "map") {
        "application/json"
    } else if str_equal(ext, "svg") {
        "image/svg+xml"
    } else if str_equal(ext, "png") {
        "image/png"
    } else if str_equal(ext, "ico") {
        "image/x-icon"
    } else if str_equal(ext, "woff2") {
        "font/woff2"
    } else if str_equal(ext, "wasm") {
        "application/wasm"
    } else {
        "application/octet-stream"
    }
}

} // verus!
