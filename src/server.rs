//! Request handling of the static file server: which file a request asks for,
//! which reply a read outcome calls for, and how a reply is framed.
use vstd::prelude::*;
use vstd::string::*;
use vstd::utf8::encode_utf8;
use crate::text::{decimal, decimal_text, same_text};
use crate::render::history_path_spec;
use crate::service::page_name_spec;

verus! {

/// Unicode white space, as `char::is_whitespace` defines it.
pub open spec fn is_ws(c: char) -> bool {
    let u = c as u32;
    (0x9 <= u && u <= 0xd) || u == 0x20 || u == 0x85 || u == 0xa0 || u == 0x1680
        || (0x2000 <= u && u <= 0x200a) || u == 0x2028 || u == 0x2029 || u == 0x202f
        || u == 0x205f || u == 0x3000
}

/// Index of the first line feed at or after `i`, or the length.
pub open spec fn line_end(s: Seq<char>, i: int) -> int
    decreases s.len() - i,
{
    if i >= s.len() {
        s.len() as int
    } else if s[i] == '\n' {
        i
    } else {
        line_end(s, i + 1)
    }
}

/// Index of the first non-space at or after `i`, before `end` (else `end`).
pub open spec fn skip_ws(s: Seq<char>, i: int, end: int) -> int
    decreases end - i,
{
    if i >= end {
        end
    } else if is_ws(s[i]) {
        skip_ws(s, i + 1, end)
    } else {
        i
    }
}

/// Index of the first space at or after `i`, before `end` (else `end`).
pub open spec fn skip_word(s: Seq<char>, i: int, end: int) -> int
    decreases end - i,
{
    if i >= end {
        end
    } else if !is_ws(s[i]) {
        skip_word(s, i + 1, end)
    } else {
        i
    }
}

/// A `..` segment occurs in `p`.
pub open spec fn has_parent_segment(p: Seq<char>) -> bool {
    exists|i: int|
        0 <= i && i + 1 < p.len() && #[trigger] p[i] == '.' && p[i + 1] == '.' && (i == 0 || p[i - 1] == '/') && (
        i + 2 == p.len() || p[i + 2] == '/')
}

/// A path that starts with `/` but cannot stay inside the output directory: a
/// second `/` right after the first (the rest would be an absolute path), or a
/// `..` segment.
pub open spec fn escapes_root(p: Seq<char>) -> bool {
    (p.len() > 1 && p[1] == '/') || has_parent_segment(p)
}

/// What a request asks of the server.
pub enum Route {
    /// Serve this file, relative to the output directory.
    File(Seq<char>),
    BadRequest,
    MethodNotAllowed,
}

/// What the first line of `req` asks for: its first word is the method and its
/// second the path. No method, or a GET without a path that starts with `/` and
/// stays inside the output directory, is a bad request; another method is not allowed;
/// `/` names `index.html`, and any other path the file under it.
pub open spec fn route(req: Seq<char>) -> Route {
    let e = line_end(req, 0);
    let m0 = skip_ws(req, 0, e);
    let m1 = skip_word(req, m0, e);
    let p0 = skip_ws(req, m1, e);
    let p1 = skip_word(req, p0, e);
    let path = req.subrange(p0, p1);
    if m0 == e {
        Route::BadRequest
    } else if req.subrange(m0, m1) != "GET"@ {
        Route::MethodNotAllowed
    } else if p0 == e || path[0] != '/' || escapes_root(path) {
        Route::BadRequest
    } else if path == "/"@ {
        Route::File("index.html"@)
    } else {
        Route::File(path.drop_first())
    }
}

/// Lemma: `skip_word` stops at the first space after a run of non-space.
proof fn lemma_skip_word_run(s: Seq<char>, i: int, j: int, end: int)
    requires
        0 <= i <= j <= end <= s.len(),
        forall|k: int| i <= k < j ==> !is_ws(#[trigger] s[k]),
        j == end || is_ws(s[j]),
    ensures
        skip_word(s, i, end) == j,
    decreases j - i,
{
    if i < j {
        lemma_skip_word_run(s, i + 1, j, end);
    }
}

/// Lemma: `skip_ws` stops at the first non-space after a run of space.
proof fn lemma_skip_ws_run(s: Seq<char>, i: int, j: int, end: int)
    requires
        0 <= i <= j <= end <= s.len(),
        forall|k: int| i <= k < j ==> is_ws(#[trigger] s[k]),
        j == end || !is_ws(s[j]),
    ensures
        skip_ws(s, i, end) == j,
    decreases j - i,
{
    if i < j {
        lemma_skip_ws_run(s, i + 1, j, end);
    }
}

/// Lemma: the line runs at least up to `j` when no line feed comes before it.
proof fn lemma_line_end_past(s: Seq<char>, i: int, j: int)
    requires
        0 <= i <= j <= s.len(),
        forall|k: int| i <= k < j ==> #[trigger] s[k] != '\n',
    ensures
        j <= line_end(s, i) <= s.len(),
    decreases s.len() - i,
{
    if i < s.len() && s[i] != '\n' {
        if i < j {
            lemma_line_end_past(s, i + 1, j);
        } else {
            lemma_line_end_past(s, i + 1, i + 1);
        }
    }
}

/// A GET of a path that starts with `/`, holds no white space and stays inside
/// the output directory asks for that file, whatever follows the path on the
/// line: `index.html` for `/`, else the path without its leading `/`.
pub proof fn lemma_route_get(p: Seq<char>, rest: Seq<char>)
    requires
        p.len() > 0,
        p[0] == '/',
        forall|k: int| 0 <= k < p.len() ==> !is_ws(#[trigger] p[k]),
        !escapes_root(p),
        rest.len() == 0 || is_ws(rest[0]),
    ensures
        route("GET "@ + p + rest) == if p == "/"@ {
            Route::File("index.html"@)
        } else {
            Route::File(p.drop_first())
        },
{
    reveal_strlit("GET ");
    reveal_strlit("GET");
    let req = "GET "@ + p + rest;
    let q: int = 4 + p.len() as int;
    assert(req[0] == 'G' && req[1] == 'E' && req[2] == 'T' && req[3] == ' ');
    assert forall|k: int| 0 <= k < p.len() implies req[4 + k] == #[trigger] p[k] by {}
    assert forall|k: int| 0 <= k < q implies #[trigger] req[k] != '\n' by {
        if k >= 4 {
            assert(req[k] == p[k - 4]);
            assert(!is_ws(p[k - 4]));
        }
    }
    lemma_line_end_past(req, 0, q);
    let e = line_end(req, 0);
    if q < e {
        assert(req[q] == rest[0]);
    }
    lemma_skip_ws_run(req, 0, 0, e);
    assert forall|k: int| 0 <= k < 3 implies !is_ws(#[trigger] req[k]) by {}
    lemma_skip_word_run(req, 0, 3, e);
    assert forall|k: int| 3 <= k < 4 implies is_ws(#[trigger] req[k]) by {}
    assert(!is_ws(req[4]));
    lemma_skip_ws_run(req, 3, 4, e);
    assert forall|k: int| 4 <= k < q implies !is_ws(#[trigger] req[k]) by {
        assert(req[k] == p[k - 4]);
    }
    lemma_skip_word_run(req, 4, q, e);
    assert(req.subrange(0, 3) =~= "GET"@);
    assert(req.subrange(4, q) =~= p);
}

/// The history page of a service is reachable through the file server: for a
/// name without `/` whose only white space is plain spaces, a GET of `/`
/// followed by the page's path asks for exactly that page.
pub proof fn lemma_history_page_routes(name: Seq<char>)
    requires
        forall|k: int| 0 <= k < name.len() ==> #[trigger] name[k] != '/' && (name[k] == ' ' || !is_ws(name[k])),
    ensures
        route("GET /"@ + history_path_spec(name) + " HTTP/1.1"@) == Route::File(history_path_spec(name)),
{
    reveal_strlit("GET /");
    reveal_strlit("GET ");
    reveal_strlit("/");
    reveal_strlit("history/");
    reveal_strlit(".html");
    reveal_strlit(" HTTP/1.1");
    let pn = page_name_spec(name);
    let hp = history_path_spec(name);
    let p = "/"@ + hp;
    let n: int = p.len() as int;
    assert(hp =~= "history/"@ + pn + ".html"@);
    assert(n == 14 + pn.len());
    assert forall|k: int| 0 <= k < pn.len() implies #[trigger] pn[k] != '/' && !is_ws(pn[k]) by {
        assert(name[k] != '/');
    }
    assert(p[0] == '/' && p[1] == 'h' && p[2] == 'i' && p[8] == '/');
    assert forall|k: int| 9 <= k < n implies #[trigger] p[k] != '/' && !is_ws(p[k]) by {
        if k < 9 + pn.len() {
            assert(p[k] == pn[k - 9]);
        } else {
            assert(p[k] == ".html"@[k - 9 - pn.len()]);
        }
    }
    assert forall|k: int| 0 <= k < n implies !is_ws(#[trigger] p[k]) by {
        if k >= 9 {
            assert(p[k] != '/' && !is_ws(p[k]));
        }
    }
    assert(p[n - 5] == '.' && p[n - 4] == 'h');
    assert(!has_parent_segment(p)) by {
        if has_parent_segment(p) {
            let i = choose|i: int|
                0 <= i && i + 1 < p.len() && #[trigger] p[i] == '.' && p[i + 1] == '.' && (i == 0 || p[i - 1] == '/')
                    && (i + 2 == p.len() || p[i + 2] == '/');
            assert(i >= 1);
            if i - 1 >= 9 {
                assert(p[i - 1] != '/');
            } else if i != 9 {
                assert(1 <= i <= 8);
            } else {
                assert(i + 2 < n);
                assert(p[i + 2] != '/');
            }
        }
    }
    assert(!escapes_root(p));
    assert(" HTTP/1.1"@[0] == ' ');
    lemma_route_get(p, " HTTP/1.1"@);
    assert("GET /"@ + hp + " HTTP/1.1"@ =~= "GET "@ + p + " HTTP/1.1"@);
    assert(p != "/"@);
    assert(p.drop_first() =~= hp);
}

/// The status of a reply.
#[derive(Debug, Clone, Copy, PartialEq, Eq, Structural)]
pub enum Status {
    Success,
    BadRequest,
    NotFound,
    MethodNotAllowed,
    InternalError,
}

/// A reply: a status and a body.
pub struct Response {
    pub status: Status,
    pub body: String,
}

/// Which file is being read on behalf of a request.
#[derive(Debug, Clone, Copy, PartialEq, Eq, Structural)]
pub enum Phase {
    /// The file that the request named.
    Requested,
    /// The site's own `404.html`.
    NotFoundPage,
}

/// How reading a file went.
pub enum ReadOutcome {
    Found(String),
    NotFound,
    Failed,
}

/// The next thing to do for a request.
pub enum Step {
    /// Read `path` under the output directory, then call `after_read` with `phase`.
    Read { path: String, phase: Phase },
    /// Send this reply.
    Respond(Response),
}

/// The literal body sent with each status when no file supplies one.
pub open spec fn fallback_body(s: Status) -> Seq<char> {
    match s {
        Status::Success => "200 OK"@,
        Status::BadRequest => "400 Bad Request"@,
        Status::NotFound => "404 Not Found"@,
        Status::MethodNotAllowed => "405 Method Not Allowed"@,
        Status::InternalError => "500 Internal Server Error"@,
    }
}

/// The status line of each status.
pub open spec fn status_line(s: Status) -> Seq<char> {
    match s {
        Status::Success => "HTTP/1.1 200 OK"@,
        Status::BadRequest => "HTTP/1.1 400 BAD REQUEST"@,
        Status::NotFound => "HTTP/1.1 404 NOT FOUND"@,
        Status::MethodNotAllowed => "HTTP/1.1 405 METHOD NOT ALLOWED"@,
        Status::InternalError => "HTTP/1.1 500 INTERNAL SERVER ERROR"@,
    }
}

/// Length of `body` in UTF-8 bytes, as `str::len` reports it (a string held in
/// memory never has more bytes than `usize` counts).
pub open spec fn byte_len(body: Seq<char>) -> nat {
    (encode_utf8(body).len() as usize) as nat
}

/// The response as sent: status line, a `Content-Length` equal to the body's
/// length in UTF-8 bytes, a blank line, then the body.
pub open spec fn framed(status: Status, body: Seq<char>) -> Seq<char> {
    status_line(status) + "\r\nContent-Length: "@ + decimal(byte_len(body)) + "\r\n\r\n"@ + body
}

/// The step that `route` calls for.
pub open spec fn step_spec(s: Step, r: Route) -> bool {
    match r {
        Route::File(p) => s matches Step::Read { path, phase } && path@ == p && phase == Phase::Requested,
        Route::BadRequest => s matches Step::Respond(resp) && resp.status == Status::BadRequest
            && resp.body@ == fallback_body(Status::BadRequest),
        Route::MethodNotAllowed => s matches Step::Respond(resp) && resp.status == Status::MethodNotAllowed
            && resp.body@ == fallback_body(Status::MethodNotAllowed),
    }
}

/// The step that follows reading a file in `phase` with outcome `o`.
pub open spec fn after_read_spec(phase: Phase, o: ReadOutcome, s: Step) -> bool {
    match (phase, o) {
        (Phase::Requested, ReadOutcome::Found(c)) => s matches Step::Respond(resp) && resp.status == Status::Success
            && resp.body == c,
        (Phase::Requested, ReadOutcome::NotFound) => s matches Step::Read { path, phase }
            && path@ == "404.html"@ && phase == Phase::NotFoundPage,
        (Phase::Requested, ReadOutcome::Failed) => s matches Step::Respond(resp) && resp.status
            == Status::InternalError && resp.body@ == fallback_body(Status::InternalError),
        (Phase::NotFoundPage, ReadOutcome::Found(c)) => s matches Step::Respond(resp) && resp.status
            == Status::NotFound && resp.body == c,
        (Phase::NotFoundPage, _) => s matches Step::Respond(resp) && resp.status == Status::NotFound
            && resp.body@ == fallback_body(Status::NotFound),
    }
}

/// The first character at or after `i`, before `end`, that is (`space`) or is not
/// (`!space`) white space; `end` if there is none.
fn scan(s: &str, i: usize, end: usize, space: bool) -> (r: usize)
    requires
        i <= end <= s@.len(),
    ensures
        space ==> r == skip_word(s@, i as int, end as int),
        !space ==> r == skip_ws(s@, i as int, end as int),
        i <= r <= end,
        r < end ==> is_ws(s@[r as int]) == space,
        forall|j: int| i <= j < r ==> is_ws(#[trigger] s@[j]) != space,
{
    let mut k = i;
    while k < end
        invariant
            i <= k <= end,
            end <= s@.len(),
            forall|j: int| i <= j < k ==> is_ws(#[trigger] s@[j]) != space,
            space ==> skip_word(s@, k as int, end as int) == skip_word(s@, i as int, end as int),
            !space ==> skip_ws(s@, k as int, end as int) == skip_ws(s@, i as int, end as int),
        decreases end - k,
    {
        let c = s.get_char(k);
        if is_white(c) == space {
            return k;
        }
        k += 1;
    }
    k
}

/// Whether `c` is white space.
fn is_white(c: char) -> (r: bool)
    ensures
        r == is_ws(c),
{
    let u = c as u32;
    (0x9 <= u && u <= 0xd) || u == 0x20 || u == 0x85 || u == 0xa0 || u == 0x1680
        || (0x2000 <= u && u <= 0x200a) || u == 0x2028 || u == 0x2029 || u == 0x202f
        || u == 0x205f || u == 0x3000
}

/// Index of the first line feed in `s`, or its length.
fn first_line_end(s: &str) -> (r: usize)
    ensures
        r == line_end(s@, 0),
        r <= s@.len(),
{
    let n = s.unicode_len();
    let mut k: usize = 0;
    while k < n
        invariant
            n == s@.len(),
            k <= n,
            line_end(s@, k as int) == line_end(s@, 0),
        decreases n - k,
    {
        if s.get_char(k) == '\n' {
            return k;
        }
        k += 1;
    }
    k
}

/// Whether `p` holds a `..` segment.
fn parent_segment(p: &str) -> (r: bool)
    ensures
        r == has_parent_segment(p@),
{
    let n = p.unicode_len();
    let mut i: usize = 0;
    while n > 1 && i < n - 1
        invariant
            n == p@.len(),
            i <= n,
            forall|j: int|
                0 <= j < i && j + 1 < p@.len() ==> !(#[trigger] p@[j] == '.' && p@[j + 1] == '.' && (j == 0 || p@[j - 1]
                    == '/') && (j + 2 == p@.len() || p@[j + 2] == '/')),
        decreases n - i,
    {
        if p.get_char(i) == '.' && p.get_char(i + 1) == '.' && (i == 0 || p.get_char(i - 1) == '/') && (i + 2 == n
            || p.get_char(i + 2) == '/') {
            return true;
        }
        i += 1;
    }
    false
}

/// The first step for the request text `req`: which file to read, or the reply.
pub fn start_request(req: &str) -> (r: Step)
    ensures
        step_spec(r, route(req@)),
{
    let e = first_line_end(req);
    let m0 = scan(req, 0, e, false);
    let m1 = scan(req, m0, e, true);
    let p0 = scan(req, m1, e, false);
    let p1 = scan(req, p0, e, true);
    proof {
        reveal_strlit("GET");
        reveal_strlit("/");
        reveal_strlit("index.html");
    }
    if m0 == e {
        return Step::Respond(Response { status: Status::BadRequest, body: String::from_str("400 Bad Request") });
    }
    let method = req.substring_char(m0, m1);
    if !same_text(method, "GET") {
        return Step::Respond(
            Response { status: Status::MethodNotAllowed, body: String::from_str("405 Method Not Allowed") },
        );
    }
    if p0 == e {
        return Step::Respond(Response { status: Status::BadRequest, body: String::from_str("400 Bad Request") });
    }
    let path = req.substring_char(p0, p1);
    assert(!is_ws(req@[p0 as int]));
    assert(p1 > p0);
    if path.get_char(0) != '/' || (path.unicode_len() > 1 && path.get_char(1) == '/') || parent_segment(path) {
        return Step::Respond(Response { status: Status::BadRequest, body: String::from_str("400 Bad Request") });
    }
    if path.unicode_len() == 1 {
        assert(path@ =~= "/"@);
        Step::Read { path: String::from_str("index.html"), phase: Phase::Requested }
    } else {
        assert(path@ != "/"@);
        let n = path.unicode_len();
        Step::Read { path: String::from_str(path.substring_char(1, n)), phase: Phase::Requested }
    }
}

/// The step that follows reading a file in `phase` with outcome `outcome`.
pub fn after_read(phase: Phase, outcome: ReadOutcome) -> (r: Step)
    ensures
        after_read_spec(phase, outcome, r),
{
    match phase {
        Phase::Requested => match outcome {
            ReadOutcome::Found(c) => Step::Respond(Response { status: Status::Success, body: c }),
            ReadOutcome::NotFound => Step::Read { path: String::from_str("404.html"), phase: Phase::NotFoundPage },
            ReadOutcome::Failed => Step::Respond(
                Response { status: Status::InternalError, body: String::from_str("500 Internal Server Error") },
            ),
        },
        Phase::NotFoundPage => match outcome {
            ReadOutcome::Found(c) => Step::Respond(Response { status: Status::NotFound, body: c }),
            _ => Step::Respond(Response { status: Status::NotFound, body: String::from_str("404 Not Found") }),
        },
    }
}

/// The status line of `s`.
fn status_text(s: Status) -> (r: &'static str)
    ensures
        r@ == status_line(s),
{
    match s {
        Status::Success => "HTTP/1.1 200 OK",
        Status::BadRequest => "HTTP/1.1 400 BAD REQUEST",
        Status::NotFound => "HTTP/1.1 404 NOT FOUND",
        Status::MethodNotAllowed => "HTTP/1.1 405 METHOD NOT ALLOWED",
        Status::InternalError => "HTTP/1.1 500 INTERNAL SERVER ERROR",
    }
}

impl Response {
    /// The response as sent on the wire.
    pub fn encode(&self) -> (r: String)
        ensures
            r@ == framed(self.status, self.body@),
    {
        let len = self.body.as_str().len();
        let mut r = String::from_str(status_text(self.status));
        r.append("\r\nContent-Length: ");
        let digits = decimal_text(len);
        r.append(digits.as_str());
        r.append("\r\n\r\n");
        r.append(self.body.as_str());
        r
    }
}

} // verus!
