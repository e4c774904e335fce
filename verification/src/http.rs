//! The job server's HTTP protocol: reading a request, routing it, and the replies
//! of the dashboard, the upload form, the JSON API and the agent endpoints.
//!
//! The socket, the files and the clock stay with the caller; every decision on a
//! request is made here.
use vstd::prelude::*;
use vstd::utf8::{decode_utf8, encode_scalar, encode_utf8, valid_utf8};

use crate::text::{
    chars_of, ends_with, matches_at, ends_with_exec, find, find_char, find_exec, lemma_find_from_facts,
    matches_at_exec, split_whitespace, starts_with, starts_with_exec, str_eq, string_of,
    string_of_range, tokens, trim_end_str, trim_start_str, spec_decimal, decimal, owned, push_str,
    push_char, ascii_lower, ascii_lowercase, trim_ws, trim_bounds, same_text, spec_is_alphanumeric, is_ascii_alphanumeric,
    is_alphanumeric, trim_string, trim_start_ws, is_whitespace, is_ascii_digit,
};
use crate::machine::{
    Job, JobView, MachineState, MachineStateView, spec_agent_error, spec_complete_job,
    spec_queue_upload, spec_sensor_read, status_name,
};

verus! {

// ───────────────────────────── UTF-8 decoding ─────────────────────────────

/// The text that `String::from_utf8_lossy` makes of a byte sequence.
pub uninterp spec fn spec_lossy_utf8(bytes: Seq<u8>) -> Seq<char>;

/// `String::from_utf8_lossy`: the bytes as text, each invalid sequence replaced by U+FFFD.
/// Its result is named by `spec_lossy_utf8`; valid UTF-8 comes back decoded unchanged.
#[verifier::external_body]
pub(crate) fn lossy_utf8(bytes: &[u8]) -> (s: String)
    ensures
        s@ == spec_lossy_utf8(bytes@),
        valid_utf8(bytes@) ==> s@ == decode_utf8(bytes@),
{
    String::from_utf8_lossy(bytes).into_owned()
}

/// `std::str::from_utf8`: the bytes as text when they are valid UTF-8.
#[verifier::external_body]
pub(crate) fn utf8_text(bytes: &[u8]) -> (r: Option<String>)
    ensures
        r is Some <==> valid_utf8(bytes@),
        r matches Some(s) ==> s@ == decode_utf8(bytes@),
{
    match std::str::from_utf8(bytes) {
        Ok(s) => Some(s.to_string()),
        Err(_) => None,
    }
}

/// The number of bytes of the UTF-8 encoding of `s`.
pub open spec fn utf8_len(s: Seq<char>) -> nat {
    encode_utf8(s).len()
}

pub proof fn lemma_encode_utf8_append(a: Seq<char>, b: Seq<char>)
    ensures
        encode_utf8(a + b) == encode_utf8(a) + encode_utf8(b),
    decreases a.len(),
{
    if a.len() == 0 {
        assert(a + b =~= b);
        assert(encode_utf8(a) =~= Seq::<u8>::empty());
        assert(Seq::<u8>::empty() + encode_utf8(b) =~= encode_utf8(b));
    } else {
        assert((a + b).drop_first() =~= a.drop_first() + b);
        lemma_encode_utf8_append(a.drop_first(), b);
        assert((a + b)[0] == a[0]);
    }
}

/// The number of UTF-8 bytes of one character.
pub fn char_utf8_width(c: char) -> (w: usize)
    ensures
        w == encode_scalar(c as u32).len(),
        1 <= w <= 4,
{
    proof {
        vstd::utf8::char_is_scalar(c);
    }
    let u = c as u32;
    if u <= 0x7F {
        1
    } else if u <= 0x7FF {
        2
    } else if u <= 0xFFFF {
        3
    } else {
        4
    }
}

proof fn lemma_utf8_len_push(s: Seq<char>, c: char)
    ensures
        utf8_len(s.push(c)) == utf8_len(s) + encode_scalar(c as u32).len(),
{
    lemma_encode_utf8_append(s, seq![c]);
    assert(s.push(c) =~= s + seq![c]);
    assert(seq![c].drop_first() =~= Seq::<char>::empty());
    assert(encode_utf8(seq![c]) =~= encode_scalar(c as u32) + encode_utf8(Seq::<char>::empty()));
}

// ───────────────────────────── request layout ─────────────────────────────

/// The blank line that ends the header block.
pub open spec fn header_terminator() -> Seq<char> {
    seq!['\r', '\n', '\r', '\n']
}

/// The first `i >= from` for which the first `i` characters of `t` take `n` bytes,
/// `None` when no prefix takes exactly `n` bytes.
pub open spec fn chars_for_bytes(t: Seq<char>, n: nat, from: int) -> Option<int>
    decreases t.len() + 1 - from,
{
    if from < 0 || from > t.len() {
        None
    } else if utf8_len(t.take(from)) == n {
        Some(from)
    } else if utf8_len(t.take(from)) > n {
        None
    } else {
        chars_for_bytes(t, n, from + 1)
    }
}

/// The header block and the body of a raw request, as the server cuts them.
///
/// The request is read as lossy UTF-8; the header block runs up to the first blank
/// line, the body starts four bytes after it (the same byte offset is applied to the
/// raw bytes).  Without a blank line the whole request is the header block and the
/// body is empty; that cut falls inside a character when the raw bytes are not
/// valid UTF-8, and then there is no result (the server gives up on the connection).
pub open spec fn request_split(buf: Seq<u8>) -> Option<(Seq<char>, Seq<u8>)> {
    let t = spec_lossy_utf8(buf);
    match find(t, header_terminator()) {
        Some(k) => {
            let off = utf8_len(t.take(k)) as int + 4;
            let start = if off < buf.len() { off } else { buf.len() as int };
            Some((t.take(k), buf.skip(start)))
        },
        None => match chars_for_bytes(t, buf.len(), 0) {
            Some(k) => Some((t.take(k), Seq::empty())),
            None => None,
        },
    }
}

/// A line without the carriage return that ends it.
pub open spec fn strip_cr(l: Seq<char>) -> Seq<char> {
    if l.len() > 0 && l.last() == '\r' {
        l.drop_last()
    } else {
        l
    }
}

/// The lines of `s` (`str::lines`): split at `\n`, one `\r` before each `\n` dropped,
/// no empty line after a final line ending.
pub open spec fn spec_lines(s: Seq<char>) -> Seq<Seq<char>>
    decreases s.len(),
{
    if s.len() == 0 {
        Seq::empty()
    } else {
        match find_char(s, '\n') {
            Some(j) => {
                proof {
                    lemma_find_from_facts(s, seq!['\n'], 0);
                }
                seq![strip_cr(s.take(j))] + spec_lines(s.skip(j + 1))
            },
            None => seq![s],
        }
    }
}

/// The first line of the header block, the empty text when there is none.
pub open spec fn request_line(head: Seq<char>) -> Seq<char> {
    if spec_lines(head).len() > 0 {
        spec_lines(head)[0]
    } else {
        Seq::empty()
    }
}

/// The method: the first word of the request line, empty when there is none.
pub open spec fn spec_method(head: Seq<char>) -> Seq<char> {
    if tokens(request_line(head)).len() > 0 {
        tokens(request_line(head))[0]
    } else {
        Seq::empty()
    }
}

/// The path: the second word of the request line, `/` when there is none.
pub open spec fn spec_path(head: Seq<char>) -> Seq<char> {
    if tokens(request_line(head)).len() > 1 {
        tokens(request_line(head))[1]
    } else {
        "/"@
    }
}

/// A request as the server reads it.
pub struct Request {
    pub method: String,
    pub path: String,
    /// The lines of the header block, the request line first.
    pub lines: Vec<String>,
    pub body: Vec<u8>,
}

/// The lines of a request, by their text.
pub open spec fn lines_view(lines: Seq<String>) -> Seq<Seq<char>> {
    lines.map_values(|l: String| l@)
}

/// `r` is the request read from the header block `head` and the body `body`.
pub open spec fn request_of(r: Request, head: Seq<char>, body: Seq<u8>) -> bool {
    &&& r.method@ == spec_method(head)
    &&& r.path@ == spec_path(head)
    &&& lines_view(r.lines@) == spec_lines(head)
    &&& r.body@ == body
}

/// The lines of `v`.
pub fn lines_of(v: &[char]) -> (r: Vec<String>)
    ensures
        lines_view(r@) == spec_lines(v@),
{
    let mut r: Vec<String> = Vec::new();
    let ghost mut done: Seq<Seq<char>> = Seq::empty();
    let mut i: usize = 0;
    let nl = ['\n'];
    assert(nl@ =~= seq!['\n']);
    assert(v@.skip(0) =~= v@);
    while i < v.len()
        invariant
            0 <= i <= v@.len(),
            nl@ == seq!['\n'],
            lines_view(r@) == done,
            spec_lines(v@) == done + spec_lines(v@.skip(i as int)),
        decreases v.len() - i,
    {
        let ghost rest = v@.skip(i as int);
        let found = crate::text::find_from_exec(v, &nl, i);
        proof {
            crate::updater::lemma_find_shift(v@, seq!['\n'], i as int);
            lemma_find_from_facts(v@, seq!['\n'], i as int);
        }
        match found {
            Some(j) => {
                let end = if j > i && v[j - 1] == '\r' { j - 1 } else { j };
                let line = string_of_range(v, i, end);
                proof {
                    let l = rest.take(j - i);
                    assert(l =~= v@.subrange(i as int, j as int));
                    if j > i && v@[j - 1] == '\r' {
                        assert(strip_cr(l) =~= v@.subrange(i as int, end as int));
                    } else {
                        assert(strip_cr(l) =~= v@.subrange(i as int, end as int));
                    }
                    assert(rest.skip(j - i + 1) =~= v@.skip(j + 1));
                }
                r.push(line);
                proof {
                    done = done.push(v@.subrange(i as int, end as int));
                    assert(lines_view(r@) =~= done);
                    assert(spec_lines(v@) =~= done + spec_lines(v@.skip(j + 1)));
                }
                i = j + 1;
            },
            None => {
                let line = string_of_range(v, i, v.len());
                r.push(line);
                proof {
                    assert(rest =~= v@.subrange(i as int, v@.len() as int));
                    done = done.push(rest);
                    assert(lines_view(r@) =~= done);
                    assert(v@.skip(v@.len() as int) =~= Seq::<char>::empty());
                    assert(spec_lines(v@) =~= done + spec_lines(v@.skip(v@.len() as int)));
                }
                i = v.len();
            },
        }
    }
    assert(v@.skip(i as int) =~= Seq::<char>::empty());
    assert(done + Seq::<Seq<char>>::empty() =~= done);
    r
}

/// Read a raw request: its method, path, header lines and body.
///
/// Returns `None` exactly when the request has no blank line and its bytes cannot be
/// cut at their full length inside the decoded text, which is where the server gives up.
pub fn parse_request(buf: &[u8]) -> (r: Option<Request>)
    ensures
        match request_split(buf@) {
            Some((head, body)) => r matches Some(req) && request_of(req, head, body),
            None => r is None,
        },
{
    let text = lossy_utf8(buf);
    let t = chars_of(text.as_str());
    let term = ['\r', '\n', '\r', '\n'];
    assert(term@ =~= header_terminator());
    let found = find_exec(&t, &term);
    // The number of characters of the header block and the byte offset where the body starts.
    let (head_chars, body_start) = match found {
        Some(k) => {
            proof {
                lemma_find_from_facts(t@, header_terminator(), 0);
            }
            let off = utf8_prefix_len(&t, k);
            let n = buf.len() as u128;
            let start = if off < n && n - off > 4 {
                (off + 4) as usize
            } else {
                buf.len()
            };
            (k, start)
        },
        None => {
            match prefix_for_bytes(&t, buf.len()) {
                Some(k) => (k, buf.len()),
                None => {
                    return None;
                },
            }
        },
    };
    let method_line;
    let head = prefix(&t, head_chars);
    let lines = lines_of(&head);
    if lines.len() > 0 {
        method_line = chars_of(lines[0].as_str());
    } else {
        method_line = Vec::new();
    }
    let words = split_whitespace(&method_line);
    let method = if words.len() > 0 {
        crate::text::owned(words[0].as_str())
    } else {
        String::new()
    };
    let path = if words.len() > 1 {
        crate::text::owned(words[1].as_str())
    } else {
        crate::text::owned("/")
    };
    let body = copy_from(buf, body_start);
    let ghost hd = t@.take(head_chars as int);
    assert(head@ == hd);
    assert(method_line@ == request_line(hd));
    assert(method@ == spec_method(hd));
    assert(path@ == spec_path(hd));
    assert(request_split(buf@) == Some((hd, body@)));
    Some(Request { method, path, lines, body })
}

/// The characters `v[..k]`.
fn prefix(v: &[char], k: usize) -> (r: Vec<char>)
    requires
        k <= v@.len(),
    ensures
        r@ == v@.take(k as int),
{
    let mut r: Vec<char> = Vec::new();
    let mut i: usize = 0;
    while i < k
        invariant
            0 <= i <= k <= v@.len(),
            r@ == v@.take(i as int),
        decreases k - i,
    {
        r.push(v[i]);
        assert(v@.take(i + 1) =~= v@.take(i as int).push(v@[i as int]));
        i = i + 1;
    }
    r
}

/// The bytes `buf[from..]`.
fn copy_from(buf: &[u8], from: usize) -> (r: Vec<u8>)
    requires
        from <= buf@.len(),
    ensures
        r@ == buf@.skip(from as int),
{
    let mut r: Vec<u8> = Vec::new();
    let mut i = from;
    while i < buf.len()
        invariant
            from <= i <= buf@.len(),
            r@ == buf@.subrange(from as int, i as int),
        decreases buf.len() - i,
    {
        r.push(buf[i]);
        assert(buf@.subrange(from as int, i + 1) =~= buf@.subrange(from as int, i as int).push(buf@[i as int]));
        i = i + 1;
    }
    assert(buf@.subrange(from as int, buf@.len() as int) =~= buf@.skip(from as int));
    r
}

/// The number of UTF-8 bytes of `t[..k]`.
fn utf8_prefix_len(t: &[char], k: usize) -> (n: u128)
    requires
        k <= t@.len(),
    ensures
        n == utf8_len(t@.take(k as int)),
{
    let mut n: u128 = 0;
    let mut i: usize = 0;
    assert(t@.take(0) =~= Seq::<char>::empty());
    while i < k
        invariant
            0 <= i <= k <= t@.len(),
            n == utf8_len(t@.take(i as int)),
            n <= 4 * i,
        decreases k - i,
    {
        let w = char_utf8_width(t[i]);
        proof {
            lemma_utf8_len_push(t@.take(i as int), t@[i as int]);
            assert(t@.take(i + 1) =~= t@.take(i as int).push(t@[i as int]));
        }
        n = n + w as u128;
        i = i + 1;
    }
    n
}

/// The number of UTF-8 bytes of the characters `v`.
pub fn byte_len(v: &[char]) -> (n: u128)
    ensures
        n == utf8_len(v@),
{
    assert(v@.take(v@.len() as int) =~= v@);
    utf8_prefix_len(v, v.len())
}

/// The number of leading characters of `t` that take exactly `n` UTF-8 bytes.
fn prefix_for_bytes(t: &[char], n: usize) -> (r: Option<usize>)
    ensures
        r matches Some(k) ==> chars_for_bytes(t@, n as nat, 0) == Some(k as int) && k <= t@.len(),
        r is None ==> chars_for_bytes(t@, n as nat, 0) is None,
{
    let mut off: usize = 0;
    let mut i: usize = 0;
    assert(t@.take(0) =~= Seq::<char>::empty());
    loop
        invariant
            0 <= i <= t@.len(),
            off == utf8_len(t@.take(i as int)),
            off <= n,
            chars_for_bytes(t@, n as nat, 0) == chars_for_bytes(t@, n as nat, i as int),
        decreases t@.len() - i,
    {
        if off == n {
            return Some(i);
        }
        if i == t.len() {
            assert(chars_for_bytes(t@, n as nat, i + 1) is None);
            return None;
        }
        let w = char_utf8_width(t[i]);
        proof {
            lemma_utf8_len_push(t@.take(i as int), t@[i as int]);
            assert(t@.take(i + 1) =~= t@.take(i as int).push(t@[i as int]));
        }
        if w > n - off {
            assert(chars_for_bytes(t@, n as nat, i + 1) is None);
            return None;
        }
        off = off + w;
        i = i + 1;
    }
}

// ───────────────────────────── routing ─────────────────────────────

/// The endpoint a request is for.
pub enum Route {
    /// `GET /`: redirect to the dashboard.
    Redirect,
    /// `GET /dashboard` or `GET /upload`: the dashboard page.
    Dashboard,
    /// `POST /upload`: a CSV from the browser.
    Upload,
    /// `GET /status`: the machine state as JSON.
    Status,
    /// `GET /jobs`: queued and completed jobs as JSON.
    Jobs,
    /// `GET /api/jobs/howick/pending`: the next job for the agent.
    Pending,
    /// `POST /api/jobs/howick/{id}/complete`: the agent delivered the job `id`.
    Complete(String),
    /// `POST /api/jobs/howick/{id}/error`: the agent reports an error.
    AgentError,
    /// `POST /api/sensor/coil`: a coil weight reading.
    SensorCoil,
    /// `GET /health`.
    Health,
    /// Anything else.
    NotFound,
}

/// The view of a [`Route`].
pub enum RouteView {
    Redirect,
    Dashboard,
    Upload,
    Status,
    Jobs,
    Pending,
    Complete(Seq<char>),
    AgentError,
    SensorCoil,
    Health,
    NotFound,
}

impl View for Route {
    type V = RouteView;

    open spec fn view(&self) -> RouteView {
        match self {
            Route::Redirect => RouteView::Redirect,
            Route::Dashboard => RouteView::Dashboard,
            Route::Upload => RouteView::Upload,
            Route::Status => RouteView::Status,
            Route::Jobs => RouteView::Jobs,
            Route::Pending => RouteView::Pending,
            Route::Complete(id) => RouteView::Complete(id@),
            Route::AgentError => RouteView::AgentError,
            Route::SensorCoil => RouteView::SensorCoil,
            Route::Health => RouteView::Health,
            Route::NotFound => RouteView::NotFound,
        }
    }
}

pub open spec fn agent_prefix() -> Seq<char> {
    "/api/jobs/howick/"@
}

/// The endpoint of a method and a path.
pub open spec fn spec_route(method: Seq<char>, path: Seq<char>) -> RouteView {
    if method == "GET"@ && path == "/"@ {
        RouteView::Redirect
    } else if method == "GET"@ && (path == "/dashboard"@ || path == "/upload"@) {
        RouteView::Dashboard
    } else if method == "POST"@ && path == "/upload"@ {
        RouteView::Upload
    } else if method == "GET"@ && (path == "/status"@ || path == "/status?"@) {
        RouteView::Status
    } else if method == "GET"@ && path == "/jobs"@ {
        RouteView::Jobs
    } else if method == "GET"@ && path == "/api/jobs/howick/pending"@ {
        RouteView::Pending
    } else if method == "POST"@ && starts_with(path, agent_prefix()) && ends_with(path, "/complete"@) {
        RouteView::Complete(trim_end_str(trim_start_str(path, agent_prefix()), "/complete"@))
    } else if method == "POST"@ && starts_with(path, agent_prefix()) && ends_with(path, "/error"@) {
        RouteView::AgentError
    } else if method == "POST"@ && path == "/api/sensor/coil"@ {
        RouteView::SensorCoil
    } else if method == "GET"@ && path == "/health"@ {
        RouteView::Health
    } else {
        RouteView::NotFound
    }
}

/// `s` without every leading copy of `p` (all of `s` when `p` is empty).
pub fn trim_start_matches(s: &[char], p: &[char]) -> (r: Vec<char>)
    ensures
        r@ == trim_start_str(s@, p@),
{
    let mut i: usize = 0;
    assert(s@.skip(0) =~= s@);
    if p.len() == 0 {
        return prefix_from(s, 0);
    }
    while i <= s.len() && p.len() <= s.len() - i && matches_at_exec(s, p, i)
        invariant
            0 <= i <= s@.len(),
            p@.len() > 0,
            trim_start_str(s@, p@) == trim_start_str(s@.skip(i as int), p@),
        decreases s.len() - i,
    {
        assert(s@.skip(i as int).take(p@.len() as int) =~= s@.subrange(i as int, i + p@.len()));
        assert(s@.skip(i as int).skip(p@.len() as int) =~= s@.skip(i + p@.len()));
        i = i + p.len();
    }
    proof {
        let rest = s@.skip(i as int);
        if p@.len() <= rest.len() {
            assert(rest.take(p@.len() as int) =~= s@.subrange(i as int, i + p@.len()));
        }
    }
    let r = prefix_from(s, i);
    r
}

/// `s` without every trailing copy of `p` (all of `s` when `p` is empty).
pub fn trim_end_matches(s: &[char], p: &[char]) -> (r: Vec<char>)
    ensures
        r@ == trim_end_str(s@, p@),
{
    let mut e: usize = s.len();
    assert(s@.take(e as int) =~= s@);
    if p.len() == 0 {
        return prefix(s, e);
    }
    while p.len() <= e && matches_at_exec(s, p, e - p.len())
        invariant
            0 <= e <= s@.len(),
            p@.len() > 0,
            trim_end_str(s@, p@) == trim_end_str(s@.take(e as int), p@),
        decreases e,
    {
        let ghost t = s@.take(e as int);
        assert(t.skip(t.len() - p@.len()) =~= s@.subrange(e - p@.len(), e as int));
        assert(t.take(t.len() - p@.len()) =~= s@.take(e - p@.len()));
        e = e - p.len();
    }
    proof {
        let t = s@.take(e as int);
        if p@.len() <= t.len() {
            assert(t.skip(t.len() - p@.len()) =~= s@.subrange(e - p@.len(), e as int));
        }
    }
    prefix(s, e)
}

/// The characters `v[from..]`.
fn prefix_from(v: &[char], from: usize) -> (r: Vec<char>)
    requires
        from <= v@.len(),
    ensures
        r@ == v@.skip(from as int),
{
    let mut r: Vec<char> = Vec::new();
    let mut i = from;
    while i < v.len()
        invariant
            from <= i <= v@.len(),
            r@ == v@.subrange(from as int, i as int),
        decreases v.len() - i,
    {
        r.push(v[i]);
        assert(v@.subrange(from as int, i + 1) =~= v@.subrange(from as int, i as int).push(v@[i as int]));
        i = i + 1;
    }
    assert(v@.subrange(from as int, v@.len() as int) =~= v@.skip(from as int));
    r
}

/// The endpoint of a request.
pub fn route(req: &Request) -> (r: Route)
    ensures
        r@ == spec_route(req.method@, req.path@),
{
    let m = req.method.as_str();
    let p = req.path.as_str();
    let get = str_eq(m, "GET");
    let post = str_eq(m, "POST");
    if get && str_eq(p, "/") {
        return Route::Redirect;
    }
    if get && (str_eq(p, "/dashboard") || str_eq(p, "/upload")) {
        return Route::Dashboard;
    }
    if post && str_eq(p, "/upload") {
        return Route::Upload;
    }
    if get && (str_eq(p, "/status") || str_eq(p, "/status?")) {
        return Route::Status;
    }
    if get && str_eq(p, "/jobs") {
        return Route::Jobs;
    }
    if get && str_eq(p, "/api/jobs/howick/pending") {
        return Route::Pending;
    }
    let pv = chars_of(p);
    let prefix = chars_of("/api/jobs/howick/");
    let complete = chars_of("/complete");
    let error = chars_of("/error");
    proof {
        reveal_strlit("/api/jobs/howick/");
        reveal_strlit("/complete");
        reveal_strlit("/error");
    }
    let agent = starts_with_exec(&pv, &prefix);
    if post && agent && ends_with_exec(&pv, &complete) {
        let rest = trim_start_matches(&pv, &prefix);
        let id = trim_end_matches(&rest, &complete);
        return Route::Complete(string_of(&id));
    }
    if post && agent && ends_with_exec(&pv, &error) {
        return Route::AgentError;
    }
    if post && str_eq(p, "/api/sensor/coil") {
        return Route::SensorCoil;
    }
    if get && str_eq(p, "/health") {
        return Route::Health;
    }
    Route::NotFound
}

// ───────────────────────────── replies ─────────────────────────────

/// A reply: status code, content type and body.
pub struct Reply {
    pub code: u16,
    pub content_type: &'static str,
    pub body: String,
}

/// The reason phrase of a status code.
pub open spec fn reason(code: u16) -> Seq<char> {
    if code == 200 {
        "OK"@
    } else if code == 301 {
        "Moved Permanently"@
    } else if code == 400 {
        "Bad Request"@
    } else if code == 500 {
        "Internal Server Error"@
    } else {
        "Not Found"@
    }
}

/// The status code that goes on the wire: the five codes the server uses stay, anything
/// else is sent as 404.
pub open spec fn wire_code(code: u16) -> u16 {
    if code == 200 || code == 301 || code == 400 || code == 500 {
        code
    } else {
        404
    }
}

/// The full HTTP response of a reply.
pub open spec fn spec_response(code: u16, content_type: Seq<char>, body: Seq<char>) -> Seq<char> {
    "HTTP/1.1 "@ + spec_decimal(wire_code(code) as nat) + " "@ + reason(code) + "\r\nContent-Type: "@
        + content_type + "\r\nAccess-Control-Allow-Origin: *\r\nContent-Length: "@ + spec_decimal(
        utf8_len(body),
    ) + "\r\nConnection: close\r\n"@ + (if wire_code(code) == 301 {
        "Location: /dashboard\r\n"@
    } else {
        Seq::empty()
    }) + "\r\n"@ + body
}

/// The text of the HTTP response for a reply.
pub fn response_text(reply: &Reply) -> (r: String)
    ensures
        r@ == spec_response(reply.code, reply.content_type@, reply.body@),
        reply.code == 400 ==> starts_with(r@, "HTTP/1.1 "@ + spec_decimal(400nat) + " Bad Request\r\n"@),
        reply.code == 200 ==> starts_with(r@, "HTTP/1.1 "@ + spec_decimal(200nat) + " OK\r\n"@),
        reply.code == 301 ==> starts_with(
            r@,
            "HTTP/1.1 "@ + spec_decimal(301nat) + " Moved Permanently\r\n"@,
        ),
        reply.code == 500 ==> starts_with(
            r@,
            "HTTP/1.1 "@ + spec_decimal(500nat) + " Internal Server Error\r\n"@,
        ),
{
    proof {
        lemma_response_status_line(reply.code, reply.content_type@, reply.body@);
    }
    let code = reply.code;
    let wire: u16 = if code == 200 || code == 301 || code == 400 || code == 500 {
        code
    } else {
        404
    };
    let reason_text = if code == 200 {
        "OK"
    } else if code == 301 {
        "Moved Permanently"
    } else if code == 400 {
        "Bad Request"
    } else if code == 500 {
        "Internal Server Error"
    } else {
        "Not Found"
    };
    let body_chars = chars_of(reply.body.as_str());
    let len = utf8_prefix_len(&body_chars, body_chars.len());
    assert(body_chars@.take(body_chars@.len() as int) =~= reply.body@);
    let mut r = owned("HTTP/1.1 ");
    push_str(&mut r, decimal(wire as u128).as_str());
    push_str(&mut r, " ");
    push_str(&mut r, reason_text);
    push_str(&mut r, "\r\nContent-Type: ");
    push_str(&mut r, reply.content_type);
    push_str(&mut r, "\r\nAccess-Control-Allow-Origin: *\r\nContent-Length: ");
    push_str(&mut r, decimal(len).as_str());
    push_str(&mut r, "\r\nConnection: close\r\n");
    let ghost before = r@;
    if wire == 301 {
        push_str(&mut r, "Location: /dashboard\r\n");
    } else {
        assert(r@ =~= before + Seq::<char>::empty());
    }
    push_str(&mut r, "\r\n");
    push_str(&mut r, reply.body.as_str());
    r
}

pub open spec fn json_type() -> Seq<char> {
    "application/json"@
}

/// A JSON reply.
fn json_reply(code: u16, body: &str) -> (r: Reply)
    ensures
        r.code == code,
        r.content_type@ == json_type(),
        r.body@ == body@,
{
    Reply { code, content_type: "application/json", body: owned(body) }
}

/// `{"ok":true}`.
pub open spec fn ok_body() -> Seq<char> {
    "{\"ok\":true}"@
}

/// The reply to `GET /`: a redirect to the dashboard.
pub fn redirect_reply() -> (r: Reply)
    ensures
        r.code == 301 && r.content_type@ == "text/plain"@ && r.body@.len() == 0,
{
    Reply { code: 301, content_type: "text/plain", body: String::new() }
}

/// The reply to `GET /health`.
pub fn health_reply() -> (r: Reply)
    ensures
        r.code == 200 && r.content_type@ == json_type() && r.body@ == ok_body(),
{
    json_reply(200, "{\"ok\":true}")
}

/// The reply to a request for an unknown endpoint.
pub fn not_found_reply() -> (r: Reply)
    ensures
        r.code == 404 && r.content_type@ == json_type() && r.body@ == "{\"error\":\"not found\"}"@,
{
    json_reply(404, "{\"error\":\"not found\"}")
}

/// The reply to `GET /dashboard`: the dashboard page.
pub fn dashboard_reply() -> (r: Reply)
    ensures
        r.code == 200 && r.content_type@ == "text/html; charset=utf-8"@ && r.body@
            == crate::dashboard::DASHBOARD_HTML@,
{
    Reply { code: 200, content_type: "text/html; charset=utf-8", body: crate::dashboard::dashboard_page() }
}

// ───────────────────────────── headers and uploads ─────────────────────────────

/// The value of a header line whose name is `needle` (compared after trimming and
/// ASCII lowercasing the name), trimmed; `None` for other lines and lines without `:`.
pub open spec fn header_match(line: Seq<char>, needle: Seq<char>) -> Option<Seq<char>> {
    match find_char(line, ':') {
        Some(c) => if ascii_lower(trim_ws(line.take(c))) == needle {
            Some(trim_ws(line.skip(c + 1)))
        } else {
            None
        },
        None => None,
    }
}

/// The value of the first of `lines` that is a header named `needle`.
pub open spec fn header_lookup(lines: Seq<Seq<char>>, needle: Seq<char>) -> Option<Seq<char>>
    decreases lines.len(),
{
    if lines.len() == 0 {
        None
    } else {
        match header_match(lines[0], needle) {
            Some(v) => Some(v),
            None => header_lookup(lines.drop_first(), needle),
        }
    }
}

/// The value of the header `needle` (given in lowercase) among the lines of a request
/// after its request line.
pub open spec fn request_header(lines: Seq<Seq<char>>, needle: Seq<char>) -> Option<Seq<char>> {
    if lines.len() > 0 {
        header_lookup(lines.drop_first(), needle)
    } else {
        None
    }
}

/// The value of one header line if it is the header `needle`.
fn header_value(line: &str, needle: &[char]) -> (r: Option<String>)
    ensures
        opt_view(r) == header_match(line@, needle@),
{
    let v = chars_of(line);
    let colon = [':'];
    assert(colon@ =~= seq![':']);
    match find_exec(&v, &colon) {
        None => None,
        Some(c) => {
            proof {
                lemma_find_from_facts(v@, seq![':'], 0);
            }
            let n = v.len();
            assert(c < n);
            let key = prefix(&v, c);
            let (a, b) = trim_bounds(&key);
            let trimmed = slice_chars(&key, a, b);
            let lower = ascii_lowercase(&trimmed);
            if same_text(&lower, needle) {
                let value = prefix_from(&v, c + 1);
                let (a2, b2) = trim_bounds(&value);
                Some(string_of_range(&value, a2, b2))
            } else {
                None
            }
        },
    }
}

/// The characters `v[a..b]`.
fn slice_chars(v: &[char], a: usize, b: usize) -> (r: Vec<char>)
    requires
        a <= b <= v@.len(),
    ensures
        r@ == v@.subrange(a as int, b as int),
{
    let mut r: Vec<char> = Vec::new();
    let mut i = a;
    while i < b
        invariant
            a <= i <= b <= v@.len(),
            r@ == v@.subrange(a as int, i as int),
        decreases b - i,
    {
        r.push(v[i]);
        assert(v@.subrange(a as int, i + 1) =~= v@.subrange(a as int, i as int).push(v@[i as int]));
        i = i + 1;
    }
    r
}

pub open spec fn opt_view(o: Option<String>) -> Option<Seq<char>> {
    match o {
        Some(s) => Some(s@),
        None => None,
    }
}

/// The value of the header `needle` (given in lowercase) in a request.
pub fn find_header(req: &Request, needle: &str) -> (r: Option<String>)
    ensures
        opt_view(r) == request_header(lines_view(req.lines@), needle@),
{
    let nv = chars_of(needle);
    let ghost ls = lines_view(req.lines@);
    if req.lines.len() == 0 {
        return None;
    }
    let mut i: usize = 1;
    while i < req.lines.len()
        invariant
            1 <= i <= req.lines@.len(),
            ls == lines_view(req.lines@),
            nv@ == needle@,
            request_header(ls, needle@) == header_lookup(ls.skip(i as int), needle@),
        decreases req.lines.len() - i,
    {
        assert(ls.skip(i as int)[0] == req.lines@[i as int]@);
        assert(ls.skip(i as int).drop_first() =~= ls.skip(i + 1));
        match header_value(req.lines[i].as_str(), &nv) {
            Some(v) => {
                return Some(v);
            },
            None => {},
        }
        i = i + 1;
    }
    assert(ls.skip(i as int) =~= Seq::<Seq<char>>::empty());
    None
}

/// Characters kept in an uploaded file name: letters and digits (for ASCII: `a`–`z`,
/// `A`–`Z`, `0`–`9`; beyond ASCII the Unicode alphanumerics), `-`, `_` and `.`.
/// In particular `/`, `\`, spaces and quotes are dropped.
pub open spec fn filename_char(c: char) -> bool {
    (if (c as u32) < 128 { is_ascii_alphanumeric(c) } else { spec_is_alphanumeric(c) }) || c == '-'
        || c == '_' || c == '.'
}

/// `raw` with every character that may not appear in a file name removed.
pub open spec fn sanitised(raw: Seq<char>) -> Seq<char>
    decreases raw.len(),
{
    if raw.len() == 0 {
        Seq::empty()
    } else if filename_char(raw.last()) {
        sanitised(raw.drop_last()).push(raw.last())
    } else {
        sanitised(raw.drop_last())
    }
}

/// Keep only letters, digits, `-`, `_` and `.` of an uploaded file name.
pub fn sanitise_filename(raw: &str) -> (r: String)
    ensures
        r@ == sanitised(raw@),
{
    let v = chars_of(raw);
    let mut r = String::new();
    let mut i: usize = 0;
    while i < v.len()
        invariant
            0 <= i <= v@.len(),
            r@ == sanitised(v@.take(i as int)),
        decreases v.len() - i,
    {
        let c = v[i];
        assert(v@.take(i + 1).drop_last() =~= v@.take(i as int));
        if is_alphanumeric(c) || c == '-' || c == '_' || c == '.' {
            push_char(&mut r, c);
        }
        i = i + 1;
    }
    assert(v@.take(v@.len() as int) =~= v@);
    r
}

/// The file name under which an upload is stored: the sanitised `X-Filename` header, or
/// `upload.csv` without one, with `.csv` appended when it does not end so.
pub open spec fn upload_filename(lines: Seq<Seq<char>>) -> Seq<char> {
    let f = match request_header(lines, "x-filename"@) {
        Some(v) => sanitised(v),
        None => "upload.csv"@,
    };
    if ends_with(f, ".csv"@) {
        f
    } else {
        f + ".csv"@
    }
}

/// The CSV text of an upload: the body trimmed, empty when it is not valid UTF-8.
pub open spec fn upload_csv(body: Seq<u8>) -> Seq<char> {
    if valid_utf8(body) {
        trim_ws(decode_utf8(body))
    } else {
        Seq::empty()
    }
}

/// An upload accepted for storage.
pub struct UploadPlan {
    pub filename: String,
    pub csv: String,
    pub frameset_name: String,
}

pub open spec fn upload_rejected_body() -> Seq<char> {
    "{\"error\":\"not a valid Howick CSV — file must start with UNIT,MILLIMETRE\"}"@
}

/// Decide an upload (`POST /upload`): a Howick CSV starts with `UNIT`; anything else,
/// and an empty body, is refused with 400.
pub fn plan_upload(req: &Request) -> (r: Result<UploadPlan, Reply>)
    ensures
        ({
            let csv = upload_csv(req.body@);
            let filename = upload_filename(lines_view(req.lines@));
            match r {
                Ok(plan) => {
                    &&& csv.len() > 0 && starts_with(csv, "UNIT"@)
                    &&& plan.filename@ == filename
                    &&& plan.csv@ == csv
                    &&& plan.frameset_name@ == trim_end_str(filename, ".csv"@)
                },
                Err(reply) => {
                    &&& !(csv.len() > 0 && starts_with(csv, "UNIT"@))
                    &&& reply.code == 400
                    &&& reply.content_type@ == json_type()
                    &&& reply.body@ == upload_rejected_body()
                },
            }
        }),
{
    let header = find_header(req, "x-filename");
    let name = match header {
        Some(v) => sanitise_filename(v.as_str()),
        None => owned("upload.csv"),
    };
    let nv = chars_of(name.as_str());
    let ext = chars_of(".csv");
    proof {
        reveal_strlit(".csv");
    }
    let filename = if ends_with_exec(&nv, &ext) {
        name
    } else {
        let mut f = name;
        push_str(&mut f, ".csv");
        f
    };
    let csv = match utf8_text(req.body.as_slice()) {
        Some(text) => trim_string(text.as_str()),
        None => String::new(),
    };
    let cv = chars_of(csv.as_str());
    let unit = chars_of("UNIT");
    if cv.len() == 0 || !starts_with_exec(&cv, &unit) {
        return Err(json_reply(400, "{\"error\":\"not a valid Howick CSV — file must start with UNIT,MILLIMETRE\"}"));
    }
    let fv = chars_of(filename.as_str());
    let stem = trim_end_matches(&fv, &ext);
    Ok(UploadPlan { filename, csv, frameset_name: string_of(&stem) })
}

/// The time `now` (nanoseconds since the epoch) in whole seconds.
pub open spec fn epoch_secs(now: u128) -> u64 {
    (now / 1_000_000_000) as u64
}

/// The identifier of a job for a frameset created at `now`: `{frameset}-{seconds}`.
pub open spec fn job_id_for(frameset_name: Seq<char>, now: u128) -> Seq<char> {
    frameset_name + "-"@ + spec_decimal(epoch_secs(now) as nat)
}

/// The time `now` as the decimal number of whole seconds since the epoch.
pub fn timestamp_id(now: u128) -> (t: String)
    ensures
        t@ == spec_decimal(epoch_secs(now) as nat),
{
    let secs = (now / 1_000_000_000) as u64;
    decimal(secs as u128)
}

/// The identifier of a job for a frameset created at `now`.
pub fn job_id(frameset_name: &str, now: u128) -> (id: String)
    ensures
        id@ == job_id_for(frameset_name@, now),
{
    let mut id = owned(frameset_name);
    push_str(&mut id, "-");
    push_str(&mut id, timestamp_id(now).as_str());
    id
}

/// The body of an accepted upload.
pub open spec fn upload_ok_body(frameset_name: Seq<char>) -> Seq<char> {
    "{\"ok\":true,\"frameset_name\":\""@ + frameset_name + "\",\"queued\":true}"@
}

/// An accepted upload was stored at `csv_path`: queue it as a job created at `now`.
pub fn finish_upload(state: &mut MachineState, plan: &UploadPlan, csv_path: String, now: u128) -> (r: Reply)
    ensures
        final(state)@ == spec_queue_upload(
            old(state)@,
            JobView {
                id: job_id_for(plan.frameset_name@, now),
                frameset_name: plan.frameset_name@,
                csv_path: csv_path@,
                submitted_at: now,
            },
            now,
        ),
        r.code == 200 && r.content_type@ == json_type() && r.body@ == upload_ok_body(plan.frameset_name@),
{
    let id = job_id(plan.frameset_name.as_str(), now);
    let job = Job::new(id, owned(plan.frameset_name.as_str()), csv_path, now);
    state.queue_upload(job, now);
    let mut body = owned("{\"ok\":true,\"frameset_name\":\"");
    push_str(&mut body, plan.frameset_name.as_str());
    push_str(&mut body, "\",\"queued\":true}");
    Reply { code: 200, content_type: "application/json", body }
}

// ───────────────────────────── state endpoints ─────────────────────────────

/// The seconds elapsed from `t` to `now`, `None` when `t` is unset or later than `now`.
pub open spec fn spec_ago_secs(t: Option<u128>, now: u128) -> Option<u64> {
    match t {
        Some(t) => if t <= now {
            Some(((now - t) / 1_000_000_000) as u64)
        } else {
            None
        },
        None => None,
    }
}

/// Seconds since a time, or `None` if the time is not set or lies in the future.
pub fn ago_secs(t: Option<u128>, now: u128) -> (r: Option<u64>)
    ensures
        r == spec_ago_secs(t, now),
{
    match t {
        Some(t) => if t <= now {
            Some(((now - t) / 1_000_000_000) as u64)
        } else {
            None
        },
        None => None,
    }
}

/// A number of seconds as JSON: the number, or `null`.
pub open spec fn secs_json(s: Option<u64>) -> Seq<char> {
    match s {
        Some(n) => spec_decimal(n as nat),
        None => "null"@,
    }
}

fn secs_text(s: Option<u64>) -> (r: String)
    ensures
        r@ == secs_json(s),
{
    match s {
        Some(n) => decimal(n as u128),
        None => owned("null"),
    }
}

pub open spec fn bool_json(b: bool) -> Seq<char> {
    if b {
        "true"@
    } else {
        "false"@
    }
}

/// The current job as JSON: the name in quotes, or `null`.
pub open spec fn current_job_json(j: Option<Seq<char>>) -> Seq<char> {
    match j {
        Some(j) => "\""@ + j + "\""@,
        None => "null"@,
    }
}

/// The body of `GET /status`, given the running version, the coil length as the JSON
/// number to report, whether the coil is low, and the time `now`.
pub open spec fn status_body(
    s: MachineStateView,
    version: Seq<char>,
    coil: Seq<char>,
    low_alert: bool,
    now: u128,
) -> Seq<char> {
    "{\"version\":\""@ + version + "\",\"status\":\""@ + status_name(s.status) + "\",\"current_job\":"@
        + current_job_json(s.current_job) + ",\"pieces_produced\":"@ + spec_decimal(
        s.pieces_produced as nat,
    ) + ",\"queue_depth\":"@ + spec_decimal(s.job_queue.len()) + ",\"coil_remaining\":"@ + coil
        + ",\"coil_low_alert\":"@ + bool_json(low_alert) + ",\"last_error\":\""@ + s.last_error
        + "\",\"last_upload_secs_ago\":"@ + secs_json(spec_ago_secs(s.last_upload_at, now))
        + ",\"completed_count\":"@ + spec_decimal(s.completed_jobs.len())
        + ",\"agent_last_seen_secs_ago\":"@ + secs_json(spec_ago_secs(s.agent_last_seen_at, now))
        + ",\"agent_last_error\":\""@ + s.agent_last_error + "\",\"sensor_last_read_secs_ago\":"@
        + secs_json(spec_ago_secs(s.sensor_last_read_at, now)) + "}"@
}

/// The reply to `GET /status`.
pub fn status_reply(state: &MachineState, version: &str, coil: &str, low_alert: bool, now: u128) -> (r: Reply)
    ensures
        r.code == 200,
        r.content_type@ == json_type(),
        r.body@ == status_body(state@, version@, coil@, low_alert, now),
        reports_number(
            r.body@,
            ",\"queue_depth\":"@,
            state@.job_queue.len(),
            ",\"coil_remaining\":"@,
        ),
        reports_number(
            r.body@,
            ",\"completed_count\":"@,
            state@.completed_jobs.len(),
            ",\"agent_last_seen_secs_ago\":"@,
        ),
{
    let mut b = owned("{\"version\":\"");
    push_str(&mut b, version);
    push_str(&mut b, "\",\"status\":\"");
    push_str(&mut b, state.status.as_str());
    push_str(&mut b, "\",\"current_job\":");
    match &state.current_job {
        Some(j) => {
            push_str(&mut b, "\"");
            push_str(&mut b, j.as_str());
            push_str(&mut b, "\"");
        },
        None => push_str(&mut b, "null"),
    }
    push_str(&mut b, ",\"pieces_produced\":");
    push_str(&mut b, decimal(state.pieces_produced as u128).as_str());
    push_str(&mut b, ",\"queue_depth\":");
    push_str(&mut b, decimal(state.job_queue.len() as u128).as_str());
    push_str(&mut b, ",\"coil_remaining\":");
    push_str(&mut b, coil);
    push_str(&mut b, ",\"coil_low_alert\":");
    push_str(&mut b, if low_alert { "true" } else { "false" });
    push_str(&mut b, ",\"last_error\":\"");
    push_str(&mut b, state.last_error.as_str());
    push_str(&mut b, "\",\"last_upload_secs_ago\":");
    push_str(&mut b, secs_text(ago_secs(state.last_upload_at, now)).as_str());
    push_str(&mut b, ",\"completed_count\":");
    push_str(&mut b, decimal(state.completed_jobs.len() as u128).as_str());
    push_str(&mut b, ",\"agent_last_seen_secs_ago\":");
    push_str(&mut b, secs_text(ago_secs(state.agent_last_seen_at, now)).as_str());
    push_str(&mut b, ",\"agent_last_error\":\"");
    push_str(&mut b, state.agent_last_error.as_str());
    push_str(&mut b, "\",\"sensor_last_read_secs_ago\":");
    push_str(&mut b, secs_text(ago_secs(state.sensor_last_read_at, now)).as_str());
    push_str(&mut b, "}");
    assert(b@ =~= status_body(state@, version@, coil@, low_alert, now));
    proof {
        lemma_status_counts(state@, version@, coil@, low_alert, now);
    }
    Reply { code: 200, content_type: "application/json", body: b }
}

/// One job in the job lists: `{"id":"…","frameset_name":"…"}`.
pub open spec fn job_entry(j: JobView) -> Seq<char> {
    "{\"id\":\""@ + j.id + "\",\"frameset_name\":\""@ + j.frameset_name + "\"}"@
}

/// The entries of `jobs` joined by commas.
pub open spec fn job_entries(jobs: Seq<JobView>) -> Seq<char>
    decreases jobs.len(),
{
    if jobs.len() == 0 {
        Seq::empty()
    } else if jobs.len() == 1 {
        job_entry(jobs[0])
    } else {
        job_entries(jobs.drop_last()) + ","@ + job_entry(jobs.last())
    }
}

/// The last ten completed jobs (fewer when there are fewer), newest first.
pub open spec fn recent_completed(c: Seq<JobView>) -> Seq<JobView> {
    let k = if c.len() < 10 { c.len() } else { 10 };
    Seq::new(k, |i: int| c[c.len() - 1 - i])
}

/// The body of `GET /jobs`.
pub open spec fn jobs_body(s: MachineStateView) -> Seq<char> {
    "{\"queued\":["@ + job_entries(s.job_queue) + "],\"completed\":["@ + job_entries(
        recent_completed(s.completed_jobs),
    ) + "]}"@
}

/// The entries of `jobs[..]` in the order of `order`, joined by commas.
fn entries_text(jobs: &Vec<Job>, order: &Vec<usize>) -> (r: String)
    requires
        forall|i: int| 0 <= i < order@.len() ==> order@[i] < jobs@.len(),
    ensures
        r@ == job_entries(Seq::new(order@.len(), |i: int| jobs@[order@[i] as int]@)),
{
    let ghost sel = Seq::new(order@.len(), |i: int| jobs@[order@[i] as int]@);
    let mut r = String::new();
    let mut i: usize = 0;
    while i < order.len()
        invariant
            0 <= i <= order@.len(),
            forall|k: int| 0 <= k < order@.len() ==> order@[k] < jobs@.len(),
            sel == Seq::new(order@.len(), |k: int| jobs@[order@[k] as int]@),
            r@ == job_entries(sel.take(i as int)),
        decreases order.len() - i,
    {
        let j = &jobs[order[i]];
        let ghost before = r@;
        if i > 0 {
            push_str(&mut r, ",");
        }
        push_str(&mut r, "{\"id\":\"");
        push_str(&mut r, j.id.as_str());
        push_str(&mut r, "\",\"frameset_name\":\"");
        push_str(&mut r, j.frameset_name.as_str());
        push_str(&mut r, "\"}");
        proof {
            let t = sel.take(i + 1);
            assert(t.drop_last() =~= sel.take(i as int));
            assert(t.last() == j@);
            if i == 0 {
                assert(before =~= Seq::<char>::empty());
                assert(r@ =~= job_entry(j@));
                assert(job_entries(t) == job_entry(t[0]));
            } else {
                assert(r@ =~= before + ","@ + job_entry(j@));
            }
        }
        i = i + 1;
    }
    assert(sel.take(order@.len() as int) =~= sel);
    r
}

/// The reply to `GET /jobs`: every queued job, and the last ten completed jobs newest first.
pub fn jobs_reply(state: &MachineState) -> (r: Reply)
    ensures
        r.code == 200,
        r.content_type@ == json_type(),
        r.body@ == jobs_body(state@),
{
    let mut queued_order: Vec<usize> = Vec::new();
    let mut i: usize = 0;
    while i < state.job_queue.len()
        invariant
            0 <= i <= state.job_queue@.len(),
            queued_order@.len() == i,
            forall|k: int| 0 <= k < i ==> queued_order@[k] == k,
        decreases state.job_queue.len() - i,
    {
        queued_order.push(i);
        i = i + 1;
    }
    let n = state.completed_jobs.len();
    let k = if n < 10 { n } else { 10 };
    let mut completed_order: Vec<usize> = Vec::new();
    let mut i: usize = 0;
    while i < k
        invariant
            0 <= i <= k <= n == state.completed_jobs@.len(),
            k == (if n < 10 { n } else { 10 }),
            completed_order@.len() == i,
            forall|m: int| 0 <= m < i ==> completed_order@[m] == n - 1 - m,
        decreases k - i,
    {
        completed_order.push(n - 1 - i);
        i = i + 1;
    }
    let queued = entries_text(&state.job_queue, &queued_order);
    let completed = entries_text(&state.completed_jobs, &completed_order);
    proof {
        assert(Seq::new(queued_order@.len(), |m: int| state.job_queue@[queued_order@[m] as int]@)
            =~= state@.job_queue);
        assert(Seq::new(completed_order@.len(), |m: int| state.completed_jobs@[completed_order@[m] as int]@)
            =~= recent_completed(state@.completed_jobs));
    }
    let mut b = owned("{\"queued\":[");
    push_str(&mut b, queued.as_str());
    push_str(&mut b, "],\"completed\":[");
    push_str(&mut b, completed.as_str());
    push_str(&mut b, "]}");
    Reply { code: 200, content_type: "application/json", body: b }
}

/// One character of a CSV as it goes into a JSON string: backslash and quote escaped,
/// carriage return dropped, line feed as `\n`.
pub open spec fn escape_char(c: char) -> Seq<char> {
    if c == '\\' {
        seq!['\\', '\\']
    } else if c == '"' {
        seq!['\\', '"']
    } else if c == '\r' {
        Seq::empty()
    } else if c == '\n' {
        seq!['\\', 'n']
    } else {
        seq![c]
    }
}

/// A CSV escaped for a JSON string.
pub open spec fn json_escape(s: Seq<char>) -> Seq<char>
    decreases s.len(),
{
    if s.len() == 0 {
        Seq::empty()
    } else {
        json_escape(s.drop_last()) + escape_char(s.last())
    }
}

/// Escape a CSV for embedding in a JSON string.
pub fn escape_csv(csv: &str) -> (r: String)
    ensures
        r@ == json_escape(csv@),
{
    let v = chars_of(csv);
    let mut r = String::new();
    let mut i: usize = 0;
    while i < v.len()
        invariant
            0 <= i <= v@.len(),
            r@ == json_escape(v@.take(i as int)),
        decreases v.len() - i,
    {
        let c = v[i];
        let ghost before = r@;
        if c == '\\' {
            push_char(&mut r, '\\');
            push_char(&mut r, '\\');
        } else if c == '"' {
            push_char(&mut r, '\\');
            push_char(&mut r, '"');
        } else if c == '\r' {
        } else if c == '\n' {
            push_char(&mut r, '\\');
            push_char(&mut r, 'n');
        } else {
            push_char(&mut r, c);
        }
        proof {
            assert(v@.take(i + 1).drop_last() =~= v@.take(i as int));
            assert(r@ =~= before + escape_char(c));
        }
        i = i + 1;
    }
    assert(v@.take(v@.len() as int) =~= v@);
    r
}

/// A CSV escaped for JSON is a single line: it holds no line feed and no carriage
/// return.  A CSV without backslashes, quotes and line breaks is left as it is.
pub proof fn lemma_json_escape_single_line(s: Seq<char>)
    ensures
        forall|i: int| 0 <= i < json_escape(s).len() ==> #[trigger] json_escape(s)[i] != '\n'
            && json_escape(s)[i] != '\r',
        (forall|i: int| 0 <= i < s.len() ==> #[trigger] s[i] != '\\' && s[i] != '"' && s[i]
            != '\n' && s[i] != '\r') ==> json_escape(s) == s,
    decreases s.len(),
{
    if s.len() > 0 {
        let p = s.drop_last();
        lemma_json_escape_single_line(p);
        let e = json_escape(p);
        let t = escape_char(s.last());
        assert(json_escape(s) == e + t);
        assert forall|i: int| 0 <= i < json_escape(s).len() implies #[trigger] json_escape(s)[i]
            != '\n' && json_escape(s)[i] != '\r' by {
            if i < e.len() {
                assert(json_escape(s)[i] == e[i]);
            } else {
                assert(json_escape(s)[i] == t[i - e.len()]);
            }
        }
        if forall|i: int| 0 <= i < s.len() ==> #[trigger] s[i] != '\\' && s[i] != '"' && s[i] != '\n'
            && s[i] != '\r' {
            assert forall|i: int| 0 <= i < p.len() implies #[trigger] p[i] != '\\' && p[i] != '"'
                && p[i] != '\n' && p[i] != '\r' by {
                assert(p[i] == s[i]);
            }
            assert(s[s.len() - 1] == s.last());
            assert(p.push(s.last()) =~= s);
        }
    }
}

/// The character that the JSON escape `\e` stands for (`\uXXXX` is not read here).
pub open spec fn unescape_char(e: char) -> Option<char> {
    if e == '"' {
        Some('"')
    } else if e == '\\' {
        Some('\\')
    } else if e == '/' {
        Some('/')
    } else if e == 'b' {
        Some('\x08')
    } else if e == 'f' {
        Some('\x0C')
    } else if e == 'n' {
        Some('\n')
    } else if e == 'r' {
        Some('\r')
    } else if e == 't' {
        Some('\t')
    } else {
        None
    }
}

/// The text that the inside of a JSON string literal stands for, read as JSON reads it:
/// `None` when it holds an unescaped quote or control character, or an escape this
/// reader does not know.
pub open spec fn json_unescape(s: Seq<char>) -> Option<Seq<char>>
    decreases s.len(),
{
    if s.len() == 0 {
        Some(Seq::empty())
    } else if s[0] == '\\' {
        if s.len() < 2 {
            None
        } else {
            match (unescape_char(s[1]), json_unescape(s.skip(2))) {
                (Some(c), Some(r)) => Some(seq![c] + r),
                _ => None,
            }
        }
    } else if s[0] == '"' || (s[0] as u32) < 0x20 {
        None
    } else {
        match json_unescape(s.skip(1)) {
            Some(r) => Some(seq![s[0]] + r),
            None => None,
        }
    }
}

/// `s` without its carriage returns.
pub open spec fn drop_cr(s: Seq<char>) -> Seq<char>
    decreases s.len(),
{
    if s.len() == 0 {
        Seq::empty()
    } else {
        (if s[0] == '\r' { Seq::empty() } else { seq![s[0]] }) + drop_cr(s.skip(1))
    }
}

/// No control character of `s` but line feed and carriage return.
pub open spec fn no_stray_controls(s: Seq<char>) -> bool {
    forall|i: int| 0 <= i < s.len() ==> (#[trigger] s[i] as u32) >= 0x20 || s[i] == '\n' || s[i] == '\r'
}

/// Text that JSON carries as it is inside a string literal: no quote, backslash or
/// control character.
pub open spec fn plain_json_text(s: Seq<char>) -> bool {
    forall|i: int| 0 <= i < s.len() ==> #[trigger] s[i] != '"' && s[i] != '\\' && (s[i] as u32) >= 0x20
}

proof fn lemma_json_escape_append(a: Seq<char>, b: Seq<char>)
    ensures
        json_escape(a + b) == json_escape(a) + json_escape(b),
    decreases b.len(),
{
    if b.len() == 0 {
        assert(a + b =~= a);
        assert(json_escape(a) + json_escape(b) =~= json_escape(a));
    } else {
        assert((a + b).drop_last() =~= a + b.drop_last());
        assert((a + b).last() == b.last());
        lemma_json_escape_append(a, b.drop_last());
        assert(json_escape(a) + json_escape(b.drop_last()) + escape_char(b.last()) =~= json_escape(a)
            + (json_escape(b.drop_last()) + escape_char(b.last())));
    }
}

proof fn lemma_json_escape_front(s: Seq<char>)
    requires
        s.len() > 0,
    ensures
        json_escape(s) == escape_char(s[0]) + json_escape(s.skip(1)),
{
    let h = seq![s[0]];
    assert(h + s.skip(1) =~= s);
    lemma_json_escape_append(h, s.skip(1));
    assert(h.drop_last() =~= Seq::<char>::empty());
    assert(h.last() == s[0]);
    assert(json_escape(h.drop_last()) == Seq::<char>::empty());
    assert(json_escape(h) =~= escape_char(s[0]));
}

/// Reading the escaped CSV back as a JSON string gives the CSV without its carriage
/// returns, when the CSV holds no other control characters.
pub proof fn lemma_json_unescape_escape(csv: Seq<char>)
    requires
        no_stray_controls(csv),
    ensures
        json_unescape(json_escape(csv)) == Some(drop_cr(csv)),
    decreases csv.len(),
{
    if csv.len() > 0 {
        let c = csv[0];
        let rest = csv.skip(1);
        assert forall|i: int| 0 <= i < rest.len() implies (#[trigger] rest[i] as u32) >= 0x20 || rest[i]
            == '\n' || rest[i] == '\r' by {
            assert(rest[i] == csv[i + 1]);
        }
        lemma_json_unescape_escape(rest);
        lemma_json_escape_front(csv);
        let e = json_escape(csv);
        let er = json_escape(rest);
        assert(csv[0] as u32 >= 0x20 || c == '\n' || c == '\r');
        if c == '\\' || c == '"' || c == '\n' {
            assert(e.skip(2) =~= er);
        } else if c == '\r' {
            assert(e =~= er);
            assert(drop_cr(csv) =~= drop_cr(rest));
        } else {
            assert(e.skip(1) =~= er);
        }
    }
}

/// Plain text reads back as itself inside a JSON string literal.
pub proof fn lemma_json_unescape_plain(s: Seq<char>)
    requires
        plain_json_text(s),
    ensures
        json_unescape(s) == Some(s),
    decreases s.len(),
{
    if s.len() > 0 {
        let rest = s.skip(1);
        assert forall|i: int| 0 <= i < rest.len() implies #[trigger] rest[i] != '"' && rest[i] != '\\'
            && (rest[i] as u32) >= 0x20 by {
            assert(rest[i] == s[i + 1]);
        }
        lemma_json_unescape_plain(rest);
        assert(s[0] != '"' && s[0] != '\\' && (s[0] as u32) >= 0x20);
        assert(seq![s[0]] + rest =~= s);
    }
}

/// The body that serves one job to the agent.
pub open spec fn pending_body(id: Seq<char>, frameset_name: Seq<char>, csv: Seq<char>) -> Seq<char> {
    "{\"jobs\":[{\"job_id\":\""@ + id + "\",\"frameset_name\":\""@ + frameset_name + "\",\"csv\":\""@
        + json_escape(csv) + "\"}]}"@
}

/// Reading the job JSON back gives the job: its three string literals hold exactly
/// the identifier, the frameset name and the CSV without carriage returns, when the
/// identifier and name are plain text and the CSV holds no control characters but line
/// breaks.
pub proof fn lemma_pending_body_decodes(id: Seq<char>, frameset_name: Seq<char>, csv: Seq<char>)
    requires
        plain_json_text(id),
        plain_json_text(frameset_name),
        no_stray_controls(csv),
    ensures
        pending_body(id, frameset_name, csv) == "{\"jobs\":[{\"job_id\":\""@ + id
            + "\",\"frameset_name\":\""@ + frameset_name + "\",\"csv\":\""@ + json_escape(csv)
            + "\"}]}"@,
        json_unescape(id) == Some(id),
        json_unescape(frameset_name) == Some(frameset_name),
        json_unescape(json_escape(csv)) == Some(drop_cr(csv)),
{
    lemma_json_unescape_plain(id);
    lemma_json_unescape_plain(frameset_name);
    lemma_json_unescape_escape(csv);
}

/// The JSON that serves one job, with its CSV text, to the agent.
pub fn pending_job_json(id: &str, frameset_name: &str, csv: &str) -> (r: String)
    ensures
        r@ == pending_body(id@, frameset_name@, csv@),
{
    let mut b = owned("{\"jobs\":[{\"job_id\":\"");
    push_str(&mut b, id);
    push_str(&mut b, "\",\"frameset_name\":\"");
    push_str(&mut b, frameset_name);
    push_str(&mut b, "\",\"csv\":\"");
    push_str(&mut b, escape_csv(csv).as_str());
    push_str(&mut b, "\"}]}");
    b
}

/// The reply to `GET /api/jobs/howick/pending`, given the job the agent was handed
/// (if any) and the text of its CSV file (`None` when it could not be read).
pub fn pending_reply(job: &Option<Job>, csv: &Option<String>) -> (r: Reply)
    ensures
        r.content_type@ == json_type(),
        match job {
            None => r.code == 200 && r.body@ == "{\"jobs\":[]}"@,
            Some(j) => match csv {
                Some(text) => r.code == 200 && r.body@ == pending_body(j.id@, j.frameset_name@, text@),
                None => r.code == 500 && r.body@ == "{\"error\":\"csv read failed\"}"@,
            },
        },
{
    match job {
        None => json_reply(200, "{\"jobs\":[]}"),
        Some(j) => match csv {
            Some(text) => {
                let body = pending_job_json(j.id.as_str(), j.frameset_name.as_str(), text.as_str());
                Reply { code: 200, content_type: "application/json", body }
            },
            None => json_reply(500, "{\"error\":\"csv read failed\"}"),
        },
    }
}

/// The reply to `POST /api/jobs/howick/{id}/complete` at time `now`.
pub fn complete_reply(state: &mut MachineState, id: &str, now: u128) -> (r: Reply)
    ensures
        final(state)@ == spec_complete_job(old(state)@, id@, now),
        r.code == 200 && r.content_type@ == json_type() && r.body@ == ok_body(),
{
    state.complete_job(id, now);
    json_reply(200, "{\"ok\":true}")
}

/// The error text an agent reports: its body trimmed, `unknown` when not valid UTF-8.
pub open spec fn agent_error_text(body: Seq<u8>) -> Seq<char> {
    if valid_utf8(body) {
        trim_ws(decode_utf8(body))
    } else {
        trim_ws("unknown"@)
    }
}

/// The reply to `POST /api/jobs/howick/{id}/error` at time `now`.
pub fn agent_error_reply(state: &mut MachineState, body: &[u8], now: u128) -> (r: Reply)
    ensures
        final(state)@ == spec_agent_error(old(state)@, agent_error_text(body@), now),
        r.code == 200 && r.content_type@ == json_type() && r.body@ == ok_body(),
{
    let err = match utf8_text(body) {
        Some(text) => trim_string(text.as_str()),
        None => trim_string("unknown"),
    };
    state.record_agent_error(err, now);
    json_reply(200, "{\"ok\":true}")
}

/// The text of a coil weight push: the body trimmed, empty when not valid UTF-8.
pub open spec fn sensor_body_text(body: Seq<u8>) -> Seq<char> {
    if valid_utf8(body) {
        trim_ws(decode_utf8(body))
    } else {
        Seq::empty()
    }
}

/// The number text of the `weight_kg` field of a coil weight push (`POST /api/sensor/coil`).
pub fn sensor_weight_text(body: &[u8]) -> (r: Option<String>)
    ensures
        opt_view(r) == json_number_text(sensor_body_text(body@), "weight_kg"@),
{
    let text = match utf8_text(body) {
        Some(text) => trim_string(text.as_str()),
        None => String::new(),
    };
    extract_json_number(text.as_str(), "weight_kg")
}

pub open spec fn sensor_rejected_body() -> Seq<char> {
    "{\"error\":\"expected {\\\"weight_kg\\\":23.5}\"}"@
}

/// The reply to a coil weight push at time `now`.  `reading` is `Some(low)` when the
/// weight was read, `low` telling whether the remaining coil is now below its alert
/// length; an accepted reading records the sensor's time and that flag.
pub fn sensor_reply(state: &mut MachineState, reading: Option<bool>, now: u128) -> (r: Reply)
    ensures
        reading matches Some(low) ==> final(state)@ == spec_sensor_read(old(state)@, now, low)
            && r.code == 200 && r.body@ == ok_body(),
        reading is None ==> final(state)@ == old(state)@ && r.code == 400 && r.body@
            == sensor_rejected_body(),
        r.content_type@ == json_type(),
{
    if let Some(low) = reading {
        state.record_sensor_read(now, low);
        json_reply(200, "{\"ok\":true}")
    } else {
        json_reply(400, "{\"error\":\"expected {\\\"weight_kg\\\":23.5}\"}")
    }
}

// ───────────────────────────── flat JSON fields ─────────────────────────────

/// The text after `"key"`, a colon and whitespace in a flat JSON object, when the key occurs.
pub open spec fn json_value_start(json: Seq<char>, key: Seq<char>) -> Option<Seq<char>> {
    let needle = seq!['"'] + key + seq!['"'];
    match find(json, needle) {
        Some(i) => {
            let rest = trim_start_ws(json.skip(i + needle.len()));
            if rest.len() > 0 && rest[0] == ':' {
                Some(trim_start_ws(rest.drop_first()))
            } else {
                None
            }
        },
        None => None,
    }
}

/// An exponent mark: `e` or `E`.
pub open spec fn exp_mark(c: char) -> bool {
    c == 'e' || c == 'E'
}

/// An exponent's digits start at `j` of `s`: a digit, or a sign and then a digit.
pub open spec fn exponent_follows(s: Seq<char>, j: int) -> bool {
    0 <= j < s.len() && (is_ascii_digit(s[j]) || ((s[j] == '+' || s[j] == '-') && j + 1 < s.len()
        && is_ascii_digit(s[j + 1])))
}

/// The character at `i` of `s` belongs to a number: a digit, the point or a minus sign;
/// an exponent mark followed by the exponent's digits (with or without a sign); or a
/// plus sign right after an exponent mark and before a digit.
pub open spec fn number_char_at(s: Seq<char>, i: int) -> bool {
    let c = s[i];
    ||| is_ascii_digit(c) || c == '.' || c == '-'
    ||| exp_mark(c) && exponent_follows(s, i + 1)
    ||| c == '+' && i > 0 && exp_mark(s[i - 1]) && i + 1 < s.len() && is_ascii_digit(s[i + 1])
}

/// The first position at or after `i` of a character that cannot be part of a number.
pub open spec fn number_end_from(s: Seq<char>, i: int) -> Option<int>
    decreases s.len() - i,
{
    if i < 0 || i >= s.len() {
        None
    } else if !number_char_at(s, i) {
        Some(i)
    } else {
        number_end_from(s, i + 1)
    }
}

/// The number text of the field `key` of a flat JSON object: the run of characters
/// after the colon that belong to a number (`number_char_at`: digits, point, minus
/// signs, and an exponent mark with its digits), which must be followed by some other
/// character.
pub open spec fn json_number_text(json: Seq<char>, key: Seq<char>) -> Option<Seq<char>> {
    match json_value_start(json, key) {
        Some(rest) => match number_end_from(rest, 0) {
            Some(e) => Some(rest.take(e)),
            None => None,
        },
        None => None,
    }
}

/// The string value of the field `key` of a flat JSON object: the text between the
/// quotes after the colon (escapes are not interpreted).
pub open spec fn json_string_value(json: Seq<char>, key: Seq<char>) -> Option<Seq<char>> {
    match json_value_start(json, key) {
        Some(rest) => if rest.len() > 0 && rest[0] == '"' {
            match find_char(rest.drop_first(), '"') {
                Some(e) => Some(rest.drop_first().take(e)),
                None => None,
            }
        } else {
            None
        },
        None => None,
    }
}

/// The position in `v` of the text after `"key"`, the colon and whitespace.
fn value_start(v: &[char], key: &str) -> (r: Option<usize>)
    ensures
        match json_value_start(v@, key@) {
            Some(rest) => r matches Some(p) && p <= v@.len() && v@.skip(p as int) == rest,
            None => r is None,
        },
{
    let mut needle: Vec<char> = Vec::new();
    needle.push('"');
    let kv = chars_of(key);
    let mut i: usize = 0;
    while i < kv.len()
        invariant
            0 <= i <= kv@.len(),
            needle@ == seq!['"'] + kv@.take(i as int),
        decreases kv.len() - i,
    {
        needle.push(kv[i]);
        assert(seq!['"'] + kv@.take(i + 1) =~= (seq!['"'] + kv@.take(i as int)).push(kv@[i as int]));
        i = i + 1;
    }
    needle.push('"');
    assert(kv@.take(kv@.len() as int) =~= kv@);
    assert(needle@ =~= seq!['"'] + key@ + seq!['"']);
    let found = find_exec(v, &needle);
    let i = match found {
        Some(i) => i,
        None => {
            return None;
        },
    };
    proof {
        lemma_find_from_facts(v@, needle@, 0);
    }
    let n = v.len();
    assert(i + needle@.len() <= n);
    let mut a = i + needle.len();
    let ghost after = v@.skip(a as int);
    assert(v@.skip(a as int) == after);
    while a < v.len() && is_whitespace(v[a])
        invariant
            i + needle@.len() <= a <= v@.len(),
            trim_start_ws(v@.skip(a as int)) == trim_start_ws(after),
        decreases v.len() - a,
    {
        assert(v@.skip(a as int).drop_first() =~= v@.skip(a + 1));
        a = a + 1;
    }
    assert(trim_start_ws(v@.skip(a as int)) == v@.skip(a as int));
    if a == v.len() || v[a] != ':' {
        return None;
    }
    assert(v@.skip(a as int).drop_first() =~= v@.skip(a + 1));
    let mut b = a + 1;
    let ghost after2 = v@.skip(b as int);
    while b < v.len() && is_whitespace(v[b])
        invariant
            a + 1 <= b <= v@.len(),
            trim_start_ws(v@.skip(b as int)) == trim_start_ws(after2),
        decreases v.len() - b,
    {
        assert(v@.skip(b as int).drop_first() =~= v@.skip(b + 1));
        b = b + 1;
    }
    assert(trim_start_ws(v@.skip(b as int)) == v@.skip(b as int));
    Some(b)
}

fn ascii_digit(c: char) -> (b: bool)
    ensures
        b == is_ascii_digit(c),
{
    '0' <= c && c <= '9'
}

/// Whether the character at `e` belongs to the number that starts at `start`.
fn number_char_exec(v: &[char], start: usize, e: usize) -> (b: bool)
    requires
        start <= e < v@.len(),
    ensures
        b == number_char_at(v@.skip(start as int), e - start),
{
    let ghost rest = v@.skip(start as int);
    let n = v.len();
    assert(rest.len() == n - start);
    assert(rest[e - start] == v@[e as int]);
    let c = v[e];
    if ascii_digit(c) || c == '.' || c == '-' {
        return true;
    }
    if c == 'e' || c == 'E' {
        if e + 1 < n {
            assert(rest[e + 1 - start] == v@[e + 1]);
            if ascii_digit(v[e + 1]) {
                return true;
            }
            if (v[e + 1] == '+' || v[e + 1] == '-') && e + 2 < n {
                assert(rest[e + 2 - start] == v@[e + 2]);
                return ascii_digit(v[e + 2]);
            }
        }
        return false;
    }
    if c == '+' && e > start && e + 1 < n {
        assert(rest[e - 1 - start] == v@[e - 1]);
        assert(rest[e + 1 - start] == v@[e + 1]);
        return (v[e - 1] == 'e' || v[e - 1] == 'E') && ascii_digit(v[e + 1]);
    }
    false
}

/// Extract a JSON number by key from a flat JSON object string, as its text.
pub fn extract_json_number(json: &str, key: &str) -> (r: Option<String>)
    ensures
        opt_view(r) == json_number_text(json@, key@),
{
    let v = chars_of(json);
    let start = match value_start(&v, key) {
        Some(p) => p,
        None => {
            return None;
        },
    };
    let ghost rest = v@.skip(start as int);
    let mut e = start;
    while e < v.len() && number_char_exec(&v, start, e)
        invariant
            start <= e <= v@.len(),
            rest == v@.skip(start as int),
            number_end_from(rest, 0) == number_end_from(rest, e - start),
        decreases v.len() - e,
    {
        assert(rest[e - start] == v@[e as int]);
        e = e + 1;
    }
    if e == v.len() {
        assert(number_end_from(rest, e - start) is None);
        return None;
    }
    assert(rest[e - start] == v@[e as int]);
    assert(rest.take(e - start) =~= v@.subrange(start as int, e as int));
    Some(string_of_range(&v, start, e))
}

/// Extract a JSON string value by key from a flat JSON object string.
pub fn extract_json_string(json: &str, key: &str) -> (r: Option<String>)
    ensures
        opt_view(r) == json_string_value(json@, key@),
{
    let v = chars_of(json);
    let start = match value_start(&v, key) {
        Some(p) => p,
        None => {
            return None;
        },
    };
    let ghost rest = v@.skip(start as int);
    if start == v.len() || v[start] != '"' {
        return None;
    }
    let q = ['"'];
    assert(q@ =~= seq!['"']);
    let found = crate::text::find_from_exec(&v, &q, start + 1);
    proof {
        crate::updater::lemma_find_shift(v@, seq!['"'], start + 1);
        lemma_find_from_facts(v@, seq!['"'], start + 1);
        assert(rest.drop_first() =~= v@.skip(start + 1));
    }
    match found {
        Some(e) => {
            assert(rest.drop_first().take(e - start - 1) =~= v@.subrange(start + 1, e as int));
            Some(string_of_range(&v, start + 1, e))
        },
        None => None,
    }
}

// ───────────────────────────── laws ─────────────────────────────

/// The JSON text `body` holds `field` (the text `,"key":`) with the decimal number `n`
/// right after it, followed by `next` (the text `,"next_key":`).
pub open spec fn reports_number(body: Seq<char>, field: Seq<char>, n: nat, next: Seq<char>) -> bool {
    exists|i: int| matches_at(body, field + spec_decimal(n) + next, i)
}

/// The status body reports the queue depth as the number of queued jobs and the
/// completed count as the number of completed jobs, each as a decimal number followed
/// by the next field, whatever else the state holds.
pub proof fn lemma_status_counts(
    s: MachineStateView,
    version: Seq<char>,
    coil: Seq<char>,
    low_alert: bool,
    now: u128,
)
    ensures
        reports_number(
            status_body(s, version, coil, low_alert, now),
            ",\"queue_depth\":"@,
            s.job_queue.len(),
            ",\"coil_remaining\":"@,
        ),
        reports_number(
            status_body(s, version, coil, low_alert, now),
            ",\"completed_count\":"@,
            s.completed_jobs.len(),
            ",\"agent_last_seen_secs_ago\":"@,
        ),
{
    let body = status_body(s, version, coil, low_alert, now);
    let head = "{\"version\":\""@ + version + "\",\"status\":\""@ + status_name(s.status)
        + "\",\"current_job\":"@ + current_job_json(s.current_job) + ",\"pieces_produced\":"@
        + spec_decimal(s.pieces_produced as nat);
    let q = ",\"queue_depth\":"@ + spec_decimal(s.job_queue.len()) + ",\"coil_remaining\":"@;
    let mid = coil + ",\"coil_low_alert\":"@ + bool_json(low_alert) + ",\"last_error\":\""@
        + s.last_error + "\",\"last_upload_secs_ago\":"@ + secs_json(
        spec_ago_secs(s.last_upload_at, now),
    );
    let c = ",\"completed_count\":"@ + spec_decimal(s.completed_jobs.len())
        + ",\"agent_last_seen_secs_ago\":"@;
    let tail = secs_json(spec_ago_secs(s.agent_last_seen_at, now)) + ",\"agent_last_error\":\""@
        + s.agent_last_error + "\",\"sensor_last_read_secs_ago\":"@ + secs_json(
        spec_ago_secs(s.sensor_last_read_at, now),
    ) + "}"@;
    assert(body =~= head + q + mid + c + tail);
    let i1 = head.len() as int;
    assert(body.subrange(i1, i1 + q.len()) =~= q);
    assert(matches_at(body, q, i1));
    let i2 = (head.len() + q.len() + mid.len()) as int;
    assert(body.subrange(i2, i2 + c.len()) =~= c);
    assert(matches_at(body, c, i2));
}

/// The status line of a response carries the reply's own code for every code the
/// server uses, with its reason phrase: `200 OK`, `301 Moved Permanently`,
/// `400 Bad Request`, `500 Internal Server Error`; any other code goes out as
/// `404 Not Found`.
pub proof fn lemma_response_status_line(code: u16, content_type: Seq<char>, body: Seq<char>)
    ensures
        code == 200 ==> starts_with(
            spec_response(code, content_type, body),
            "HTTP/1.1 "@ + spec_decimal(code as nat) + " OK\r\n"@,
        ),
        code == 301 ==> starts_with(
            spec_response(code, content_type, body),
            "HTTP/1.1 "@ + spec_decimal(code as nat) + " Moved Permanently\r\n"@,
        ),
        code == 400 ==> starts_with(
            spec_response(code, content_type, body),
            "HTTP/1.1 "@ + spec_decimal(code as nat) + " Bad Request\r\n"@,
        ),
        code == 500 ==> starts_with(
            spec_response(code, content_type, body),
            "HTTP/1.1 "@ + spec_decimal(code as nat) + " Internal Server Error\r\n"@,
        ),
        !(code == 200 || code == 301 || code == 400 || code == 500) ==> starts_with(
            spec_response(code, content_type, body),
            "HTTP/1.1 "@ + spec_decimal(404nat) + " Not Found\r\n"@,
        ),
{
    let r = spec_response(code, content_type, body);
    let w: u16 = if code == 200 || code == 301 || code == 400 || code == 500 { code } else { 404 };
    assert(wire_code(code) == w);
    let line = "HTTP/1.1 "@ + spec_decimal(w as nat) + " "@ + reason(code) + "\r\n"@;
    let rest = "Content-Type: "@ + content_type + "\r\nAccess-Control-Allow-Origin: *\r\nContent-Length: "@
        + spec_decimal(utf8_len(body)) + "\r\nConnection: close\r\n"@ + (if w == 301 {
        "Location: /dashboard\r\n"@
    } else {
        Seq::empty()
    }) + "\r\n"@ + body;
    reveal_strlit("\r\nContent-Type: ");
    reveal_strlit("Content-Type: ");
    reveal_strlit("\r\n");
    reveal_strlit(" ");
    reveal_strlit(" OK\r\n");
    reveal_strlit(" Moved Permanently\r\n");
    reveal_strlit(" Bad Request\r\n");
    reveal_strlit(" Internal Server Error\r\n");
    reveal_strlit(" Not Found\r\n");
    reveal_strlit("OK");
    reveal_strlit("Moved Permanently");
    reveal_strlit("Bad Request");
    reveal_strlit("Internal Server Error");
    reveal_strlit("Not Found");
    assert("\r\nContent-Type: "@ =~= "\r\n"@ + "Content-Type: "@);
    assert(r =~= line + rest);
    assert(r.take(line.len() as int) =~= line);
    assert(" "@ + reason(code) + "\r\n"@ =~= (if code == 200 {
        " OK\r\n"@
    } else if code == 301 {
        " Moved Permanently\r\n"@
    } else if code == 400 {
        " Bad Request\r\n"@
    } else if code == 500 {
        " Internal Server Error\r\n"@
    } else {
        " Not Found\r\n"@
    }));
    assert(line =~= "HTTP/1.1 "@ + spec_decimal(w as nat) + (" "@ + reason(code) + "\r\n"@));
}

proof fn lemma_sanitised_allowed(raw: Seq<char>)
    ensures
        forall|i: int| 0 <= i < sanitised(raw).len() ==> filename_char(#[trigger] sanitised(raw)[i]),
    decreases raw.len(),
{
    if raw.len() > 0 {
        let p = raw.drop_last();
        lemma_sanitised_allowed(p);
        let s = sanitised(raw);
        assert forall|i: int| 0 <= i < s.len() implies filename_char(#[trigger] s[i]) by {
            if i < sanitised(p).len() {
                assert(s[i] == sanitised(p)[i]);
            }
        }
    }
}

/// The file an accepted upload is stored under is a plain file name in the job
/// directory: it ends with `.csv`, holds only letters, digits, `-`, `_` and `.` (so no
/// `/` or `\`), and is neither `.` nor `..`.  It is the sanitised `X-Filename` header,
/// or `upload.csv` without one, with `.csv` added when missing.
pub proof fn lemma_upload_file_name(lines: Seq<Seq<char>>)
    ensures
        ({
            let f = upload_filename(lines);
            &&& ends_with(f, ".csv"@)
            &&& forall|i: int| 0 <= i < f.len() ==> filename_char(#[trigger] f[i])
            &&& forall|i: int| 0 <= i < f.len() ==> #[trigger] f[i] != '/' && f[i] != '\\'
            &&& f != "."@ && f != ".."@
            &&& f.len() >= 4
        }),
{
    reveal_strlit("upload.csv");
    reveal_strlit(".csv");
    reveal_strlit(".");
    reveal_strlit("..");
    let g = match request_header(lines, "x-filename"@) {
        Some(v) => sanitised(v),
        None => "upload.csv"@,
    };
    match request_header(lines, "x-filename"@) {
        Some(v) => {
            lemma_sanitised_allowed(v);
        },
        None => {
            assert forall|i: int| 0 <= i < g.len() implies filename_char(#[trigger] g[i]) by {
                assert(g == seq!['u', 'p', 'l', 'o', 'a', 'd', '.', 'c', 's', 'v']);
            }
        },
    }
    let f = upload_filename(lines);
    let ext = ".csv"@;
    assert(ext == seq!['.', 'c', 's', 'v']);
    if ends_with(g, ext) {
        assert(f == g);
    } else {
        assert(f == g + ext);
        assert(f.skip(f.len() - ext.len()) =~= ext);
        assert forall|i: int| 0 <= i < f.len() implies filename_char(#[trigger] f[i]) by {
            if i < g.len() {
                assert(f[i] == g[i]);
            } else {
                assert(f[i] == ext[i - g.len()]);
            }
        }
    }
    assert forall|i: int| 0 <= i < f.len() implies #[trigger] f[i] != '/' && f[i] != '\\' by {
        assert(filename_char(f[i]));
    }
}

proof fn lemma_sanitised_keeps_allowed(raw: Seq<char>)
    requires
        forall|i: int| 0 <= i < raw.len() ==> filename_char(#[trigger] raw[i]),
    ensures
        sanitised(raw) == raw,
    decreases raw.len(),
{
    if raw.len() > 0 {
        let p = raw.drop_last();
        assert forall|i: int| 0 <= i < p.len() implies filename_char(#[trigger] p[i]) by {
            assert(p[i] == raw[i]);
        }
        lemma_sanitised_keeps_allowed(p);
        assert(filename_char(raw[raw.len() - 1]));
        assert(p.push(raw.last()) =~= raw);
    }
}

/// A sanitised file name holds only letters, digits, `-`, `_` and `.`, and sanitising it
/// again changes nothing.
pub proof fn lemma_sanitise_idempotent(raw: Seq<char>)
    ensures
        forall|i: int| 0 <= i < sanitised(raw).len() ==> filename_char(#[trigger] sanitised(raw)[i]),
        sanitised(sanitised(raw)) == sanitised(raw),
{
    lemma_sanitised_allowed(raw);
    lemma_sanitised_keeps_allowed(sanitised(raw));
}

} // verus!
