//! A stand-in job backend for local development: it serves a fixed list of fixture
//! jobs one at a time, serving the same job again until the agent confirms it.
use vstd::prelude::*;

use crate::http::{lines_view, spec_lines};
use crate::text::{chars_of, contains, contains_exec, decimal, owned, push_str, spec_decimal, tokens};
use vstd::utf8::{decode_utf8, valid_utf8};

verus! {

/// Where the stand-in backend is in its list of jobs.
pub struct MockQueue {
    /// The position of the next job to serve; the list's length once all are done.
    pub next: usize,
    /// The job at `next` was served and is not confirmed yet.
    pub pending: bool,
    /// The end of the list was already announced.
    pub empty_logged: bool,
}

/// The queue is consistent with a list of `total` jobs: a served job is one of them.
pub open spec fn mock_wf(q: MockQueue, total: usize) -> bool {
    q.next <= total && (q.pending ==> q.next < total)
}

/// What a poll for pending jobs gets.
pub enum MockPoll {
    /// The job at `index`; `fresh` when it was not served before.
    Serve { index: usize, fresh: bool },
    /// Nothing; `first` when this is the first poll to find the list exhausted.
    Empty { first: bool },
}

impl MockQueue {
    /// A queue at the start of the list.
    pub fn new() -> (q: MockQueue)
        ensures
            q.next == 0 && !q.pending && !q.empty_logged,
    {
        MockQueue { next: 0, pending: false, empty_logged: false }
    }

    /// A poll for pending jobs: the unconfirmed job again, else the next job, else nothing.
    pub fn poll(&mut self, total: usize) -> (r: MockPoll)
        requires
            mock_wf(*old(self), total),
        ensures
            mock_wf(*final(self), total),
            final(self).next == old(self).next,
            final(self).pending == old(self).pending,
            match r {
                MockPoll::Serve { index, fresh } => index == old(self).next && index < total && fresh
                    == !old(self).pending && final(self).empty_logged == old(self).empty_logged,
                MockPoll::Empty { first } => old(self).next >= total && !old(self).pending && first
                    == !old(self).empty_logged && final(self).empty_logged,
            },
    {
        if self.next >= total || self.pending {
            if self.pending {
                MockPoll::Serve { index: self.next, fresh: false }
            } else {
                let first = !self.empty_logged;
                self.empty_logged = true;
                MockPoll::Empty { first }
            }
        } else {
            MockPoll::Serve { index: self.next, fresh: true }
        }
    }

    /// A freshly served job's fixture was read and sent: it awaits confirmation.
    pub fn mark_served(&mut self, total: usize)
        requires
            old(self).next < total,
        ensures
            mock_wf(*final(self), total),
            final(self).next == old(self).next,
            final(self).pending,
            final(self).empty_logged == old(self).empty_logged,
    {
        self.pending = true;
    }

    /// A confirmation: the served job is done and the next one comes up.  Returns
    /// whether there was a served job to confirm.
    pub fn complete(&mut self, total: usize) -> (acknowledged: bool)
        requires
            mock_wf(*old(self), total),
        ensures
            mock_wf(*final(self), total),
            acknowledged == old(self).pending,
            acknowledged ==> final(self).next == old(self).next + 1 && !final(self).pending,
            !acknowledged ==> final(self).next == old(self).next && final(self).pending == old(self).pending,
            final(self).empty_logged == old(self).empty_logged,
    {
        if self.pending && self.next < total {
            self.next = self.next + 1;
            self.pending = false;
            true
        } else {
            false
        }
    }
}

/// The endpoint of a request to the stand-in backend.
pub enum MockRoute {
    Pending,
    Complete,
    Health,
    NotFound,
}

/// The request line of a raw request read as strict UTF-8 (empty when it is not).
pub open spec fn mock_request_line(buf: Seq<u8>) -> Seq<char> {
    let text = if valid_utf8(buf) { decode_utf8(buf) } else { Seq::empty() };
    if spec_lines(text).len() > 0 {
        spec_lines(text)[0]
    } else {
        Seq::empty()
    }
}

pub open spec fn word_or(words: Seq<Seq<char>>, i: int, default: Seq<char>) -> Seq<char> {
    if 0 <= i < words.len() {
        words[i]
    } else {
        default
    }
}

/// The endpoint of a method and path at the stand-in backend.
pub open spec fn spec_mock_route(method: Seq<char>, path: Seq<char>) -> MockRoute {
    if method == "GET"@ && path == "/api/jobs/howick/pending"@ {
        MockRoute::Pending
    } else if method == "POST"@ && contains(path, "/complete"@) {
        MockRoute::Complete
    } else if method == "GET"@ && path == "/health"@ {
        MockRoute::Health
    } else {
        MockRoute::NotFound
    }
}

/// Route a raw request to the stand-in backend.
pub fn mock_route(buf: &[u8]) -> (r: MockRoute)
    ensures
        ({
            let words = tokens(mock_request_line(buf@));
            r == spec_mock_route(word_or(words, 0, Seq::empty()), word_or(words, 1, "/"@))
        }),
{
    let text = match crate::http::utf8_text(buf) {
        Some(t) => t,
        None => String::new(),
    };
    let v = chars_of(text.as_str());
    let lines = crate::http::lines_of(&v);
    let first = if lines.len() > 0 {
        chars_of(lines[0].as_str())
    } else {
        Vec::new()
    };
    let words = crate::text::split_whitespace(&first);
    let method = if words.len() > 0 {
        owned(words[0].as_str())
    } else {
        String::new()
    };
    let path = if words.len() > 1 {
        owned(words[1].as_str())
    } else {
        owned("/")
    };
    let m = method.as_str();
    let p = path.as_str();
    if crate::text::str_eq(m, "GET") && crate::text::str_eq(p, "/api/jobs/howick/pending") {
        MockRoute::Pending
    } else if crate::text::str_eq(m, "POST") && contains_exec(p, "/complete") {
        MockRoute::Complete
    } else if crate::text::str_eq(m, "GET") && crate::text::str_eq(p, "/health") {
        MockRoute::Health
    } else {
        MockRoute::NotFound
    }
}

/// The reason phrase of the stand-in backend's replies.
pub open spec fn mock_reason(code: u16) -> Seq<char> {
    if code == 200 {
        "OK"@
    } else if code == 400 {
        "Bad Request"@
    } else if code == 500 {
        "Internal Server Error"@
    } else {
        "Not Found"@
    }
}

/// The full HTTP response of the stand-in backend.
pub open spec fn spec_mock_response(code: u16, body: Seq<char>) -> Seq<char> {
    "HTTP/1.1 "@ + spec_decimal(code as nat) + " "@ + mock_reason(code)
        + "\r\nContent-Type: application/json\r\nContent-Length: "@ + spec_decimal(
        crate::http::utf8_len(body),
    ) + "\r\nConnection: close\r\n\r\n"@ + body
}

/// The text of a response of the stand-in backend.
pub fn mock_response(code: u16, body: &str) -> (r: String)
    ensures
        r@ == spec_mock_response(code, body@),
{
    let reason = if code == 200 {
        "OK"
    } else if code == 400 {
        "Bad Request"
    } else if code == 500 {
        "Internal Server Error"
    } else {
        "Not Found"
    };
    let bv = chars_of(body);
    let len = crate::http::byte_len(&bv);
    let mut r = owned("HTTP/1.1 ");
    push_str(&mut r, decimal(code as u128).as_str());
    push_str(&mut r, " ");
    push_str(&mut r, reason);
    push_str(&mut r, "\r\nContent-Type: application/json\r\nContent-Length: ");
    push_str(&mut r, decimal(len).as_str());
    push_str(&mut r, "\r\nConnection: close\r\n\r\n");
    push_str(&mut r, body);
    r
}

} // verus!
