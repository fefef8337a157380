//! Request framing: assembling one HTTP request out of a raw byte stream that
//! arrives in arbitrary chunks.
//!
//! The framer never touches a socket. The embedding loop reads chunks and
//! feeds them to [`Framer::push`]; [`Framer::needs_more`] says whether another
//! read is required (no `\r\n\r\n` seen yet, or fewer body bytes than the
//! declared `Content-Length`); [`Framer::result`] splits what accumulated.
//! Every outcome is a function of the accumulated byte sequence alone, so how
//! the stream was chunked cannot change what is framed.
use vstd::prelude::*;

use crate::bytes::copy_range;
use crate::bytes::find_terminator;
use crate::bytes::has_terminator;
use crate::bytes::is_terminator_at;
use crate::bytes::lemma_term_scan_bounds;
use crate::bytes::lemma_term_scan_first;
use crate::bytes::term_scan;
use crate::headers::content_length;
use crate::headers::content_length_of;

verus! {

/// The header region of `s`: everything through the first `\r\n\r\n`.
/// Meaningful only when `has_terminator(s)`.
pub open spec fn head_of(s: Seq<u8>) -> Seq<u8> {
    s.take(term_scan(s, 0) + 4)
}

/// The body bytes of `s`: everything past the first `\r\n\r\n`.
/// Meaningful only when `has_terminator(s)`.
pub open spec fn body_of(s: Seq<u8>) -> Seq<u8> {
    s.skip(term_scan(s, 0) + 4)
}

/// More bytes are required before a request can be framed: either no header
/// terminator has arrived, or the body is still shorter than the length the
/// headers declare.
pub open spec fn needs_more_spec(s: Seq<u8>) -> bool {
    if !has_terminator(s) {
        true
    } else {
        body_of(s).len() < content_length_of(head_of(s))
    }
}

/// What one attempt at framing a request yields once the stream stops
/// supplying bytes.
pub enum Frame {
    /// The stream closed before any byte arrived: a clean disconnect.
    Empty,
    /// Bytes arrived but the stream closed before the header terminator: no
    /// request can be framed and the connection is abandoned.
    Incomplete,
    /// A framed request: the header region through its `\r\n\r\n`, and every
    /// body byte that accumulated after it.
    Request { head: Vec<u8>, body: Vec<u8> },
}

/// Accumulates stream chunks until they hold one complete request.
pub struct Framer {
    buf: Vec<u8>,
}

impl View for Framer {
    type V = Seq<u8>;

    closed spec fn view(&self) -> Seq<u8> {
        self.buf@
    }
}

impl Framer {
    /// A framer that has seen no bytes.
    pub fn new() -> (f: Framer)
        ensures
            f@ == Seq::<u8>::empty(),
    {
        Framer { buf: Vec::new() }
    }

    /// Feeds the next chunk read off the stream.
    pub fn push(&mut self, chunk: &[u8])
        ensures
            final(self)@ == old(self)@ + chunk@,
    {
        let mut i: usize = 0;
        while i < chunk.len()
            invariant
                0 <= i <= chunk@.len(),
                self.buf@ =~= old(self)@ + chunk@.take(i as int),
            decreases chunk@.len() - i,
        {
            self.buf.push(chunk[i]);
            assert(self.buf@ =~= old(self)@ + chunk@.take(i + 1 as int));
            i += 1;
        }
        assert(self.buf@ =~= old(self)@ + chunk@);
    }

    /// Whether another read is required before a request can be framed.
    pub fn needs_more(&self) -> (r: bool)
        ensures
            r == needs_more_spec(self@),
    {
        let n = self.buf.len();
        if n < 4 {
            proof {
                lemma_term_scan_bounds(self.buf@, 0);
            }
            return true;
        }
        let t = find_terminator(self.buf.as_slice());
        proof {
            lemma_term_scan_bounds(self.buf@, 0);
        }
        if t > n - 4 {
            return true;
        }
        let head = copy_range(self.buf.as_slice(), 0, t + 4);
        let clen = content_length(head.as_slice());
        let body_len = n - (t + 4);
        proof {
            assert(head@ =~= head_of(self.buf@));
            assert(body_of(self.buf@).len() == body_len);
        }
        body_len < clen
    }

    /// Splits the accumulated bytes into a framed request, once the stream
    /// has stopped supplying bytes (because the request is complete or the
    /// peer closed early; a short body is tolerated as it stands).
    pub fn result(&self) -> (r: Frame)
        ensures
            self@.len() == 0 ==> (r is Empty),
            self@.len() > 0 && !has_terminator(self@) ==> (r is Incomplete),
            has_terminator(self@) ==> (r matches Frame::Request { head, body }
                && head@ == head_of(self@) && body@ == body_of(self@)),
    {
        let n = self.buf.len();
        if n == 0 {
            proof {
                lemma_term_scan_bounds(self.buf@, 0);
            }
            return Frame::Empty;
        }
        let t = find_terminator(self.buf.as_slice());
        proof {
            lemma_term_scan_bounds(self.buf@, 0);
        }
        if n < 4 || t > n - 4 {
            return Frame::Incomplete;
        }
        let head = copy_range(self.buf.as_slice(), 0, t + 4);
        let body = copy_range(self.buf.as_slice(), t + 4, n);
        proof {
            assert(head@ =~= head_of(self@));
            assert(body@ =~= body_of(self@));
        }
        Frame::Request { head, body }
    }
}

/// A message with a terminator frames the same way whatever bytes follow it
/// on the stream: the head is unchanged and the later bytes land after the
/// message's own body. With the response round-trip laws this is what keeps
/// back-to-back messages on one connection free of cross-talk: a reader that
/// takes the head and then `Content-Length` body bytes consumes exactly one
/// message and leaves the rest.
pub proof fn lemma_framing_ignores_later_bytes(msg: Seq<u8>, rest: Seq<u8>)
    requires
        has_terminator(msg),
    ensures
        term_scan(msg + rest, 0) == term_scan(msg, 0),
        has_terminator(msg + rest),
        head_of(msg + rest) == head_of(msg),
        body_of(msg + rest) == body_of(msg) + rest,
{
    let t = term_scan(msg, 0);
    let stream = msg + rest;
    lemma_term_scan_bounds(msg, 0);
    assert forall|j: int| 0 <= j < t implies !is_terminator_at(stream, j) by {
        assert(stream[j] == msg[j]);
        assert(stream[j + 1] == msg[j + 1]);
        assert(stream[j + 2] == msg[j + 2]);
        assert(stream[j + 3] == msg[j + 3]);
        assert(!is_terminator_at(msg, j));
    }
    assert(is_terminator_at(stream, t));
    lemma_term_scan_first(stream, 0, t);
    assert(head_of(stream) =~= head_of(msg));
    assert(body_of(stream) =~= body_of(msg) + rest);
}

/// Once the header terminator has arrived and at least the declared number of
/// body bytes has accumulated, framing asks for nothing further: a body that
/// arrived split across any number of partial reads is framed then and there.
pub proof fn lemma_frame_complete(s: Seq<u8>)
    requires
        has_terminator(s),
        body_of(s).len() >= content_length_of(head_of(s)),
    ensures
        !needs_more_spec(s),
{
}

} // verus!
