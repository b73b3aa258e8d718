//! Building and serializing HTTP responses.
//!
//! A [`Response`] is assembled by the caller — status line data, an ordered
//! header list, an opaque body — and serialized in one shot to a
//! [`ByteSink`] in wire order. The exact bytes put on the wire are given by
//! [`wire_bytes`]; serialization reads only immutable state, so a response
//! may be sent more than once and yields identical bytes each time.

use vstd::prelude::*;
use vstd::string::StringExecFns;
use vstd::string::StringSliceAdditionalSpecFns;
use vstd::utf8::encode_utf8;

use crate::error::ServerError;
use crate::text::dec_rep;
use crate::text::push_dec;

verus! {

/// An HTTP response: status code and text, ordered headers, body bytes.
///
/// Headers are reproduced on the wire verbatim and in insertion order;
/// duplicates are kept and nothing (not even `Content-Length`) is injected
/// or validated — embedding a line terminator in a header name or value is
/// the caller's responsibility to avoid.
#[derive(Clone, Debug, PartialEq, Eq, Hash, Default)]
pub struct Response {
    /// The HTTP status code (e.g., 200 for OK, 404 for Not Found).
    pub status_code: u16,
    /// The status text paired with the code (e.g., "OK"); keeping it
    /// consistent with the code is the caller's responsibility.
    pub status_text: String,
    /// The headers of the response, each a (name, value) pair.
    pub headers: Vec<(String, String)>,
    /// The body of the response, opaque to this layer.
    pub body: Vec<u8>,
}

/// The characters of the status line. The version on the wire is always
/// `HTTP/1.1`, whatever version the originating request carried.
pub open spec fn status_line_chars(r: Response) -> Seq<char> {
    "HTTP/1.1 "@ + dec_rep(r.status_code as nat) + " "@ + r.status_text@ + "\r\n"@
}

/// The characters of one header line.
pub open spec fn header_line_chars(name: Seq<char>, value: Seq<char>) -> Seq<char> {
    name + ": "@ + value + "\r\n"@
}

/// The bytes of a header block: each header line in insertion order.
pub open spec fn headers_bytes(hs: Seq<(String, String)>) -> Seq<u8>
    decreases hs.len(),
{
    if hs.len() == 0 {
        Seq::empty()
    } else {
        encode_utf8(header_line_chars(hs[0].0@, hs[0].1@)) + headers_bytes(hs.drop_first())
    }
}

/// The exact bytes `send` puts on the wire: status line, header block,
/// blank line, body.
pub open spec fn wire_bytes(r: Response) -> Seq<u8> {
    encode_utf8(status_line_chars(r)) + headers_bytes(r.headers@) + encode_utf8("\r\n"@) + r.body@
}

/// A header block's bytes split around any point of the header list.
pub proof fn lemma_headers_bytes_concat(a: Seq<(String, String)>, b: Seq<(String, String)>)
    ensures
        headers_bytes(a + b) == headers_bytes(a) + headers_bytes(b),
    decreases a.len(),
{
    if a.len() == 0 {
        assert(a + b =~= b);
        assert(headers_bytes(a) + headers_bytes(b) =~= headers_bytes(b));
    } else {
        assert((a + b)[0] == a[0]);
        assert((a + b).drop_first() =~= a.drop_first() + b);
        lemma_headers_bytes_concat(a.drop_first(), b);
        assert(headers_bytes(a + b) =~= headers_bytes(a) + headers_bytes(b));
    }
}

/// Taking one more header extends the block by exactly that header's line.
proof fn lemma_headers_bytes_take_snoc(hs: Seq<(String, String)>, i: int)
    requires
        0 <= i < hs.len(),
    ensures
        headers_bytes(hs.take(i + 1)) == headers_bytes(hs.take(i)) + encode_utf8(
            header_line_chars(hs[i].0@, hs[i].1@),
        ),
{
    assert(hs.take(i + 1) =~= hs.take(i) + seq![hs[i]]);
    lemma_headers_bytes_concat(hs.take(i), seq![hs[i]]);
    assert(seq![hs[i]].drop_first() =~= Seq::<(String, String)>::empty());
    assert(headers_bytes(Seq::<(String, String)>::empty()) == Seq::<u8>::empty());
    assert(headers_bytes(seq![hs[i]]) =~= encode_utf8(header_line_chars(hs[i].0@, hs[i].1@)));
}

/// A byte sink the response writer serializes into: the collaborator
/// interface of one connection's writable stream. `sunk()` models the
/// bytes the sink has accepted so far; each write is admitted whole or
/// refused leaving the contents as they were, and a successful flush
/// leaves the sink with every accepted byte pushed onward.
///
/// A sink verified in this crate overrides the three model functions with
/// its real state; a sink implemented outside verification leaves the
/// defaults, and what is proved about writes to it is only as good as
/// that implementation.
pub trait ByteSink {
    /// The bytes the sink has accepted so far.
    open spec fn sunk(&self) -> Seq<u8> {
        Seq::empty()
    }

    /// Whether every accepted byte has been pushed onward: writing may
    /// leave bytes buffered, a successful flush may not.
    open spec fn flushed(&self) -> bool {
        true
    }

    /// Whether this sink admits every write and flush; one that does
    /// never returns an error, and keeps doing so.
    open spec fn infallible(&self) -> bool {
        false
    }

    /// Writes all of `data`, appending it to the accepted bytes, or
    /// reports the underlying I/O failure without accepting anything.
    fn write_all_bytes(&mut self, data: &[u8]) -> (r: Result<(), std::io::Error>)
        ensures
            final(self).infallible() == old(self).infallible(),
            old(self).infallible() ==> r is Ok,
            r is Ok ==> final(self).sunk() == old(self).sunk() + data@,
            r is Err ==> final(self).sunk() == old(self).sunk(),
    ;

    /// Flushes buffered bytes onward; the accepted contents are unchanged
    /// whether or not flushing succeeds.
    fn flush(&mut self) -> (r: Result<(), std::io::Error>)
        ensures
            final(self).infallible() == old(self).infallible(),
            old(self).infallible() ==> r is Ok,
            final(self).sunk() == old(self).sunk(),
            r is Ok ==> final(self).flushed(),
    ;
}

/// An in-memory [`ByteSink`]: accepts every write into a growable buffer.
pub struct BufferSink {
    /// The bytes accepted so far.
    pub data: Vec<u8>,
}

impl BufferSink {
    /// Creates an empty sink.
    pub fn new() -> (s: BufferSink)
        ensures
            s.data@ == Seq::<u8>::empty(),
    {
        BufferSink { data: Vec::new() }
    }
}

impl ByteSink for BufferSink {
    open spec fn sunk(&self) -> Seq<u8> {
        self.data@
    }

    open spec fn flushed(&self) -> bool {
        true
    }

    open spec fn infallible(&self) -> bool {
        true
    }

    fn write_all_bytes(&mut self, data: &[u8]) -> (r: Result<(), std::io::Error>) {
        self.data.extend_from_slice(data);
        Ok(())
    }

    fn flush(&mut self) -> (r: Result<(), std::io::Error>) {
        Ok(())
    }
}

impl Response {
    /// Creates a response with the given status code, status text and
    /// body; the header list starts empty.
    pub fn new(status_code: u16, status_text: &str, body: Vec<u8>) -> (r: Response)
        ensures
            r.status_code == status_code,
            r.status_text@ == status_text@,
            r.headers@ == Seq::<(String, String)>::empty(),
            r.body@ == body@,
    {
        Response { status_code, status_text: status_text.to_owned(), headers: Vec::new(), body }
    }

    /// Appends a (name, value) header pair; nothing else changes, nothing
    /// is validated or deduplicated.
    pub fn add_header(&mut self, name: &str, value: &str)
        ensures
            final(self).status_code == old(self).status_code,
            final(self).status_text == old(self).status_text,
            final(self).body == old(self).body,
            final(self).headers@.len() == old(self).headers@.len() + 1,
            final(self).headers@.subrange(0, old(self).headers@.len() as int) == old(
                self,
            ).headers@,
            final(self).headers@.last().0@ == name@,
            final(self).headers@.last().1@ == value@,
    {
        self.headers.push((name.to_owned(), value.to_owned()));
        proof {
            assert(self.headers@.subrange(0, old(self).headers@.len() as int) =~= old(
                self,
            ).headers@);
        }
    }

    /// The status line as a string: `HTTP/1.1 <code> <text>\r\n`.
    fn status_line_string(&self) -> (s: String)
        ensures
            s@ == status_line_chars(*self),
    {
        let mut s = "HTTP/1.1 ".to_owned();
        push_dec(&mut s, self.status_code as u64);
        s.append(" ");
        s.append(self.status_text.as_str());
        s.append("\r\n");
        proof {
            assert(s@ =~= status_line_chars(*self));
        }
        s
    }

    /// Serializes the response to its exact wire form in memory.
    pub fn to_bytes(&self) -> (out: Vec<u8>)
        ensures
            out@ == wire_bytes(*self),
    {
        let mut out: Vec<u8> = Vec::new();
        let sl = self.status_line_string();
        out.extend_from_slice(sl.as_str().as_bytes());
        proof {
            assert(self.headers@.take(0) =~= Seq::<(String, String)>::empty());
            assert(out@ =~= encode_utf8(status_line_chars(*self)) + headers_bytes(
                self.headers@.take(0),
            ));
        }
        let mut i: usize = 0;
        while i < self.headers.len()
            invariant
                i <= self.headers@.len(),
                out@ == encode_utf8(status_line_chars(*self)) + headers_bytes(
                    self.headers@.take(i as int),
                ),
            decreases self.headers@.len() - i,
        {
            let hl = header_line_string(&self.headers[i].0, &self.headers[i].1);
            out.extend_from_slice(hl.as_str().as_bytes());
            proof {
                lemma_headers_bytes_take_snoc(self.headers@, i as int);
                assert(out@ =~= encode_utf8(status_line_chars(*self)) + headers_bytes(
                    self.headers@.take(i + 1),
                ));
            }
            i += 1;
        }
        out.extend_from_slice("\r\n".as_bytes());
        out.extend_from_slice(self.body.as_slice());
        proof {
            assert(self.headers@.take(self.headers@.len() as int) =~= self.headers@);
            assert(out@ =~= wire_bytes(*self));
        }
        out
    }

    /// Serializes the response into `stream` in wire order: status line,
    /// each header, the blank line, the body, then a flush. Each section
    /// is written whole; the first failing write or flush returns an `Io`
    /// error at once and nothing further is attempted, so on failure the
    /// sink holds its original contents extended by a prefix of the wire
    /// bytes. Success is returned only when every write and the final
    /// flush succeeded, and is owed whenever the sink itself never fails.
    pub fn send<S: ByteSink>(&self, stream: &mut S) -> (r: Result<(), ServerError>)
        ensures
            r is Ok ==> final(stream).sunk() == old(stream).sunk() + wire_bytes(*self),
            r is Ok ==> final(stream).flushed(),
            r is Err ==> r->Err_0 is Io,
            r is Err ==> exists|k: int|
                0 <= k <= wire_bytes(*self).len() && final(stream).sunk() == old(stream).sunk()
                    + wire_bytes(*self).subrange(0, k),
            final(stream).infallible() == old(stream).infallible(),
            old(stream).infallible() ==> r is Ok,
    {
        let ghost w = wire_bytes(*self);
        let ghost base = stream.sunk();
        let sl = self.status_line_string();
        match stream.write_all_bytes(sl.as_str().as_bytes()) {
            Ok(()) => {},
            Err(e) => {
                proof {
                    assert(w.subrange(0, 0) =~= Seq::<u8>::empty());
                    assert(stream.sunk() =~= base + w.subrange(0, 0));
                }
                return Err(ServerError::Io(e));
            },
        }
        let mut i: usize = 0;
        while i < self.headers.len()
            invariant
                i <= self.headers@.len(),
                w == wire_bytes(*self),
                base == old(stream).sunk(),
                stream.infallible() == old(stream).infallible(),
                stream.sunk() == base + encode_utf8(status_line_chars(*self)) + headers_bytes(
                    self.headers@.take(i as int),
                ),
            decreases self.headers@.len() - i,
        {
            let hl = header_line_string(&self.headers[i].0, &self.headers[i].1);
            match stream.write_all_bytes(hl.as_str().as_bytes()) {
                Ok(()) => {},
                Err(e) => {
                    proof {
                        lemma_wire_prefix(*self, i as int);
                        assert(stream.sunk() =~= base + w.subrange(
                            0,
                            (encode_utf8(status_line_chars(*self)).len() + headers_bytes(
                                self.headers@.take(i as int),
                            ).len()) as int,
                        ));
                    }
                    return Err(ServerError::Io(e));
                },
            }
            proof {
                lemma_headers_bytes_take_snoc(self.headers@, i as int);
                assert(stream.sunk() =~= base + encode_utf8(status_line_chars(*self))
                    + headers_bytes(self.headers@.take(i + 1)));
            }
            i += 1;
        }
        proof {
            assert(self.headers@.take(self.headers@.len() as int) =~= self.headers@);
        }
        match stream.write_all_bytes("\r\n".as_bytes()) {
            Ok(()) => {},
            Err(e) => {
                proof {
                    lemma_wire_prefix(*self, self.headers@.len() as int);
                    assert(stream.sunk() =~= base + w.subrange(
                        0,
                        (encode_utf8(status_line_chars(*self)).len() + headers_bytes(
                            self.headers@,
                        ).len()) as int,
                    ));
                }
                return Err(ServerError::Io(e));
            },
        }
        match stream.write_all_bytes(self.body.as_slice()) {
            Ok(()) => {},
            Err(e) => {
                proof {
                    let k = encode_utf8(status_line_chars(*self)).len() + headers_bytes(
                        self.headers@,
                    ).len() + encode_utf8("\r\n"@).len();
                    assert(w.subrange(0, k as int) =~= encode_utf8(status_line_chars(*self))
                        + headers_bytes(self.headers@) + encode_utf8("\r\n"@));
                    assert(stream.sunk() =~= base + w.subrange(0, k as int));
                }
                return Err(ServerError::Io(e));
            },
        }
        proof {
            assert(stream.sunk() =~= base + w);
        }
        match stream.flush() {
            Ok(()) => Ok(()),
            Err(e) => {
                proof {
                    assert(w.subrange(0, w.len() as int) =~= w);
                }
                Err(ServerError::Io(e))
            },
        }
    }
}

/// The first part of the wire bytes — status line plus the first `i`
/// header lines — is a prefix of the whole.
proof fn lemma_wire_prefix(r: Response, i: int)
    requires
        0 <= i <= r.headers@.len(),
    ensures
        ({
            let a = encode_utf8(status_line_chars(r));
            let h = headers_bytes(r.headers@.take(i));
            a.len() + h.len() <= wire_bytes(r).len() && a + h == wire_bytes(r).subrange(
                0,
                (a.len() + h.len()) as int,
            )
        }),
{
    let a = encode_utf8(status_line_chars(r));
    let h = headers_bytes(r.headers@.take(i));
    assert(r.headers@ =~= r.headers@.take(i) + r.headers@.skip(i));
    lemma_headers_bytes_concat(r.headers@.take(i), r.headers@.skip(i));
    assert(a + h == wire_bytes(r).subrange(0, (a.len() + h.len()) as int)) by {
        assert(wire_bytes(r) =~= a + h + (headers_bytes(r.headers@.skip(i)) + encode_utf8("\r\n"@)
            + r.body@));
        assert(wire_bytes(r).subrange(0, (a.len() + h.len()) as int) =~= a + h);
    }
}

/// One header line as a string: `<name>: <value>\r\n`.
fn header_line_string(name: &String, value: &String) -> (s: String)
    ensures
        s@ == header_line_chars(name@, value@),
{
    let mut s = name.clone();
    s.append(": ");
    s.append(value.as_str());
    s.append("\r\n");
    proof {
        assert(s@ =~= header_line_chars(name@, value@));
    }
    s
}

/// Law: serialization reads only the response's immutable state, so the
/// bytes appended by a send are a function of the response alone; sending
/// the same response twice in a row leaves the sink holding two
/// byte-identical copies of its wire form.
pub proof fn lemma_send_twice_identical(r: Response, s: Seq<u8>)
    ensures
        ({
            let w = wire_bytes(r);
            let after = s + w + w;
            after.subrange(s.len() as int, (s.len() + w.len()) as int) == after.subrange(
                (s.len() + w.len()) as int,
                (s.len() + w.len() + w.len()) as int,
            )
        }),
{
    let w = wire_bytes(r);
    let after = s + w + w;
    assert(after.subrange(s.len() as int, (s.len() + w.len()) as int) =~= w);
    assert(after.subrange((s.len() + w.len()) as int, (s.len() + w.len() + w.len()) as int) =~= w);
}

} // verus!
