//! Parsing and validation of the HTTP request line.
//!
//! [`Request::from_line`] turns one raw line, as read from a connection's
//! byte stream with its terminator still attached, into a validated
//! [`Request`] or a precise [`ServerError::InvalidRequest`]. Reading the
//! line from the stream (and setting its read deadline) is the caller's
//! concern: the parser itself is a pure, single-pass function of the line.

use vstd::prelude::*;
use vstd::string::StrSliceExecFns;
use vstd::string::StringExecFns;
use vstd::string::StringSliceAdditionalSpecFns;

use crate::error::ServerError;
use crate::text::dec_rep;
use crate::text::eq_ignore_case;
use crate::text::is_ws;
use crate::text::push_dec;
use crate::text::split_ws;
use crate::text::str_eq_ignore_case;
use crate::text::tokens_of;

verus! {

/// Maximum length allowed for the raw request line in bytes, its
/// terminator included.
const MAX_REQUEST_LINE_LENGTH: usize = 8190;

/// Number of tokens a request line must split into.
const REQUEST_PARTS: usize = 3;

/// An HTTP request line, decomposed and validated: method, path and
/// protocol version, each stored exactly as the client sent it.
#[derive(Debug, Clone, PartialEq)]
pub struct Request {
    /// HTTP method of the request.
    pub method: String,
    /// Requested path.
    pub path: String,
    /// HTTP version of the request.
    pub version: String,
}

/// A method token the parser accepts, compared without regard to ASCII
/// case.
pub open spec fn valid_method(m: Seq<char>) -> bool {
    ||| eq_ignore_case(m, "GET"@)
    ||| eq_ignore_case(m, "POST"@)
    ||| eq_ignore_case(m, "PUT"@)
    ||| eq_ignore_case(m, "DELETE"@)
    ||| eq_ignore_case(m, "HEAD"@)
    ||| eq_ignore_case(m, "OPTIONS"@)
    ||| eq_ignore_case(m, "PATCH"@)
}

/// A path token the parser accepts: anything starting with a slash.
pub open spec fn valid_path(p: Seq<char>) -> bool {
    p.len() > 0 && p[0] == '/'
}

/// A version token the parser accepts, compared without regard to ASCII
/// case.
pub open spec fn valid_version(v: Seq<char>) -> bool {
    eq_ignore_case(v, "HTTP/1.0"@) || eq_ignore_case(v, "HTTP/1.1"@)
}

/// A line that satisfies the whole wire grammar: exactly three tokens,
/// each valid in its place.
pub open spec fn grammatical(line: Seq<char>) -> bool {
    let toks = tokens_of(line);
    &&& toks.len() == 3
    &&& valid_method(toks[0])
    &&& valid_path(toks[1])
    &&& valid_version(toks[2])
}

/// The message reported when the raw line of `n` bytes exceeds the bound.
pub open spec fn too_long_msg(n: nat) -> Seq<char> {
    "Request line too long: "@ + dec_rep(n) + " characters (max 8190)"@
}

/// The message reported when the line splits into `n` tokens instead of 3.
pub open spec fn wrong_parts_msg(n: nat) -> Seq<char> {
    "Invalid request line: expected 3 parts, got "@ + dec_rep(n)
}

/// The message reported for a method outside the accepted set.
pub open spec fn bad_method_msg(m: Seq<char>) -> Seq<char> {
    "Invalid HTTP method: "@ + m
}

/// The message reported for a path that does not start with a slash.
pub open spec fn bad_path_msg() -> Seq<char> {
    "Invalid path: must start with '/'"@
}

/// The message reported for an unsupported protocol version.
pub open spec fn bad_version_msg(v: Seq<char>) -> Seq<char> {
    "Invalid HTTP version: "@ + v
}

/// Holds when `r` is an `InvalidRequest` error carrying exactly `msg`.
pub open spec fn rejects_with(r: Result<Request, ServerError>, msg: Seq<char>) -> bool {
    r matches Err(ServerError::InvalidRequest(s)) && s@ == msg
}

/// What parsing a raw line of `n` bytes with characters `line` must
/// return: the first grammar violation in checking order decides the
/// error and its message; a line with no violation yields a `Request`
/// carrying the three tokens verbatim.
pub open spec fn parse_outcome(n: nat, line: Seq<char>, r: Result<Request, ServerError>) -> bool {
    let toks = tokens_of(line);
    if n > 8190 {
        rejects_with(r, too_long_msg(n))
    } else if toks.len() != 3 {
        rejects_with(r, wrong_parts_msg(toks.len()))
    } else if !valid_method(toks[0]) {
        rejects_with(r, bad_method_msg(toks[0]))
    } else if !valid_path(toks[1]) {
        rejects_with(r, bad_path_msg())
    } else if !valid_version(toks[2]) {
        rejects_with(r, bad_version_msg(toks[2]))
    } else {
        &&& r matches Ok(req)
        &&& req.method@ == toks[0]
        &&& req.path@ == toks[1]
        &&& req.version@ == toks[2]
    }
}

impl Request {
    /// A request is well formed when each field satisfies the wire
    /// grammar; construction by parsing never yields anything else.
    pub open spec fn wf(&self) -> bool {
        &&& valid_method(self.method@)
        &&& valid_path(self.path@)
        &&& valid_version(self.version@)
    }

    /// Parses and validates one raw request line, terminator included.
    ///
    /// The line must not exceed 8190 bytes as read; it must split on runs
    /// of whitespace into exactly three tokens; the method must be one of
    /// the fixed set (checked case-insensitively, stored as received); the
    /// path must start with `/`; the version must be `HTTP/1.0` or
    /// `HTTP/1.1` up to ASCII case. The first violation in that order
    /// decides the error.
    pub fn from_line(line: &str) -> (r: Result<Request, ServerError>)
        ensures
            parse_outcome((line.spec_bytes().len() as usize) as nat, line@, r),
            r matches Ok(req) ==> req.wf(),
    {
        let n = line.len();
        if n > MAX_REQUEST_LINE_LENGTH {
            let mut m = "Request line too long: ".to_owned();
            push_dec(&mut m, n as u64);
            m.append(" characters (max 8190)");
            proof {
                assert(m@ =~= too_long_msg(n as nat));
            }
            return Err(ServerError::InvalidRequest(m));
        }
        let mut parts = split_ws(line);
        if parts.len() != REQUEST_PARTS {
            let mut m = "Invalid request line: expected 3 parts, got ".to_owned();
            push_dec(&mut m, parts.len() as u64);
            proof {
                assert(m@ =~= wrong_parts_msg(tokens_of(line@).len()));
            }
            return Err(ServerError::InvalidRequest(m));
        }
        let ghost toks = tokens_of(line@);
        let ghost pv = parts@;
        proof {
            assert(pv[0]@ == toks[0]);
            assert(pv[1]@ == toks[1]);
            assert(pv[2]@ == toks[2]);
        }
        let version = parts.pop().unwrap();
        let path = parts.pop().unwrap();
        let method = parts.pop().unwrap();
        proof {
            assert(method@ == toks[0]);
            assert(path@ == toks[1]);
            assert(version@ == toks[2]);
        }
        if !Self::is_valid_method(method.as_str()) {
            let mut m = "Invalid HTTP method: ".to_owned();
            m.append(method.as_str());
            proof {
                assert(m@ =~= bad_method_msg(toks[0]));
            }
            return Err(ServerError::InvalidRequest(m));
        }
        if !starts_with_slash(path.as_str()) {
            return Err(ServerError::InvalidRequest("Invalid path: must start with '/'".to_owned()));
        }
        if !Self::is_valid_version(version.as_str()) {
            let mut m = "Invalid HTTP version: ".to_owned();
            m.append(version.as_str());
            proof {
                assert(m@ =~= bad_version_msg(toks[2]));
            }
            return Err(ServerError::InvalidRequest(m));
        }
        Ok(Request { method, path, version })
    }

    /// Returns the HTTP method of the request.
    pub fn method(&self) -> (m: &str)
        ensures
            m@ == self.method@,
    {
        self.method.as_str()
    }

    /// Returns the requested path of the request.
    pub fn path(&self) -> (p: &str)
        ensures
            p@ == self.path@,
    {
        self.path.as_str()
    }

    /// Returns the HTTP version of the request.
    pub fn version(&self) -> (v: &str)
        ensures
            v@ == self.version@,
    {
        self.version.as_str()
    }

    /// Checks a method token against the fixed accepted set, ignoring
    /// ASCII case.
    pub fn is_valid_method(method: &str) -> (r: bool)
        ensures
            r == valid_method(method@),
    {
        str_eq_ignore_case(method, "GET") || str_eq_ignore_case(method, "POST")
            || str_eq_ignore_case(method, "PUT") || str_eq_ignore_case(method, "DELETE")
            || str_eq_ignore_case(method, "HEAD") || str_eq_ignore_case(method, "OPTIONS")
            || str_eq_ignore_case(method, "PATCH")
    }

    /// Checks a version token against the two supported versions,
    /// ignoring ASCII case.
    pub fn is_valid_version(version: &str) -> (r: bool)
        ensures
            r == valid_version(version@),
    {
        str_eq_ignore_case(version, "HTTP/1.0") || str_eq_ignore_case(version, "HTTP/1.1")
    }

    /// Renders the request back as its one-line `method path version`
    /// form, fields separated by single spaces.
    pub fn request_line(&self) -> (line: String)
        ensures
            line@ == self.method@ + " "@ + self.path@ + " "@ + self.version@,
    {
        let mut line = self.method.clone();
        line.append(" ");
        line.append(self.path.as_str());
        line.append(" ");
        line.append(self.version.as_str());
        line
    }
}

/// Decides [`valid_path`].
fn starts_with_slash(p: &str) -> (r: bool)
    ensures
        r == valid_path(p@),
{
    p.unicode_len() > 0 && p.get_char(0) == '/'
}

/// A token: a nonempty run of non-whitespace characters.
pub open spec fn is_token(t: Seq<char>) -> bool {
    t.len() > 0 && (forall|i: int| 0 <= i < t.len() ==> !is_ws(#[trigger] t[i]))
}

/// Law: a request line assembled from any three tokens, separated by
/// single spaces and ended by CRLF, splits back into exactly those three
/// tokens; when they are a valid method, path and version, the line
/// satisfies the whole wire grammar, so `from_line`'s contract forces it
/// to return a `Request` carrying the three tokens verbatim.
pub proof fn lemma_request_line_tokens(m: Seq<char>, p: Seq<char>, v: Seq<char>)
    requires
        is_token(m),
        is_token(p),
        is_token(v),
    ensures
        tokens_of(m + seq![' '] + p + seq![' '] + v + seq!['\r', '\n']) == seq![m, p, v],
        valid_method(m) && valid_path(p) && valid_version(v) ==> grammatical(
            m + seq![' '] + p + seq![' '] + v + seq!['\r', '\n'],
        ),
{
    let line = m + seq![' '] + p + seq![' '] + v + seq!['\r', '\n'];
    let after_m = seq![' '] + p + seq![' '] + v + seq!['\r', '\n'];
    let after_sp1 = p + (seq![' '] + v + seq!['\r', '\n']);
    let after_p = seq![' '] + v + seq!['\r', '\n'];
    let after_sp2 = v + seq!['\r', '\n'];
    let crlf = seq!['\r', '\n'];
    assert(is_ws(' '));
    assert(is_ws('\r'));
    assert(is_ws('\n'));
    assert(line =~= m + after_m);
    crate::text::lemma_tokens_of_token_prefix(m, after_m);
    assert(after_m =~= seq![' '] + after_sp1);
    crate::text::lemma_tokens_of_ws_prefix(seq![' '], after_sp1);
    assert(after_sp1 =~= p + after_p);
    crate::text::lemma_tokens_of_token_prefix(p, after_p);
    assert(after_p =~= seq![' '] + after_sp2);
    crate::text::lemma_tokens_of_ws_prefix(seq![' '], after_sp2);
    crate::text::lemma_tokens_of_token_prefix(v, crlf);
    crate::text::lemma_tokens_of_ws_prefix(crlf, Seq::<char>::empty());
    assert(crlf =~= crlf + Seq::<char>::empty());
    assert(tokens_of(crlf) == Seq::<Seq<char>>::empty());
    assert(tokens_of(line) =~= seq![m, p, v]);
}

} // verus!
