//! Requests, and how they are read from the lines and bytes of a stream.

use vstd::prelude::*;
use vstd::string::{StringExecFns, StrSliceExecFns};
use crate::error::HttpError;
use crate::headers::HeaderMap;
use crate::text::{
    is_ws, lemma_trim_end_ws_suffix, trim_start, same_text, find_char, is_blank, lemma_pos_of_after, parse_decimal, parse_usize, pos_of, split_once, trim,
    trim_end, trim_str,
};

verus! {

/// The request methods this server recognises.
#[derive(Debug, Clone, Copy, PartialEq, Eq, Structural)]
pub enum RequestMethod {
    Get,
    Head,
    Post,
}

/// The canonical name of a method.
pub open spec fn method_name(m: RequestMethod) -> Seq<char> {
    match m {
        RequestMethod::Get => "GET"@,
        RequestMethod::Head => "HEAD"@,
        RequestMethod::Post => "POST"@,
    }
}

/// The upper-case form of a string by Unicode's case mapping.
pub uninterp spec fn upper_of(s: Seq<char>) -> Seq<char>;

/// Relies on `str::to_uppercase` for the upper-case form of `s`, which
/// depends on the characters of `s` alone.
#[verifier::external_body]
fn to_upper(s: &str) -> (r: String)
    ensures
        r@ == upper_of(s@),
{
    s.to_uppercase()
}

/// The method that an upper-cased token names.
pub open spec fn method_named(u: Seq<char>) -> Option<RequestMethod> {
    if u == "GET"@ {
        Some(RequestMethod::Get)
    } else if u == "HEAD"@ {
        Some(RequestMethod::Head)
    } else if u == "POST"@ {
        Some(RequestMethod::Post)
    } else {
        None
    }
}

impl RequestMethod {
    /// The method that an already upper-cased token names, if any.
    pub fn from_upper(u: &str) -> (r: Option<RequestMethod>)
        ensures
            r == method_named(u@),
    {
        if same_text(u, "GET") {
            Some(RequestMethod::Get)
        } else if same_text(u, "HEAD") {
            Some(RequestMethod::Head)
        } else if same_text(u, "POST") {
            Some(RequestMethod::Post)
        } else {
            None
        }
    }

    /// The method a token names once upper-cased; otherwise the upper-cased
    /// token.
    pub fn from_str(s: &str) -> (r: Result<RequestMethod, String>)
        ensures
            match r {
                Ok(m) => method_named(upper_of(s@)) == Some(m),
                Err(u) => method_named(upper_of(s@)) is None && u@ == upper_of(s@),
            },
    {
        let u = to_upper(s);
        match RequestMethod::from_upper(u.as_str()) {
            Some(m) => Ok(m),
            None => Err(u),
        }
    }

    /// The canonical upper-case name.
    pub fn to_string(&self) -> (r: String)
        ensures
            r@ == method_name(*self),
    {
        match self {
            RequestMethod::Get => String::from_str("GET"),
            RequestMethod::Head => String::from_str("HEAD"),
            RequestMethod::Post => String::from_str("POST"),
        }
    }
}

/// The request line of a method, a target and a version, without terminator.
pub open spec fn request_line_text(m: RequestMethod, uri: Seq<char>, version: Seq<char>) -> Seq<
    char,
> {
    method_name(m) + " "@ + uri + " "@ + version
}

/// A request line written from a method, a non-empty target and a version,
/// neither of which holds a space, and ended by CRLF, reads back as that same
/// method, target and version: its method token is the method's name, and
/// that name, upper-cased as it already is, names the method.
pub proof fn lemma_request_line_round_trip(m: RequestMethod, uri: Seq<char>, version: Seq<char>)
    requires
        uri.len() > 0,
        !uri.contains(' '),
        !version.contains(' '),
    ensures
        method_token(request_line_text(m, uri, version) + "\r\n"@) == method_name(m),
        request_line_parts(request_line_text(m, uri, version) + "\r\n"@, method_name(m)) == Ok::<
            (RequestMethod, Seq<char>, Seq<char>),
            Seq<char>,
        >((m, uri, version)),
{
    reveal_strlit("GET");
    reveal_strlit("HEAD");
    reveal_strlit("POST");
    reveal_strlit(" ");
    reveal_strlit("\r\n");
    let name = method_name(m);
    let text = request_line_text(m, uri, version);
    let line = text + "\r\n"@;
    assert(line.drop_last().drop_last() =~= text);
    assert(strip_line_end(line) == text);
    assert forall|j: int| 0 <= j < uri.len() implies uri[j] != ' ' by {
        if uri[j] == ' ' {
            assert(uri.contains(' '));
        }
    }
    assert forall|j: int| 0 <= j < version.len() implies version[j] != ' ' by {
        if version[j] == ' ' {
            assert(version.contains(' '));
        }
    }
    let rest = uri + " "@ + version;
    assert(text =~= name + (" "@ + rest));
    lemma_pos_of_after(name, " "@ + rest, ' ');
    let first_sp = name.len() as int;
    assert(pos_of(text, ' ') == first_sp);
    assert(text.take(first_sp) =~= name);
    assert("POST"@ != "HEAD"@) by {
        assert("POST"@[0] != "HEAD"@[0]);
    }
    assert(method_named(name) == Some(m));
    assert(text.skip(first_sp + 1) =~= uri + (" "@ + version));
    lemma_pos_of_after(uri, " "@ + version, ' ');
    let second_sp = uri.len() as int;
    assert((uri + (" "@ + version)).take(second_sp) =~= uri);
    assert((uri + (" "@ + version)).skip(second_sp + 1) =~= version);
    lemma_pos_of_after(version, Seq::<char>::empty(), ' ');
    assert(version + Seq::<char>::empty() =~= version);
    assert(version.take(version.len() as int) =~= version);
}

/// A line without its terminator: a final `\n`, and the `\r` before it.
pub open spec fn strip_line_end(s: Seq<char>) -> Seq<char> {
    if s.len() > 0 && s.last() == '\n' {
        let t = s.drop_last();
        if t.len() > 0 && t.last() == '\r' {
            t.drop_last()
        } else {
            t
        }
    } else {
        s
    }
}

/// The method token of a request line: the text before its first space.
pub open spec fn method_token(line: Seq<char>) -> Seq<char> {
    let t = strip_line_end(line);
    t.take(pos_of(t, ' '))
}

/// What a request line says, split on single spaces: its method, target and
/// version; or the reason it is rejected. `upper` is the upper-case form of
/// its method token.
pub open spec fn request_line_parts(line: Seq<char>, upper: Seq<char>) -> Result<
    (RequestMethod, Seq<char>, Seq<char>),
    Seq<char>,
> {
    let t = strip_line_end(line);
    let first_sp = pos_of(t, ' ');
    let tok = t.take(first_sp);
    match method_named(upper) {
        None => Err("unrecognized http method: "@ + tok),
        Some(m) => if first_sp >= t.len() {
            Err("missing uri"@)
        } else {
            let rest = t.skip(first_sp + 1);
            let second_sp = pos_of(rest, ' ');
            if second_sp >= rest.len() {
                Err("missing http version"@)
            } else {
                let tail = rest.skip(second_sp + 1);
                Ok((m, rest.take(second_sp), tail.take(pos_of(tail, ' '))))
            }
        },
    }
}

/// The field a header line gives: the trimmed text before its first colon and
/// the trimmed text after it. A line without a colon gives none.
pub open spec fn header_field(line: Seq<char>) -> Option<(Seq<char>, Seq<char>)> {
    match split_once(line, ':') {
        Some((k, v)) => Some((trim(k), trim(v))),
        None => None,
    }
}

/// The text has no whitespace at either end.
pub open spec fn no_outer_ws(s: Seq<char>) -> bool {
    s.len() == 0 || (!is_ws(s[0]) && !is_ws(s.last()))
}

/// A header line written as `<name>: <value>\r\n`, from a name without a
/// colon, and a name and value with no whitespace at either end, reads back
/// as that same name and value.
pub proof fn lemma_header_line_round_trip(k: Seq<char>, v: Seq<char>)
    requires
        !k.contains(':'),
        no_outer_ws(k),
        no_outer_ws(v),
    ensures
        header_field(k + ": "@ + v + "\r\n"@) == Some((k, v)),
{
    reveal_strlit(": ");
    reveal_strlit("\r\n");
    reveal_strlit(" ");
    let crlf = "\r\n"@;
    let after = " "@ + v + crlf;
    let line = k + ": "@ + v + crlf;
    assert(line =~= k + (seq![':'] + after));
    assert forall|j: int| 0 <= j < k.len() implies k[j] != ':' by {
        if k[j] == ':' {
            assert(k.contains(':'));
        }
    }
    lemma_pos_of_after(k, seq![':'] + after, ':');
    assert(pos_of(line, ':') == k.len());
    assert(line.take(k.len() as int) =~= k);
    assert(line.skip(k.len() as int + 1) =~= after);
    lemma_trim_end_ws_suffix(k, Seq::<char>::empty());
    assert(k + Seq::<char>::empty() =~= k);
    assert(trim(k) == k);
    assert(is_ws(crlf[0]) && is_ws(crlf[1]));
    if v.len() == 0 {
        assert(forall|i: int| 0 <= i < after.len() ==> is_ws(#[trigger] after[i]));
        lemma_trim_end_ws_suffix(Seq::<char>::empty(), after);
        assert(Seq::<char>::empty() + after =~= after);
        assert(trim_end(after) == Seq::<char>::empty());
        assert(v =~= Seq::<char>::empty());
    } else {
        let sv = " "@ + v;
        assert(after =~= sv + crlf);
        assert(sv.last() == v.last());
        assert(forall|i: int| 0 <= i < crlf.len() ==> is_ws(#[trigger] crlf[i]));
        lemma_trim_end_ws_suffix(sv, crlf);
        assert(trim_end(after) == sv);
        assert(sv.drop_first() =~= v);
        assert(is_ws(sv[0]));
        assert(trim_start(sv) == trim_start(v));
        assert(trim_start(v) == v);
    }
    assert(trim(after) == v);
}

/// The length of the body that the header fields announce: the value of
/// `Content-Length`, or 0 where that is not a number. None without the field.
pub open spec fn body_length(h: Map<Seq<char>, Seq<char>>) -> Option<usize> {
    if h.contains_key("Content-Length"@) {
        match parse_usize(h["Content-Length"@]) {
            Some(n) => Some(n),
            None => Some(0),
        }
    } else {
        None
    }
}

/// The number of characters of `s` before its line terminator.
fn line_content_len(s: &str) -> (r: usize)
    ensures
        r <= s@.len(),
        strip_line_end(s@) == s@.take(r as int),
{
    let n = s.unicode_len();
    assert(s@.take(n as int) =~= s@);
    if n > 0 && s.get_char(n - 1) == '\n' {
        assert(s@.drop_last() =~= s@.take(n - 1));
        if n > 1 && s.get_char(n - 2) == '\r' {
            assert(s@.drop_last().drop_last() =~= s@.take(n - 2));
            n - 2
        } else {
            n - 1
        }
    } else {
        n
    }
}

/// Reads a header line into a field; None for a line without a colon.
pub fn parse_header_line(line: &str) -> (r: Option<(String, String)>)
    ensures
        match header_field(line@) {
            Some((k, v)) => r matches Some((rk, rv)) && rk@ == k && rv@ == v,
            None => r is None,
        },
{
    let n = line.unicode_len();
    let p = find_char(line, ':');
    if p >= n {
        None
    } else {
        let key = trim_str(line.substring_char(0, p));
        let value = trim_str(line.substring_char(p + 1, n));
        Some((key, value))
    }
}

/// A parsed request.
#[derive(Debug)]
pub struct HttpRequest {
    method: RequestMethod,
    uri: String,
    http_version: String,
    headers: HeaderMap,
    body: Option<Vec<u8>>,
}

impl HttpRequest {
    pub closed spec fn spec_method(&self) -> RequestMethod {
        self.method
    }

    pub closed spec fn spec_uri(&self) -> Seq<char> {
        self.uri@
    }

    pub closed spec fn spec_version(&self) -> Seq<char> {
        self.http_version@
    }

    pub closed spec fn spec_headers(&self) -> Map<Seq<char>, Seq<char>> {
        self.headers@
    }

    pub closed spec fn spec_body(&self) -> Option<Seq<u8>> {
        match self.body {
            Some(b) => Some(b@),
            None => None,
        }
    }

    /// Splits a request line into its method, target and version, its method
    /// token compared in upper case.
    pub fn parse_request_line(line: &str) -> (r: Result<(RequestMethod, String, String), HttpError>)
        ensures
            match request_line_parts(line@, upper_of(method_token(line@))) {
                Ok((m, u, v)) => r matches Ok((rm, ru, rv)) && rm == m && ru@ == u && rv@ == v,
                Err(msg) => r matches Err(HttpError::InvalidRequest(s)) && s@ == msg,
            },
    {
        let e = line_content_len(line);
        let t = line.substring_char(0, e);
        let tok = t.substring_char(0, find_char(t, ' '));
        let upper = to_upper(tok);
        Self::split_request_line(line, upper.as_str())
    }

    /// Splits a request line into its method, target and version, given the
    /// upper-case form of its method token.
    pub fn split_request_line(line: &str, upper_method: &str) -> (r: Result<
        (RequestMethod, String, String),
        HttpError,
    >)
        ensures
            match request_line_parts(line@, upper_method@) {
                Ok((m, u, v)) => r matches Ok((rm, ru, rv)) && rm == m && ru@ == u && rv@ == v,
                Err(msg) => r matches Err(HttpError::InvalidRequest(s)) && s@ == msg,
            },
    {
        let e = line_content_len(line);
        let t = line.substring_char(0, e);
        let n = t.unicode_len();
        let first_sp = find_char(t, ' ');
        let tok = t.substring_char(0, first_sp);
        let method = match RequestMethod::from_upper(upper_method) {
            Some(m) => m,
            None => {
                let msg = String::from_str("unrecognized http method: ").concat(tok);
                return Err(HttpError::InvalidRequest(msg));
            },
        };
        if first_sp >= n {
            return Err(HttpError::InvalidRequest(String::from_str("missing uri")));
        }
        let rest = t.substring_char(first_sp + 1, n);
        let n1 = rest.unicode_len();
        let second_sp = find_char(rest, ' ');
        if second_sp >= n1 {
            return Err(HttpError::InvalidRequest(String::from_str("missing http version")));
        }
        let uri = rest.substring_char(0, second_sp);
        let tail = rest.substring_char(second_sp + 1, n1);
        let third_sp = find_char(tail, ' ');
        let version = tail.substring_char(0, third_sp);
        assert(rest@ =~= t@.skip(first_sp + 1));
        assert(tail@ =~= rest@.skip(second_sp + 1));
        Ok((method, uri.to_owned(), version.to_owned()))
    }

    pub fn method(&self) -> (r: &RequestMethod)
        ensures
            *r == self.spec_method(),
    {
        &self.method
    }

    pub fn uri(&self) -> (r: &str)
        ensures
            r@ == self.spec_uri(),
    {
        self.uri.as_str()
    }

    pub fn http_version(&self) -> (r: &str)
        ensures
            r@ == self.spec_version(),
    {
        self.http_version.as_str()
    }

    pub fn headers(&self) -> (r: &HeaderMap)
        ensures
            r@ == self.spec_headers(),
    {
        &self.headers
    }

    pub fn body(&self) -> (r: &Option<Vec<u8>>)
        ensures
            match r {
                Some(b) => self.spec_body() == Some(b@),
                None => self.spec_body() is None,
            },
    {
        &self.body
    }
}

/// What a request reader needs next from the stream.
#[derive(Debug, Clone, Copy, PartialEq, Eq, Structural)]
pub enum ReadStep {
    /// One more line, terminator included (empty at the end of the stream).
    Line,
    /// This many bytes of body.
    Body(usize),
    /// Nothing: the request is complete.
    Done,
}

/// A request being read: the request line has been accepted, and header
/// lines and then the body are handed to it as the stream yields them.
pub struct RequestReader {
    request: HttpRequest,
    step: ReadStep,
}

impl RequestReader {
    /// The request as read so far.
    pub closed spec fn current(&self) -> HttpRequest {
        self.request
    }

    pub closed spec fn spec_step(&self) -> ReadStep {
        self.step
    }

    /// The body is absent until the header fields are done, and then present
    /// exactly when they announce a length, with that many bytes.
    pub open spec fn consistent(&self) -> bool {
        let req = self.current();
        match self.spec_step() {
            ReadStep::Line => req.spec_body() is None,
            ReadStep::Body(n) => req.spec_body() is None && body_length(req.spec_headers())
                == Some(n),
            ReadStep::Done => match body_length(req.spec_headers()) {
                None => req.spec_body() is None,
                Some(n) => req.spec_body() matches Some(b) && b.len() == n,
            },
        }
    }

    /// Starts reading a request from its request line.
    pub fn start(request_line: &str) -> (r: Result<RequestReader, HttpError>)
        ensures
            match request_line_parts(request_line@, upper_of(method_token(request_line@))) {
                Ok((m, u, v)) => r matches Ok(rd) && rd.spec_step() == ReadStep::Line
                    && rd.consistent()
                    && rd.current().spec_method() == m && rd.current().spec_uri() == u
                    && rd.current().spec_version() == v && rd.current().spec_headers()
                    == Map::<Seq<char>, Seq<char>>::empty() && rd.current().spec_body() is None,
                Err(msg) => r matches Err(HttpError::InvalidRequest(s)) && s@ == msg,
            },
    {
        let (method, uri, http_version) = HttpRequest::parse_request_line(request_line)?;
        let request = HttpRequest { method, uri, http_version, headers: HeaderMap::new(), body: None };
        Ok(RequestReader { request, step: ReadStep::Line })
    }

    /// A request whose header fields hold no `Content-Length` is complete
    /// without a body.
    pub proof fn lemma_no_length_no_body(&self)
        requires
            self.consistent(),
            self.spec_step() == ReadStep::Done,
            !self.current().spec_headers().contains_key("Content-Length"@),
        ensures
            self.current().spec_body() is None,
    {
    }

    /// What the reader needs next.
    pub fn next_step(&self) -> (r: ReadStep)
        ensures
            r == self.spec_step(),
    {
        self.step
    }

    /// Takes the next line after the request line. A blank line ends the
    /// header fields; a line without a colon is skipped, and reported by
    /// returning `true`.
    pub fn push_line(&mut self, line: &str) -> (skipped: bool)
        requires
            old(self).spec_step() == ReadStep::Line,
            old(self).consistent(),
        ensures
            final(self).consistent(),
            final(self).current().spec_method() == old(self).current().spec_method(),
            final(self).current().spec_uri() == old(self).current().spec_uri(),
            final(self).current().spec_version() == old(self).current().spec_version(),
            final(self).current().spec_body() == old(self).current().spec_body(),
            trim_end(line@).len() == 0 ==> {
                &&& !skipped
                &&& final(self).current().spec_headers() == old(self).current().spec_headers()
                &&& final(self).spec_step() == match body_length(
                    old(self).current().spec_headers(),
                ) {
                    Some(n) => ReadStep::Body(n),
                    None => ReadStep::Done,
                }
            },
            trim_end(line@).len() != 0 ==> {
                &&& final(self).spec_step() == ReadStep::Line
                &&& skipped == (header_field(line@) is None)
                &&& final(self).current().spec_headers() == match header_field(line@) {
                    Some((k, v)) => old(self).current().spec_headers().insert(k, v),
                    None => old(self).current().spec_headers(),
                }
            },
    {
        if is_blank(line) {
            self.step = match self.request.headers.get("Content-Length") {
                Some(text) => match parse_decimal(text.as_str()) {
                    Some(n) => ReadStep::Body(n),
                    None => ReadStep::Body(0),
                },
                None => ReadStep::Done,
            };
            proof {
                reveal_strlit("Content-Length");
            }
            false
        } else {
            match parse_header_line(line) {
                Some((key, value)) => {
                    self.request.headers.insert(key, value);
                    false
                },
                None => true,
            }
        }
    }

    /// Takes the body, as many bytes as the header fields announced.
    pub fn push_body(&mut self, bytes: Vec<u8>)
        requires
            old(self).spec_step() matches ReadStep::Body(n) && bytes@.len() == n,
            old(self).consistent(),
        ensures
            final(self).consistent(),
            final(self).spec_step() == ReadStep::Done,
            final(self).current().spec_method() == old(self).current().spec_method(),
            final(self).current().spec_uri() == old(self).current().spec_uri(),
            final(self).current().spec_version() == old(self).current().spec_version(),
            final(self).current().spec_headers() == old(self).current().spec_headers(),
            final(self).current().spec_body() == Some(bytes@),
    {
        self.request.body = Some(bytes);
        self.step = ReadStep::Done;
    }

    /// The request, once it is complete.
    pub fn finish(self) -> (r: HttpRequest)
        requires
            self.spec_step() == ReadStep::Done,
            self.consistent(),
        ensures
            r == self.current(),
            match body_length(r.spec_headers()) {
                None => r.spec_body() is None,
                Some(n) => r.spec_body() matches Some(b) && b.len() == n,
            },
    {
        self.request
    }
}

} // verus!
