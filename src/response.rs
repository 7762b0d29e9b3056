//! Responses and their exact wire form.

use vstd::prelude::*;
use vstd::utf8::{
    encode_scalar, encode_utf8, has_width_1_encoding, has_width_2_encoding, has_width_3_encoding,
};
use crate::headers::{HeaderMap, HeaderPair, lemma_unique_map_of, unique_names};
use crate::status::{HttpStatus, decimal3};

verus! {

/// The protocol version that every response names.
pub const HTTP_VERSION: &'static str = "HTTP/1.0";

pub open spec fn crlf() -> Seq<u8> {
    seq![13u8, 10u8]
}

/// `<version> <code> <reason>\r\n`, encoded.
pub open spec fn status_line(s: HttpStatus) -> Seq<u8> {
    encode_utf8(HTTP_VERSION@) + encode_utf8(" "@) + encode_utf8(decimal3(s.spec_code()))
        + encode_utf8(" "@) + encode_utf8(s.spec_name()) + crlf()
}

/// `<name>: <value>\r\n`, encoded.
pub open spec fn header_line(p: HeaderPair) -> Seq<u8> {
    encode_utf8(p.0) + encode_utf8(": "@) + encode_utf8(p.1) + crlf()
}

/// The header lines of a list of fields, in its order.
pub open spec fn header_lines(ps: Seq<HeaderPair>) -> Seq<u8>
    decreases ps.len(),
{
    if ps.len() == 0 {
        Seq::empty()
    } else {
        header_lines(ps.drop_last()) + header_line(ps.last())
    }
}

/// Status line, header lines and the blank line.
pub open spec fn head_bytes(r: &HttpResponse) -> Seq<u8> {
    status_line(r.status) + header_lines(r.headers.pairs()) + crlf()
}

/// The bytes that a response is sent as: its head, then its body verbatim.
pub open spec fn wire(r: &HttpResponse) -> Seq<u8> {
    head_bytes(r) + r.body@
}

/// The blank line `\r\n\r\n` starts at index `i` of `w`.
pub open spec fn blank_line_at(w: Seq<u8>, i: int) -> bool {
    0 <= i && i + 3 < w.len() && w[i] == 13 && w[i + 1] == 10 && w[i + 2] == 13 && w[i + 3] == 10
}

spec fn no_lf(b: Seq<u8>) -> bool {
    forall|i: int| 0 <= i < b.len() ==> #[trigger] b[i] != 10
}

spec fn no_blank_line(w: Seq<u8>) -> bool {
    forall|i: int| !#[trigger] blank_line_at(w, i)
}

/// Lines so far: at least one, each ended by CRLF, no blank one among them.
spec fn lines_ok(w: Seq<u8>) -> bool {
    w.len() >= 2 && w[w.len() - 2] == 13 && w[w.len() - 1] == 10 && no_blank_line(w)
}

proof fn lemma_scalar_no_lf(c: char)
    requires
        c != '\n',
    ensures
        no_lf(encode_scalar(c as u32)),
        encode_scalar(c as u32).len() > 0,
{
    let u = c as u32;
    assert(u != 10);
    if has_width_1_encoding(u) {
        assert((u & 0x7F) as u8 != 10u8) by (bit_vector)
            requires
                u <= 0x7F,
                u != 10,
        ;
    } else {
        assert((0xC0u8 | ((u >> 6) & 0x1F) as u8) != 10u8) by (bit_vector);
        assert((0xE0u8 | ((u >> 12) & 0x0F) as u8) != 10u8) by (bit_vector);
        assert((0xF0u8 | ((u >> 18) & 0x7) as u8) != 10u8) by (bit_vector);
        assert((0x80u8 | (u & 0x3F) as u8) != 10u8) by (bit_vector);
        assert((0x80u8 | ((u >> 6) & 0x3F) as u8) != 10u8) by (bit_vector);
        assert((0x80u8 | ((u >> 12) & 0x3F) as u8) != 10u8) by (bit_vector);
    }
}

proof fn lemma_encode_no_lf(s: Seq<char>)
    requires
        !s.contains('\n'),
    ensures
        no_lf(encode_utf8(s)),
        s.len() > 0 ==> encode_utf8(s).len() > 0,
    decreases s.len(),
{
    if s.len() > 0 {
        assert(s[0] != '\n') by {
            if s[0] == '\n' {
                assert(s.contains('\n'));
            }
        }
        lemma_scalar_no_lf(s[0]);
        assert(!s.drop_first().contains('\n')) by {
            if s.drop_first().contains('\n') {
                let j = choose|j: int| 0 <= j < s.drop_first().len() && s.drop_first()[j] == '\n';
                assert(s[j + 1] == '\n');
            }
        }
        lemma_encode_no_lf(s.drop_first());
    }
}

proof fn lemma_first_line(c: Seq<u8>)
    requires
        no_lf(c),
    ensures
        lines_ok(c + crlf()),
{
    let w = c + crlf();
    assert forall|i: int| !#[trigger] blank_line_at(w, i) by {
        if blank_line_at(w, i) {
            assert(w[i + 1] == 10);
            assert(i + 1 < c.len());
            assert(c[i + 1] == 10);
        }
    }
}

proof fn lemma_next_line(a: Seq<u8>, c: Seq<u8>)
    requires
        lines_ok(a),
        no_lf(c),
        c.len() > 0,
    ensures
        lines_ok(a + c + crlf()),
{
    let w = a + c + crlf();
    let la = a.len() as int;
    let lc = c.len() as int;
    assert forall|i: int| !#[trigger] blank_line_at(w, i) by {
        if blank_line_at(w, i) {
            if i + 3 < la {
                assert(blank_line_at(a, i));
            } else if i + 3 < la + lc {
                assert(w[i + 3] == c[i + 3 - la]);
            } else if i + 3 == la + lc {
                assert(w[i + 3] == 13);
            } else {
                assert(i + 1 == la + lc - 1);
                assert(w[i + 1] == c[lc - 1]);
            }
        }
    }
}

proof fn lemma_status_line(s: HttpStatus)
    ensures
        lines_ok(status_line(s)),
{
    reveal_strlit("HTTP/1.0");
    reveal_strlit(" ");
    reveal_strlit("Ok");
    reveal_strlit("Created");
    reveal_strlit("Accepted");
    reveal_strlit("No Content");
    reveal_strlit("Moved Permanently");
    reveal_strlit("Moved Temporarily");
    reveal_strlit("Not Modified");
    reveal_strlit("Bad Request");
    reveal_strlit("Unauthorized");
    reveal_strlit("Forbidden");
    reveal_strlit("Not Found");
    reveal_strlit("Internal Server Error");
    reveal_strlit("Not Implemented");
    reveal_strlit("Bad Gateway");
    reveal_strlit("Service Unavailable");
    let d = decimal3(s.spec_code());
    assert(!d.contains('\n')) by {
        if d.contains('\n') {
            let j = choose|j: int| 0 <= j < d.len() && d[j] == '\n';
            assert(j == 0 || j == 1 || j == 2);
        }
    }
    assert(!HTTP_VERSION@.contains('\n')) by {
        if HTTP_VERSION@.contains('\n') {
            let j = choose|j: int| 0 <= j < HTTP_VERSION@.len() && HTTP_VERSION@[j] == '\n';
        }
    }
    assert(!" "@.contains('\n')) by {
        if " "@.contains('\n') {
            let j = choose|j: int| 0 <= j < " "@.len() && " "@[j] == '\n';
        }
    }
    let n = s.spec_name();
    assert(!n.contains('\n')) by {
        if n.contains('\n') {
            let j = choose|j: int| 0 <= j < n.len() && n[j] == '\n';
        }
    }
    lemma_encode_no_lf(HTTP_VERSION@);
    lemma_encode_no_lf(" "@);
    lemma_encode_no_lf(d);
    lemma_encode_no_lf(n);
    let c = encode_utf8(HTTP_VERSION@) + encode_utf8(" "@) + encode_utf8(d) + encode_utf8(" "@)
        + encode_utf8(n);
    assert(no_lf(c));
    lemma_first_line(c);
    assert(status_line(s) =~= c + crlf());
}

proof fn lemma_header_lines(s: HttpStatus, ps: Seq<HeaderPair>)
    requires
        forall|i: int|
            0 <= i < ps.len() ==> !(#[trigger] ps[i]).0.contains('\n') && !ps[i].1.contains('\n'),
    ensures
        lines_ok(status_line(s) + header_lines(ps)),
    decreases ps.len(),
{
    if ps.len() == 0 {
        lemma_status_line(s);
        assert(status_line(s) + header_lines(ps) =~= status_line(s));
    } else {
        let init = ps.drop_last();
        assert forall|i: int| 0 <= i < init.len() implies !(#[trigger] init[i]).0.contains('\n')
            && !init[i].1.contains('\n') by {
            assert(init[i] == ps[i]);
        }
        lemma_header_lines(s, init);
        let p = ps.last();
        assert(p == ps[ps.len() - 1]);
        reveal_strlit(": ");
        assert(!": "@.contains('\n')) by {
            if ": "@.contains('\n') {
                let j = choose|j: int| 0 <= j < ": "@.len() && ": "@[j] == '\n';
            }
        }
        lemma_encode_no_lf(p.0);
        lemma_encode_no_lf(": "@);
        lemma_encode_no_lf(p.1);
        let c = encode_utf8(p.0) + encode_utf8(": "@) + encode_utf8(p.1);
        assert(no_lf(c));
        lemma_next_line(status_line(s) + header_lines(init), c);
        assert(status_line(s) + header_lines(ps) =~= status_line(s) + header_lines(init) + c
            + crlf());
    }
}

proof fn lemma_encode_concat(a: Seq<char>, b: Seq<char>)
    ensures
        encode_utf8(a + b) == encode_utf8(a) + encode_utf8(b),
    decreases a.len(),
{
    if a.len() == 0 {
        assert(a + b =~= b);
        assert(encode_utf8(a) + encode_utf8(b) =~= encode_utf8(b));
    } else {
        assert((a + b).drop_first() =~= a.drop_first() + b);
        assert((a + b)[0] == a[0]);
        lemma_encode_concat(a.drop_first(), b);
        assert(encode_utf8(a + b) =~= encode_utf8(a) + encode_utf8(b));
    }
}

proof fn lemma_encode_crlf()
    ensures
        encode_utf8("\r\n"@) == crlf(),
{
    reveal_strlit("\r\n");
    let s = "\r\n"@;
    assert((13u32 & 0x7F) as u8 == 13u8) by (bit_vector);
    assert((10u32 & 0x7F) as u8 == 10u8) by (bit_vector);
    let t = s.drop_first();
    assert(t.len() == 1 && t[0] == '\n' && s[0] == '\r');
    assert(t.drop_first() =~= Seq::<char>::empty());
    assert(encode_utf8(t.drop_first()) =~= Seq::<u8>::empty());
    assert(encode_scalar(10u32) =~= seq![10u8]);
    assert(encode_scalar(13u32) =~= seq![13u8]);
    assert(encode_utf8(t) =~= encode_scalar(t[0] as u32) + encode_utf8(t.drop_first()));
    assert(encode_utf8(t) =~= seq![10u8]);
    assert(encode_utf8(s) =~= encode_scalar(s[0] as u32) + encode_utf8(t));
    assert(encode_utf8(s) =~= crlf());
}

/// In the bytes a response is sent as, the first blank line is the one that
/// ends its head: before it stand the status line and then the header lines
/// of its fields, in order, and after it the body, unchanged. Each header
/// line is the text `<name>: <value>\r\n` of one field, and the fields are
/// the header mapping, each name once. This holds when no field name or value
/// holds a line feed.
pub proof fn lemma_wire_split(r: &HttpResponse)
    requires
        unique_names(r.headers.pairs()),
        forall|i: int|
            0 <= i < r.headers.pairs().len() ==> !(#[trigger] r.headers.pairs()[i]).0.contains(
                '\n',
            ) && !r.headers.pairs()[i].1.contains('\n'),
    ensures
        ({
            let w = wire(r);
            let p = head_bytes(r).len() - 4;
            &&& blank_line_at(w, p)
            &&& forall|i: int| 0 <= i < p ==> !blank_line_at(w, i)
            &&& w.subrange(0, status_line(r.status).len() as int) == status_line(r.status)
            &&& w.subrange(status_line(r.status).len() as int, p + 2) == header_lines(
                r.headers.pairs(),
            )
            &&& w.subrange(p + 4, w.len() as int) == r.body@
        }),
        forall|i: int|
            0 <= i < r.headers.pairs().len() ==> header_line(#[trigger] r.headers.pairs()[i])
                == encode_utf8(r.headers.pairs()[i].0 + ": "@ + r.headers.pairs()[i].1 + "\r\n"@),
        r.headers@.dom().len() == r.headers.pairs().len(),
        forall|i: int|
            0 <= i < r.headers.pairs().len() ==> r.headers@.contains_key(
                #[trigger] r.headers.pairs()[i].0,
            ) && r.headers@[r.headers.pairs()[i].0] == r.headers.pairs()[i].1,
        forall|k: Seq<char>|
            #[trigger] r.headers@.contains_key(k) ==> exists|i: int|
                0 <= i < r.headers.pairs().len() && #[trigger] r.headers.pairs()[i].0 == k,
{
    lemma_unique_map_of(r.headers.pairs());
    lemma_encode_crlf();
    assert forall|i: int| 0 <= i < r.headers.pairs().len() implies header_line(
        #[trigger] r.headers.pairs()[i],
    ) == encode_utf8(r.headers.pairs()[i].0 + ": "@ + r.headers.pairs()[i].1 + "\r\n"@) by {
        let p = r.headers.pairs()[i];
        lemma_encode_concat(p.0, ": "@);
        lemma_encode_concat(p.0 + ": "@, p.1);
        lemma_encode_concat(p.0 + ": "@ + p.1, "\r\n"@);
    }
    let a = status_line(r.status) + header_lines(r.headers.pairs());
    lemma_header_lines(r.status, r.headers.pairs());
    let w = wire(r);
    let p = head_bytes(r).len() - 4;
    assert(w =~= a + crlf() + r.body@);
    assert(p == a.len() - 2);
    assert forall|i: int| 0 <= i < p implies !blank_line_at(w, i) by {
        if blank_line_at(w, i) {
            if i + 3 < a.len() {
                assert(blank_line_at(a, i));
            } else {
                assert(w[i + 3] == 13);
            }
        }
    }
    assert(w.subrange(0, status_line(r.status).len() as int) =~= status_line(r.status));
    assert(w.subrange(status_line(r.status).len() as int, p + 2) =~= header_lines(
        r.headers.pairs(),
    ));
    assert(w.subrange(p + 4, w.len() as int) =~= r.body@);
}

/// A response: a status, header fields, and a body.
#[derive(Debug)]
pub struct HttpResponse {
    pub status: HttpStatus,
    pub headers: HeaderMap,
    pub body: Vec<u8>,
}

/// Appends `bytes` to `out`.
fn push_all(out: &mut Vec<u8>, bytes: &[u8])
    ensures
        final(out)@ == old(out)@ + bytes@,
{
    let n = bytes.len();
    let mut i: usize = 0;
    while i < n
        invariant
            i <= n == bytes@.len(),
            out@ == old(out)@ + bytes@.take(i as int),
        decreases n - i,
    {
        out.push(bytes[i]);
        assert(bytes@.take(i + 1) =~= bytes@.take(i as int).push(bytes@[i as int]));
        i = i + 1;
    }
    assert(bytes@.take(n as int) =~= bytes@);
}

/// Appends the UTF-8 encoding of `s` to `out`.
fn push_str(out: &mut Vec<u8>, s: &str)
    ensures
        final(out)@ == old(out)@ + encode_utf8(s@),
{
    push_all(out, s.as_bytes());
}

impl HttpResponse {
    /// A response with the given status, no header fields and an empty body.
    pub fn new(status: HttpStatus) -> (r: HttpResponse)
        ensures
            r.status == status,
            r.headers@ == Map::<Seq<char>, Seq<char>>::empty(),
            r.headers.pairs() == Seq::<HeaderPair>::empty(),
            r.body@ == Seq::<u8>::empty(),
    {
        HttpResponse { status, headers: HeaderMap::new(), body: Vec::new() }
    }

    /// Writes this response to `out`: the status line, one line per header
    /// field, a blank line, and the body.
    pub fn write(&self, out: &mut Vec<u8>)
        ensures
            final(out)@ == old(out)@ + wire(self),
    {
        push_str(out, HTTP_VERSION);
        push_str(out, " ");
        push_str(out, self.status.code_text());
        push_str(out, " ");
        push_str(out, self.status.name());
        push_all(out, &[13u8, 10u8]);
        let ghost start = out@;
        assert(start =~= old(out)@ + status_line(self.status));
        let entries = self.headers.entries();
        let ghost ps = self.headers.pairs();
        let n = entries.len();
        let mut i: usize = 0;
        assert(ps.take(0) =~= Seq::<HeaderPair>::empty());
        assert(start + header_lines(ps.take(0)) =~= start);
        while i < n
            invariant
                i <= n == entries@.len() == ps.len(),
                ps == self.headers.pairs(),
                entries@.map_values(|e: (String, String)| crate::headers::pair_view(e)) == ps,
                out@ == start + header_lines(ps.take(i as int)),
            decreases n - i,
        {
            let ghost before = out@;
            assert(ps[i as int] == crate::headers::pair_view(entries@[i as int]));
            push_str(out, entries[i].0.as_str());
            push_str(out, ": ");
            push_str(out, entries[i].1.as_str());
            push_all(out, &[13u8, 10u8]);
            assert(ps.take(i + 1).drop_last() =~= ps.take(i as int));
            assert(out@ =~= before + header_line(ps[i as int]));
            i = i + 1;
        }
        assert(ps.take(n as int) =~= ps);
        push_all(out, &[13u8, 10u8]);
        push_all(out, self.body.as_slice());
        assert(out@ =~= old(out)@ + wire(self));
    }
}

impl Default for HttpResponse {
    /// A success with no header fields and an empty body.
    fn default() -> (r: HttpResponse)
        ensures
            r.status == HttpStatus::OK,
            r.headers@ == Map::<Seq<char>, Seq<char>>::empty(),
            r.headers.pairs() == Seq::<HeaderPair>::empty(),
            r.body@ == Seq::<u8>::empty(),
    {
        HttpResponse::new(HttpStatus::OK)
    }
}

} // verus!
