use vstd::prelude::*;

use crate::util::{append_bytes, dec_chars, usize_to_string};
use vstd::string::StringSliceAdditionalSpecFns;

verus! {

/// Mathematical model of one HTTP response: status line, ordered headers, body bytes.
pub struct SpecResponse {
    pub status_line: Seq<char>,
    pub headers: Seq<(Seq<char>, Seq<char>)>,
    pub body: Seq<u8>,
}

/// One HTTP response before it is written to the wire.
pub struct HttpResponse {
    pub status_line: String,
    pub headers: Vec<(String, String)>,
    pub body: Vec<u8>,
}

impl View for HttpResponse {
    type V = SpecResponse;

    open spec fn view(&self) -> SpecResponse {
        SpecResponse {
            status_line: self.status_line@,
            headers: self.headers.deep_view(),
            body: self.body@,
        }
    }
}

/// The response that the builder assembles from a status line, a content type
/// and a body: Content-Length is the decimal byte length of the body, and the
/// connection is always closed after the response.
pub open spec fn build_spec(
    status_line: Seq<char>,
    content_type: Seq<char>,
    body: Seq<u8>,
) -> SpecResponse {
    SpecResponse {
        status_line: status_line,
        headers: seq![
            (("Content-Length")@, dec_chars(body.len() as int)),
            (("Content-Type")@, content_type),
            (("Connection")@, ("close")@),
        ],
        body: body,
    }
}

/// A response of a bare status line: no headers, no body.
pub open spec fn status_only_spec(status_line: Seq<char>) -> SpecResponse {
    SpecResponse { status_line: status_line, headers: Seq::empty(), body: Seq::empty() }
}

pub open spec fn crlf() -> Seq<u8> {
    ("\r\n").spec_bytes()
}

/// Wire form of one header line: `name: value` followed by CRLF.
pub open spec fn header_wire(h: (Seq<char>, Seq<char>)) -> Seq<u8> {
    vstd::utf8::encode_utf8(h.0) + (": ").spec_bytes() + vstd::utf8::encode_utf8(h.1) + crlf()
}

/// Wire form of a sequence of header lines, in order.
pub open spec fn headers_wire(hs: Seq<(Seq<char>, Seq<char>)>) -> Seq<u8>
    decreases hs.len(),
{
    if hs.len() == 0 {
        Seq::empty()
    } else {
        header_wire(hs[0]) + headers_wire(hs.drop_first())
    }
}

/// Wire form of a whole response: status line, CRLF, header lines, blank line, body.
pub open spec fn wire_bytes(r: SpecResponse) -> Seq<u8> {
    vstd::utf8::encode_utf8(r.status_line) + crlf() + headers_wire(r.headers) + crlf() + r.body
}

proof fn lemma_headers_wire_snoc(hs: Seq<(Seq<char>, Seq<char>)>, i: int)
    requires
        0 <= i < hs.len(),
    ensures
        headers_wire(hs.take(i + 1)) == headers_wire(hs.take(i)) + header_wire(hs[i]),
    decreases i,
{
    if i == 0 {
        assert(hs.take(1).drop_first() =~= Seq::empty());
        assert(hs.take(1)[0] == hs[0]);
        assert(headers_wire(hs.take(1)) == header_wire(hs[0]) + headers_wire(Seq::empty()));
        assert(header_wire(hs[0]) + Seq::<u8>::empty() =~= header_wire(hs[0]));
        assert(hs.take(0) =~= Seq::empty());
        assert(Seq::<u8>::empty() + header_wire(hs[0]) =~= header_wire(hs[0]));
    } else {
        let t = hs.drop_first();
        lemma_headers_wire_snoc(t, i - 1);
        assert(hs.take(i + 1).drop_first() =~= t.take(i));
        assert(hs.take(i).drop_first() =~= t.take(i - 1));
        assert(hs.take(i + 1)[0] == hs[0]);
        assert(hs.take(i)[0] == hs[0]);
        assert(headers_wire(hs.take(i + 1)) == header_wire(hs[0]) + headers_wire(t.take(i)));
        assert(headers_wire(hs.take(i)) == header_wire(hs[0]) + headers_wire(t.take(i - 1)));
        assert(t[i - 1] == hs[i]);
        assert(header_wire(hs[0]) + (headers_wire(t.take(i - 1)) + header_wire(hs[i])) =~= (
        header_wire(hs[0]) + headers_wire(t.take(i - 1))) + header_wire(hs[i]));
    }
}

impl HttpResponse {
    /// Assemble a response from a status line, a content type and a body.
    pub fn build(status_line: &str, content_type: &str, body: Vec<u8>) -> (r: HttpResponse)
        ensures
            r@ == build_spec(status_line@, content_type@, body@),
    {
        let len_str = usize_to_string(body.len());
        let mut headers: Vec<(String, String)> = Vec::new();
        headers.push((String::from_str("Content-Length"), len_str));
        headers.push((String::from_str("Content-Type"), String::from_str(content_type)));
        headers.push((String::from_str("Connection"), String::from_str("close")));
        let r = HttpResponse { status_line: String::from_str(status_line), headers, body };
        proof {
            assert(r@.headers =~= build_spec(status_line@, content_type@, r@.body).headers);
        }
        r
    }

    /// A minimal response: just the status line, no headers and no body.
    pub fn status_only(status_line: &str) -> (r: HttpResponse)
        ensures
            r@ == status_only_spec(status_line@),
    {
        let r = HttpResponse {
            status_line: String::from_str(status_line),
            headers: Vec::new(),
            body: Vec::new(),
        };
        proof {
            assert(r@.headers =~= Seq::<(Seq<char>, Seq<char>)>::empty());
            assert(r@.body =~= Seq::<u8>::empty());
        }
        r
    }

    /// Serialize the response into the exact bytes that go on the wire.
    pub fn to_bytes(&self) -> (r: Vec<u8>)
        ensures
            r@ == wire_bytes(self@),
    {
        let mut out: Vec<u8> = Vec::new();
        append_bytes(&mut out, self.status_line.as_str().as_bytes());
        append_bytes(&mut out, "\r\n".as_bytes());
        proof {
            assert(self@.headers.take(0) =~= Seq::<(Seq<char>, Seq<char>)>::empty());
            assert(out@ =~= vstd::utf8::encode_utf8(self@.status_line) + crlf() + headers_wire(
                self@.headers.take(0),
            ));
        }
        let mut i: usize = 0;
        while i < self.headers.len()
            invariant
                i <= self.headers.len(),
                out@ == vstd::utf8::encode_utf8(self@.status_line) + crlf() + headers_wire(
                    self@.headers.take(i as int),
                ),
            decreases self.headers.len() - i,
        {
            let h = &self.headers[i];
            append_bytes(&mut out, h.0.as_str().as_bytes());
            append_bytes(&mut out, ": ".as_bytes());
            append_bytes(&mut out, h.1.as_str().as_bytes());
            append_bytes(&mut out, "\r\n".as_bytes());
            proof {
                lemma_headers_wire_snoc(self@.headers, i as int);
                assert(self@.headers[i as int] == (h.0@, h.1@));
                assert(out@ =~= vstd::utf8::encode_utf8(self@.status_line) + crlf() + headers_wire(
                    self@.headers.take(i + 1),
                ));
            }
            i += 1;
        }
        proof {
            assert(self@.headers.take(self.headers.len() as int) =~= self@.headers);
        }
        append_bytes(&mut out, "\r\n".as_bytes());
        append_bytes(&mut out, self.body.as_slice());
        proof {
            assert(out@ =~= wire_bytes(self@));
        }
        out
    }
}

} // verus!
