//! Response serialization: a status line, header lines in the order
//! the handler set them, an empty line, then the raw body bytes.
use vstd::prelude::*;
use crate::bytes::{append_bytes, dec_digits, usize_to_dec};
use crate::lit::{lit_http_prefix, spec_content_length, spec_http_prefix};
use crate::request::{headers_view, lookup_header_spec};

verus! {

/// Mathematical image of a response.
#[verifier::ext_equal]
pub ghost struct RespView {
    pub code: u16,
    pub reason: Seq<u8>,
    pub headers: Seq<(Seq<u8>, Seq<u8>)>,
    pub body: Seq<u8>,
}

/// A structured response: status code and reason, header pairs in
/// emission order, and the body bytes (empty for a bodiless reply).
#[derive(Debug)]
pub struct Response {
    pub code: u16,
    pub reason: Vec<u8>,
    pub headers: Vec<(Vec<u8>, Vec<u8>)>,
    pub body: Vec<u8>,
}

impl View for Response {
    type V = RespView;

    open spec fn view(&self) -> RespView {
        RespView {
            code: self.code,
            reason: self.reason@,
            headers: headers_view(self.headers@),
            body: self.body@,
        }
    }
}

/// The two-byte line terminator.
pub open spec fn crlf() -> Seq<u8> {
    seq![13u8, 10u8]
}

/// One emitted header line: `name: value` and a terminator.
pub open spec fn header_line_bytes(p: (Seq<u8>, Seq<u8>)) -> Seq<u8> {
    p.0 + seq![58u8, 32u8] + p.1 + crlf()
}

/// All header lines, in order.
pub open spec fn headers_bytes(hs: Seq<(Seq<u8>, Seq<u8>)>) -> Seq<u8>
    decreases hs.len(),
{
    if hs.len() == 0 {
        Seq::empty()
    } else {
        headers_bytes(hs.drop_last()) + header_line_bytes(hs.last())
    }
}

/// The exact bytes written back for a response: status line, header
/// lines, empty line, body.
pub open spec fn spec_serialize(r: RespView) -> Seq<u8> {
    spec_http_prefix() + dec_digits(r.code as nat) + seq![32u8] + r.reason + crlf()
        + headers_bytes(r.headers) + crlf() + r.body
}

/// A `Content-Length` header, when the response carries one, is the
/// decimal byte length of the body.
pub open spec fn content_length_ok(r: RespView) -> bool {
    match lookup_header_spec(r.headers, spec_content_length()) {
        Some(v) => v == dec_digits(r.body.len()),
        None => true,
    }
}

/// Render a response to the byte sequence written to the stream.
pub fn serialize_response(resp: &Response) -> (r: Vec<u8>)
    ensures
        r@ == spec_serialize(resp@),
{
    let mut out = lit_http_prefix();
    let code_bytes = usize_to_dec(resp.code as usize);
    append_bytes(&mut out, code_bytes.as_slice());
    out.push(32);
    append_bytes(&mut out, resp.reason.as_slice());
    out.push(13);
    out.push(10);
    let ghost base = spec_http_prefix() + dec_digits(resp@.code as nat) + seq![32u8] + resp@.reason
        + crlf();
    proof {
        assert(out@ =~= base);
        assert(headers_view(resp.headers@).take(0) =~= Seq::<(Seq<u8>, Seq<u8>)>::empty());
    }
    let mut i: usize = 0;
    while i < resp.headers.len()
        invariant
            0 <= i <= resp.headers@.len(),
            out@ == base + headers_bytes(headers_view(resp.headers@).take(i as int)),
        decreases resp.headers@.len() - i,
    {
        let ghost hv = headers_view(resp.headers@);
        append_bytes(&mut out, resp.headers[i].0.as_slice());
        out.push(58);
        out.push(32);
        append_bytes(&mut out, resp.headers[i].1.as_slice());
        out.push(13);
        out.push(10);
        proof {
            assert(hv.take(i + 1 as int).drop_last() =~= hv.take(i as int));
            assert(hv.take(i + 1 as int).last() == hv[i as int]);
            assert(out@ =~= base + headers_bytes(hv.take(i + 1 as int)));
        }
        i += 1;
    }
    proof {
        let hv = headers_view(resp.headers@);
        assert(hv.take(hv.len() as int) =~= hv);
    }
    out.push(13);
    out.push(10);
    append_bytes(&mut out, resp.body.as_slice());
    proof {
        assert(out@ =~= spec_serialize(resp@));
    }
    out
}

} // verus!
