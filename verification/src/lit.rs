//! The fixed ASCII tokens of the protocol: method names, route
//! segments, header names, media types, and status reasons. Each token
//! has a spec-level byte sequence and an executable constructor proved
//! to produce it.
use vstd::prelude::*;
use crate::bytes::slice_to_vec;

verus! {

/// `"files"`
pub open spec fn spec_files() -> Seq<u8> {
    seq![102u8, 105u8, 108u8, 101u8, 115u8]
}

pub fn lit_files() -> (r: Vec<u8>)
    ensures
        r@ == spec_files(),
{
    let a: [u8; 5] = [102u8, 105u8, 108u8, 101u8, 115u8];
    let v = slice_to_vec(a.as_slice());
    proof {
        assert(v@ =~= spec_files());
    }
    v
}

/// `"user-agent"`
pub open spec fn spec_user_agent_seg() -> Seq<u8> {
    seq![117u8, 115u8, 101u8, 114u8, 45u8, 97u8, 103u8, 101u8, 110u8, 116u8]
}

pub fn lit_user_agent_seg() -> (r: Vec<u8>)
    ensures
        r@ == spec_user_agent_seg(),
{
    let a: [u8; 10] = [117u8, 115u8, 101u8, 114u8, 45u8, 97u8, 103u8, 101u8, 110u8, 116u8];
    let v = slice_to_vec(a.as_slice());
    proof {
        assert(v@ =~= spec_user_agent_seg());
    }
    v
}

/// `"echo"`
pub open spec fn spec_echo() -> Seq<u8> {
    seq![101u8, 99u8, 104u8, 111u8]
}

pub fn lit_echo() -> (r: Vec<u8>)
    ensures
        r@ == spec_echo(),
{
    let a: [u8; 4] = [101u8, 99u8, 104u8, 111u8];
    let v = slice_to_vec(a.as_slice());
    proof {
        assert(v@ =~= spec_echo());
    }
    v
}

/// `"GET"`
pub open spec fn spec_get() -> Seq<u8> {
    seq![71u8, 69u8, 84u8]
}

pub fn lit_get() -> (r: Vec<u8>)
    ensures
        r@ == spec_get(),
{
    let a: [u8; 3] = [71u8, 69u8, 84u8];
    let v = slice_to_vec(a.as_slice());
    proof {
        assert(v@ =~= spec_get());
    }
    v
}

/// `"POST"`
pub open spec fn spec_post() -> Seq<u8> {
    seq![80u8, 79u8, 83u8, 84u8]
}

pub fn lit_post() -> (r: Vec<u8>)
    ensures
        r@ == spec_post(),
{
    let a: [u8; 4] = [80u8, 79u8, 83u8, 84u8];
    let v = slice_to_vec(a.as_slice());
    proof {
        assert(v@ =~= spec_post());
    }
    v
}

/// `"User-Agent"`
pub open spec fn spec_user_agent() -> Seq<u8> {
    seq![85u8, 115u8, 101u8, 114u8, 45u8, 65u8, 103u8, 101u8, 110u8, 116u8]
}

pub fn lit_user_agent() -> (r: Vec<u8>)
    ensures
        r@ == spec_user_agent(),
{
    let a: [u8; 10] = [85u8, 115u8, 101u8, 114u8, 45u8, 65u8, 103u8, 101u8, 110u8, 116u8];
    let v = slice_to_vec(a.as_slice());
    proof {
        assert(v@ =~= spec_user_agent());
    }
    v
}

/// `"Accept-Encoding"`
pub open spec fn spec_accept_encoding() -> Seq<u8> {
    seq![
        65u8, 99u8, 99u8, 101u8, 112u8, 116u8, 45u8, 69u8, 110u8, 99u8, 111u8, 100u8, 105u8,
        110u8, 103u8,
    ]
}

pub fn lit_accept_encoding() -> (r: Vec<u8>)
    ensures
        r@ == spec_accept_encoding(),
{
    let a: [u8; 15] = [
        65u8, 99u8, 99u8, 101u8, 112u8, 116u8, 45u8, 69u8, 110u8, 99u8, 111u8, 100u8, 105u8,
        110u8, 103u8,
    ];
    let v = slice_to_vec(a.as_slice());
    proof {
        assert(v@ =~= spec_accept_encoding());
    }
    v
}

/// `"gzip"`
pub open spec fn spec_gzip() -> Seq<u8> {
    seq![103u8, 122u8, 105u8, 112u8]
}

pub fn lit_gzip() -> (r: Vec<u8>)
    ensures
        r@ == spec_gzip(),
{
    let a: [u8; 4] = [103u8, 122u8, 105u8, 112u8];
    let v = slice_to_vec(a.as_slice());
    proof {
        assert(v@ =~= spec_gzip());
    }
    v
}

/// `"Content-Length"`
pub open spec fn spec_content_length() -> Seq<u8> {
    seq![67u8, 111u8, 110u8, 116u8, 101u8, 110u8, 116u8, 45u8, 76u8, 101u8, 110u8, 103u8, 116u8, 104u8]
}

pub fn lit_content_length() -> (r: Vec<u8>)
    ensures
        r@ == spec_content_length(),
{
    let a: [u8; 14] = [
        67u8, 111u8, 110u8, 116u8, 101u8, 110u8, 116u8, 45u8, 76u8, 101u8, 110u8, 103u8, 116u8,
        104u8,
    ];
    let v = slice_to_vec(a.as_slice());
    proof {
        assert(v@ =~= spec_content_length());
    }
    v
}

/// `"Content-Type"`
pub open spec fn spec_content_type() -> Seq<u8> {
    seq![67u8, 111u8, 110u8, 116u8, 101u8, 110u8, 116u8, 45u8, 84u8, 121u8, 112u8, 101u8]
}

pub fn lit_content_type() -> (r: Vec<u8>)
    ensures
        r@ == spec_content_type(),
{
    let a: [u8; 12] = [
        67u8, 111u8, 110u8, 116u8, 101u8, 110u8, 116u8, 45u8, 84u8, 121u8, 112u8, 101u8,
    ];
    let v = slice_to_vec(a.as_slice());
    proof {
        assert(v@ =~= spec_content_type());
    }
    v
}

/// `"Content-Encoding"`
pub open spec fn spec_content_encoding() -> Seq<u8> {
    seq![
        67u8, 111u8, 110u8, 116u8, 101u8, 110u8, 116u8, 45u8, 69u8, 110u8, 99u8, 111u8, 100u8,
        105u8, 110u8, 103u8,
    ]
}

pub fn lit_content_encoding() -> (r: Vec<u8>)
    ensures
        r@ == spec_content_encoding(),
{
    let a: [u8; 16] = [
        67u8, 111u8, 110u8, 116u8, 101u8, 110u8, 116u8, 45u8, 69u8, 110u8, 99u8, 111u8, 100u8,
        105u8, 110u8, 103u8,
    ];
    let v = slice_to_vec(a.as_slice());
    proof {
        assert(v@ =~= spec_content_encoding());
    }
    v
}

/// `"text/plain"`
pub open spec fn spec_text_plain() -> Seq<u8> {
    seq![116u8, 101u8, 120u8, 116u8, 47u8, 112u8, 108u8, 97u8, 105u8, 110u8]
}

pub fn lit_text_plain() -> (r: Vec<u8>)
    ensures
        r@ == spec_text_plain(),
{
    let a: [u8; 10] = [116u8, 101u8, 120u8, 116u8, 47u8, 112u8, 108u8, 97u8, 105u8, 110u8];
    let v = slice_to_vec(a.as_slice());
    proof {
        assert(v@ =~= spec_text_plain());
    }
    v
}

/// `"application/octet-stream"`
pub open spec fn spec_octet_stream() -> Seq<u8> {
    seq![
        97u8, 112u8, 112u8, 108u8, 105u8, 99u8, 97u8, 116u8, 105u8, 111u8, 110u8, 47u8, 111u8,
        99u8, 116u8, 101u8, 116u8, 45u8, 115u8, 116u8, 114u8, 101u8, 97u8, 109u8,
    ]
}

pub fn lit_octet_stream() -> (r: Vec<u8>)
    ensures
        r@ == spec_octet_stream(),
{
    let a: [u8; 24] = [
        97u8, 112u8, 112u8, 108u8, 105u8, 99u8, 97u8, 116u8, 105u8, 111u8, 110u8, 47u8, 111u8,
        99u8, 116u8, 101u8, 116u8, 45u8, 115u8, 116u8, 114u8, 101u8, 97u8, 109u8,
    ];
    let v = slice_to_vec(a.as_slice());
    proof {
        assert(v@ =~= spec_octet_stream());
    }
    v
}

/// `"OK"`
pub open spec fn spec_ok() -> Seq<u8> {
    seq![79u8, 75u8]
}

pub fn lit_ok() -> (r: Vec<u8>)
    ensures
        r@ == spec_ok(),
{
    let a: [u8; 2] = [79u8, 75u8];
    let v = slice_to_vec(a.as_slice());
    proof {
        assert(v@ =~= spec_ok());
    }
    v
}

/// `"Created"`
pub open spec fn spec_created() -> Seq<u8> {
    seq![67u8, 114u8, 101u8, 97u8, 116u8, 101u8, 100u8]
}

pub fn lit_created() -> (r: Vec<u8>)
    ensures
        r@ == spec_created(),
{
    let a: [u8; 7] = [67u8, 114u8, 101u8, 97u8, 116u8, 101u8, 100u8];
    let v = slice_to_vec(a.as_slice());
    proof {
        assert(v@ =~= spec_created());
    }
    v
}

/// `"Bad Request"`
pub open spec fn spec_bad_request() -> Seq<u8> {
    seq![66u8, 97u8, 100u8, 32u8, 82u8, 101u8, 113u8, 117u8, 101u8, 115u8, 116u8]
}

pub fn lit_bad_request() -> (r: Vec<u8>)
    ensures
        r@ == spec_bad_request(),
{
    let a: [u8; 11] = [66u8, 97u8, 100u8, 32u8, 82u8, 101u8, 113u8, 117u8, 101u8, 115u8, 116u8];
    let v = slice_to_vec(a.as_slice());
    proof {
        assert(v@ =~= spec_bad_request());
    }
    v
}

/// `"Not Found"`
pub open spec fn spec_not_found() -> Seq<u8> {
    seq![78u8, 111u8, 116u8, 32u8, 70u8, 111u8, 117u8, 110u8, 100u8]
}

pub fn lit_not_found() -> (r: Vec<u8>)
    ensures
        r@ == spec_not_found(),
{
    let a: [u8; 9] = [78u8, 111u8, 116u8, 32u8, 70u8, 111u8, 117u8, 110u8, 100u8];
    let v = slice_to_vec(a.as_slice());
    proof {
        assert(v@ =~= spec_not_found());
    }
    v
}

/// `"HTTP/1.1 "` — the fixed status-line prefix, trailing space included.
pub open spec fn spec_http_prefix() -> Seq<u8> {
    seq![72u8, 84u8, 84u8, 80u8, 47u8, 49u8, 46u8, 49u8, 32u8]
}

pub fn lit_http_prefix() -> (r: Vec<u8>)
    ensures
        r@ == spec_http_prefix(),
{
    let a: [u8; 9] = [72u8, 84u8, 84u8, 80u8, 47u8, 49u8, 46u8, 49u8, 32u8];
    let v = slice_to_vec(a.as_slice());
    proof {
        assert(v@ =~= spec_http_prefix());
    }
    v
}

} // verus!
