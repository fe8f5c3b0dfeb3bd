//! The library's stated laws, proved over the route table, the file
//! responses, and the parser.
use vstd::prelude::*;
use crate::bytes::{
    contains_sub, dec_value, find_byte_idx, find_crlf_idx, lemma_dec_digits_value,
    lemma_find_byte_idx, split_on, trim_spec,
};
use crate::gzip::gzip_of;
use crate::handler::{
    resp_bad_request, resp_gzip_echo, resp_not_found, resp_root, resp_with_body,
    spec_file_read_response, spec_file_write_response, spec_route, ActionView,
};
use crate::lit::{
    spec_accept_encoding, spec_content_length, spec_echo, spec_files, spec_get, spec_gzip,
    spec_post, spec_text_plain, spec_user_agent, spec_user_agent_seg,
};
use crate::request::{lookup_header_spec, spec_parse, ParseError, ReqView};
use crate::response::content_length_ok;

verus! {

/// Every response the route table builds declares, when it declares a
/// length at all, the canonical numeral of the byte length of its
/// body — so the emitted `Content-Length` denotes that length exactly.
pub proof fn lemma_route_content_length(r: ReqView)
    ensures
        spec_route(r) matches ActionView::Done(resp) ==> content_length_ok(resp),
        spec_route(r) matches ActionView::Done(resp) ==> (lookup_header_spec(
            resp.headers,
            spec_content_length(),
        ) matches Some(v) ==> dec_value(v) == resp.body.len()),
{
    match spec_route(r) {
        ActionView::Done(resp) => {
            match lookup_header_spec(resp.headers, spec_content_length()) {
                Some(v) => lemma_dec_digits_value(resp.body.len()),
                None => (),
            }
        },
        _ => (),
    }
}

/// The file-route responses declare, when they declare a length at
/// all, the canonical numeral of the byte length of their body.
pub proof fn lemma_file_content_length(c: Option<Seq<u8>>, ok: bool)
    ensures
        content_length_ok(spec_file_read_response(c)),
        content_length_ok(spec_file_write_response(ok)),
        lookup_header_spec(spec_file_read_response(c).headers, spec_content_length())
            matches Some(v) ==> dec_value(v) == spec_file_read_response(c).body.len(),
{
    match lookup_header_spec(spec_file_read_response(c).headers, spec_content_length()) {
        Some(v) => lemma_dec_digits_value(spec_file_read_response(c).body.len()),
        None => (),
    }
}

/// Echo without gzip negotiation returns the free segment itself,
/// byte for byte, with status 200.
pub proof fn lemma_echo_identity(r: ReqView)
    requires
        r.segments.len() == 2,
        r.segments[0] == spec_echo(),
        lookup_header_spec(r.headers, spec_accept_encoding()) matches Some(e) ==> !contains_sub(
            e,
            spec_gzip(),
        ),
    ensures
        spec_route(r) == ActionView::Done(resp_with_body(spec_text_plain(), r.segments[1])),
        resp_with_body(spec_text_plain(), r.segments[1]).code == 200,
        resp_with_body(spec_text_plain(), r.segments[1]).body == r.segments[1],
{
    assert(spec_echo()[0] != spec_files()[0]);
}

/// Echo under gzip negotiation returns exactly the encoder's output
/// for the free segment, declared as `gzip`-encoded, with status 200.
/// That the encoding decompresses back to the segment is the
/// compressor's affair and is exercised by tests.
pub proof fn lemma_echo_gzip(r: ReqView, e: Seq<u8>)
    requires
        r.segments.len() == 2,
        r.segments[0] == spec_echo(),
        lookup_header_spec(r.headers, spec_accept_encoding()) == Some(e),
        contains_sub(e, spec_gzip()),
    ensures
        spec_route(r) == ActionView::Done(resp_gzip_echo(gzip_of(r.segments[1]))),
        resp_gzip_echo(gzip_of(r.segments[1])).body == gzip_of(r.segments[1]),
        resp_gzip_echo(gzip_of(r.segments[1])).code == 200,
{
    assert(spec_echo()[0] != spec_files()[0]);
}

/// Write-then-read round trip on the file route: a POST of body `b`
/// to a name asks the store to write exactly `b` there, a GET of the
/// same name asks it to read that name, and when the store returns
/// what was written the response is 200 with exactly `b`.
pub proof fn lemma_file_round_trip(post: ReqView, get: ReqView, name: Seq<u8>, b: Seq<u8>)
    requires
        post.segments == seq![spec_files(), name],
        post.method == spec_post(),
        post.body == Some(b),
        get.segments == seq![spec_files(), name],
        get.method == spec_get(),
    ensures
        spec_route(post) == ActionView::FileWrite(name, b),
        spec_route(get) == ActionView::FileRead(name),
        spec_file_read_response(Some(b)).code == 200,
        spec_file_read_response(Some(b)).body == b,
{
    assert(spec_get()[0] != spec_post()[0]);
}

/// A GET under `files/` whose name the store does not have answers
/// 404 with an empty body.
pub proof fn lemma_missing_file(get: ReqView, name: Seq<u8>)
    requires
        get.segments == seq![spec_files(), name],
        get.method == spec_get(),
    ensures
        spec_route(get) == ActionView::FileRead(name),
        spec_file_read_response(None).code == 404,
        spec_file_read_response(None).body.len() == 0,
{
}

/// The user-agent route: a missing `User-Agent` header answers 400;
/// a present one answers 200 with the header's value as the body.
pub proof fn lemma_user_agent(r: ReqView)
    requires
        r.segments.len() == 1,
        r.segments[0] == spec_user_agent_seg(),
    ensures
        lookup_header_spec(r.headers, spec_user_agent()) is None ==> spec_route(r)
            == ActionView::Done(resp_bad_request()) && resp_bad_request().code == 400,
        lookup_header_spec(r.headers, spec_user_agent()) matches Some(v) ==> spec_route(r)
            == ActionView::Done(resp_with_body(spec_text_plain(), v)) && resp_with_body(
            spec_text_plain(),
            v,
        ).code == 200 && resp_with_body(spec_text_plain(), v).body == v,
{
}

/// Any segment sequence matching none of the four patterns answers
/// 404 with an empty body.
pub proof fn lemma_unmatched_not_found(r: ReqView)
    requires
        !(r.segments.len() == 2 && r.segments[0] == spec_files()),
        !(r.segments.len() == 1 && r.segments[0] == spec_user_agent_seg()),
        !(r.segments.len() == 2 && r.segments[0] == spec_echo()),
        !(r.segments.len() == 1 && r.segments[0] == Seq::<u8>::empty()),
    ensures
        spec_route(r) == ActionView::Done(resp_not_found()),
        resp_not_found().code == 404,
        resp_not_found().body.len() == 0,
{
}

/// The root path answers 200 with no headers and no body.
pub proof fn lemma_root(r: ReqView)
    requires
        r.segments == seq![Seq::<u8>::empty()],
    ensures
        spec_route(r) == ActionView::Done(resp_root()),
        resp_root().code == 200,
        resp_root().headers.len() == 0,
        resp_root().body.len() == 0,
{
    assert(r.segments[0].len() == 0);
    assert(r.segments[0] != spec_user_agent_seg());
}

/// A request line without a space — a single token — fails cleanly as
/// a malformed request line, never as anything worse.
pub proof fn lemma_one_token_fails(input: Seq<u8>)
    requires
        forall|j: int|
            0 <= j < trim_spec(input.take(find_crlf_idx(input, 0))).len() ==> trim_spec(
                input.take(find_crlf_idx(input, 0)),
            )[j] != 32,
    ensures
        spec_parse(input) == Err::<ReqView, ParseError>(ParseError::MalformedRequestLine),
{
    let i = find_crlf_idx(input, 0);
    if i + 1 < input.len() {
        let t = trim_spec(input.take(i));
        lemma_find_byte_idx(t, 32, 0);
        assert(find_byte_idx(t, 32, 0) == t.len());
        assert(split_on(t, 32) == seq![t]);
    }
}

} // verus!
