//! Routing and handling: map a parsed request to a response or, for
//! the file route, to the read or write the caller must perform, and
//! drive one connection from raw bytes to the reply.
//!
//! Patterns are exact on the segment sequence: `files/{name}` (GET
//! reads, POST writes the declared body), `user-agent`, `echo/{value}`
//! (gzip-encoded when `Accept-Encoding` contains `gzip`), and the root
//! `/`. Anything else is 404. The filesystem behind the file route
//! belongs to the caller, who reports its outcome back through
//! `file_read_response` / `file_write_response`.
use vstd::prelude::*;
use crate::bytes::{bytes_eq, contains_seq, contains_sub, dec_digits, slice_to_vec, usize_to_dec};
use crate::gzip::{gzip_compress, gzip_of};
use crate::lit::{
    lit_accept_encoding, lit_bad_request, lit_content_length, lit_content_type, lit_created,
    lit_echo, lit_files, lit_get, lit_gzip, lit_not_found, lit_octet_stream, lit_ok, lit_post,
    lit_text_plain, lit_user_agent, lit_user_agent_seg, spec_accept_encoding, spec_bad_request,
    spec_content_length, spec_content_type, spec_content_encoding, spec_created, spec_echo,
    spec_files, spec_get, spec_gzip, spec_not_found, spec_octet_stream, spec_ok, spec_post,
    spec_text_plain, spec_user_agent, spec_user_agent_seg, lit_content_encoding,
};
use crate::request::{
    headers_view, lookup_header, lookup_header_spec, parse_request, ParseError, ReqView, Request,
    spec_parse,
};
use crate::response::{serialize_response, spec_serialize, RespView, Response};

verus! {

/// What a routed request asks of the connection driver: a finished
/// response, or a filesystem step only the caller can take.
pub enum RouteAction {
    /// The response is complete.
    Done(Response),
    /// Read the named file and answer with `file_read_response`.
    FileRead(Vec<u8>),
    /// Write the bytes to the named file and answer with
    /// `file_write_response`.
    FileWrite(Vec<u8>, Vec<u8>),
}

/// Mathematical image of a route action.
#[verifier::ext_equal]
pub ghost enum ActionView {
    Done(RespView),
    FileRead(Seq<u8>),
    FileWrite(Seq<u8>, Seq<u8>),
}

impl View for RouteAction {
    type V = ActionView;

    open spec fn view(&self) -> ActionView {
        match self {
            RouteAction::Done(resp) => ActionView::Done(resp@),
            RouteAction::FileRead(name) => ActionView::FileRead(name@),
            RouteAction::FileWrite(name, body) => ActionView::FileWrite(name@, body@),
        }
    }
}

/// A response with a status line only: no headers, no body.
pub open spec fn resp_empty(code: u16, reason: Seq<u8>) -> RespView {
    RespView { code, reason, headers: Seq::empty(), body: Seq::empty() }
}

pub open spec fn resp_not_found() -> RespView {
    resp_empty(404, spec_not_found())
}

pub open spec fn resp_bad_request() -> RespView {
    resp_empty(400, spec_bad_request())
}

pub open spec fn resp_root() -> RespView {
    resp_empty(200, spec_ok())
}

pub open spec fn resp_created() -> RespView {
    resp_empty(201, spec_created())
}

/// A 200 response carrying `body` under the given media type, with
/// its exact byte length declared.
pub open spec fn resp_with_body(ctype: Seq<u8>, body: Seq<u8>) -> RespView {
    RespView {
        code: 200,
        reason: spec_ok(),
        headers: seq![
            (spec_content_type(), ctype),
            (spec_content_length(), dec_digits(body.len())),
        ],
        body,
    }
}

/// A 200 echo response whose body is gzip-encoded.
pub open spec fn resp_gzip_echo(body: Seq<u8>) -> RespView {
    RespView {
        code: 200,
        reason: spec_ok(),
        headers: seq![
            (spec_content_encoding(), spec_gzip()),
            (spec_content_type(), spec_text_plain()),
            (spec_content_length(), dec_digits(body.len())),
        ],
        body,
    }
}

/// The route table: which action a parsed request yields. A POST to
/// the file route without a declared body is answered 400; any other
/// method there, and any unmatched pattern, 404.
pub open spec fn spec_route(r: ReqView) -> ActionView {
    if r.segments.len() == 2 && r.segments[0] == spec_files() {
        if r.method == spec_get() {
            ActionView::FileRead(r.segments[1])
        } else if r.method == spec_post() {
            match r.body {
                Some(b) => ActionView::FileWrite(r.segments[1], b),
                None => ActionView::Done(resp_bad_request()),
            }
        } else {
            ActionView::Done(resp_not_found())
        }
    } else if r.segments.len() == 1 && r.segments[0] == spec_user_agent_seg() {
        match lookup_header_spec(r.headers, spec_user_agent()) {
            Some(v) => ActionView::Done(resp_with_body(spec_text_plain(), v)),
            None => ActionView::Done(resp_bad_request()),
        }
    } else if r.segments.len() == 2 && r.segments[0] == spec_echo() {
        match lookup_header_spec(r.headers, spec_accept_encoding()) {
            Some(enc) => if contains_sub(enc, spec_gzip()) {
                ActionView::Done(resp_gzip_echo(gzip_of(r.segments[1])))
            } else {
                ActionView::Done(resp_with_body(spec_text_plain(), r.segments[1]))
            },
            None => ActionView::Done(resp_with_body(spec_text_plain(), r.segments[1])),
        }
    } else if r.segments.len() == 1 && r.segments[0] == Seq::<u8>::empty() {
        ActionView::Done(resp_root())
    } else {
        ActionView::Done(resp_not_found())
    }
}

fn mk_empty(code: u16, reason: Vec<u8>) -> (r: Response)
    ensures
        r@ == resp_empty(code, reason@),
{
    let r = Response { code, reason, headers: Vec::new(), body: Vec::new() };
    proof {
        assert(headers_view(r.headers@) =~= Seq::<(Seq<u8>, Seq<u8>)>::empty());
        assert(r.body@ =~= Seq::<u8>::empty());
        assert(r@ =~~= resp_empty(code, r.reason@));
    }
    r
}

fn mk_with_body(ctype: Vec<u8>, body: Vec<u8>) -> (r: Response)
    ensures
        r@ == resp_with_body(ctype@, body@),
{
    let ghost ct = ctype@;
    let ghost bd = body@;
    let len_bytes = usize_to_dec(body.len());
    let mut headers: Vec<(Vec<u8>, Vec<u8>)> = Vec::new();
    headers.push((lit_content_type(), ctype));
    headers.push((lit_content_length(), len_bytes));
    let r = Response { code: 200, reason: lit_ok(), headers, body };
    proof {
        assert(headers_view(r.headers@) =~= resp_with_body(ct, bd).headers);
        assert(r@ =~~= resp_with_body(ct, bd));
    }
    r
}

fn mk_gzip_echo(body: Vec<u8>) -> (r: Response)
    ensures
        r@ == resp_gzip_echo(body@),
{
    let ghost bd = body@;
    let len_bytes = usize_to_dec(body.len());
    let mut headers: Vec<(Vec<u8>, Vec<u8>)> = Vec::new();
    headers.push((lit_content_encoding(), lit_gzip()));
    headers.push((lit_content_type(), lit_text_plain()));
    headers.push((lit_content_length(), len_bytes));
    let r = Response { code: 200, reason: lit_ok(), headers, body };
    proof {
        assert(headers_view(r.headers@) =~= resp_gzip_echo(bd).headers);
        assert(r@ =~~= resp_gzip_echo(bd));
    }
    r
}

/// Route a parsed request to its action, building the response for
/// every route that needs no filesystem step.
pub fn route(req: &Request) -> (r: RouteAction)
    ensures
        r@ == spec_route(req@),
{
    let files_seg = lit_files();
    let ua_seg = lit_user_agent_seg();
    let echo_seg = lit_echo();
    if req.segments.len() == 2 && bytes_eq(req.segments[0].as_slice(), files_seg.as_slice()) {
        let act: RouteAction;
        if bytes_eq(req.method.as_slice(), lit_get().as_slice()) {
            act = RouteAction::FileRead(slice_to_vec(req.segments[1].as_slice()));
        } else if bytes_eq(req.method.as_slice(), lit_post().as_slice()) {
            match &req.body {
                Some(b) => {
                    act = RouteAction::FileWrite(
                        slice_to_vec(req.segments[1].as_slice()),
                        slice_to_vec(b.as_slice()),
                    );
                },
                None => {
                    act = RouteAction::Done(mk_empty(400, lit_bad_request()));
                },
            }
        } else {
            act = RouteAction::Done(mk_empty(404, lit_not_found()));
        }
        proof {
            assert(act@ =~~= spec_route(req@));
        }
        act
    } else if req.segments.len() == 1 && bytes_eq(req.segments[0].as_slice(), ua_seg.as_slice()) {
        let act: RouteAction = match lookup_header(&req.headers, lit_user_agent().as_slice()) {
            Some(v) => RouteAction::Done(mk_with_body(lit_text_plain(), v)),
            None => RouteAction::Done(mk_empty(400, lit_bad_request())),
        };
        proof {
            assert(act@ =~~= spec_route(req@));
        }
        act
    } else if req.segments.len() == 2 && bytes_eq(req.segments[0].as_slice(), echo_seg.as_slice()) {
        let act: RouteAction = match lookup_header(&req.headers, lit_accept_encoding().as_slice()) {
            Some(enc) => {
                if contains_seq(enc.as_slice(), lit_gzip().as_slice()) {
                    let compressed = gzip_compress(req.segments[1].as_slice());
                    RouteAction::Done(mk_gzip_echo(compressed))
                } else {
                    RouteAction::Done(
                        mk_with_body(lit_text_plain(), slice_to_vec(req.segments[1].as_slice())),
                    )
                }
            },
            None => RouteAction::Done(
                mk_with_body(lit_text_plain(), slice_to_vec(req.segments[1].as_slice())),
            ),
        };
        proof {
            assert(act@ =~~= spec_route(req@));
        }
        act
    } else if req.segments.len() == 1 && req.segments[0].len() == 0 {
        proof {
            assert(req@.segments[0] =~= Seq::<u8>::empty());
        }
        let act = RouteAction::Done(mk_empty(200, lit_ok()));
        proof {
            assert(act@ =~~= spec_route(req@));
        }
        act
    } else {
        proof {
            if req@.segments.len() == 1 && req@.segments[0] == Seq::<u8>::empty() {
                assert(req.segments[0]@.len() == 0);
            }
        }
        let act = RouteAction::Done(mk_empty(404, lit_not_found()));
        proof {
            assert(act@ =~~= spec_route(req@));
        }
        act
    }
}

/// View of an optional byte vector.
pub open spec fn opt_bytes_view(c: Option<Vec<u8>>) -> Option<Seq<u8>> {
    match c {
        Some(b) => Some(b@),
        None => None,
    }
}

/// The response to a file read: the content under
/// `application/octet-stream` when the store had the file, 404 with an
/// empty body when it did not (every read failure collapses to 404).
pub open spec fn spec_file_read_response(c: Option<Seq<u8>>) -> RespView {
    match c {
        Some(b) => resp_with_body(spec_octet_stream(), b),
        None => resp_not_found(),
    }
}

pub fn file_read_response(content: Option<Vec<u8>>) -> (r: Response)
    ensures
        r@ == spec_file_read_response(opt_bytes_view(content)),
{
    match content {
        Some(b) => mk_with_body(lit_octet_stream(), b),
        None => mk_empty(404, lit_not_found()),
    }
}

/// The response to a file write: 201 on success, 404 on any failure.
pub open spec fn spec_file_write_response(ok: bool) -> RespView {
    if ok {
        resp_created()
    } else {
        resp_not_found()
    }
}

pub fn file_write_response(ok: bool) -> (r: Response)
    ensures
        r@ == spec_file_write_response(ok),
{
    if ok {
        mk_empty(201, lit_created())
    } else {
        mk_empty(404, lit_not_found())
    }
}

/// What one connection's bytes lead to: the reply to write back, or
/// the filesystem step to take first.
pub enum ConnectionStep {
    /// Write these bytes back.
    Reply(Vec<u8>),
    /// Read the named file, then write back the serialized
    /// `file_read_response` of the outcome.
    FileRead(Vec<u8>),
    /// Write the bytes to the named file, then write back the
    /// serialized `file_write_response` of the outcome.
    FileWrite(Vec<u8>, Vec<u8>),
}

/// Mathematical image of a connection step.
#[verifier::ext_equal]
pub ghost enum StepView {
    Reply(Seq<u8>),
    FileRead(Seq<u8>),
    FileWrite(Seq<u8>, Seq<u8>),
}

impl View for ConnectionStep {
    type V = StepView;

    open spec fn view(&self) -> StepView {
        match self {
            ConnectionStep::Reply(bytes) => StepView::Reply(bytes@),
            ConnectionStep::FileRead(name) => StepView::FileRead(name@),
            ConnectionStep::FileWrite(name, body) => StepView::FileWrite(name@, body@),
        }
    }
}

/// Parsing, routing, handling, and serialization for one connection.
pub open spec fn spec_handle(input: Seq<u8>) -> Result<StepView, ParseError> {
    match spec_parse(input) {
        Err(e) => Err(e),
        Ok(rq) => Ok(
            match spec_route(rq) {
                ActionView::Done(resp) => StepView::Reply(spec_serialize(resp)),
                ActionView::FileRead(name) => StepView::FileRead(name),
                ActionView::FileWrite(name, b) => StepView::FileWrite(name, b),
            },
        ),
    }
}

/// Drive one connection: parse the raw bytes, route, handle, and
/// serialize. A parse failure is returned to the caller, who closes
/// just that connection.
pub fn handle_bytes(input: &[u8]) -> (r: Result<ConnectionStep, ParseError>)
    ensures
        match r {
            Ok(s) => spec_handle(input@) == Ok::<StepView, ParseError>(s@),
            Err(e) => spec_handle(input@) == Err::<StepView, ParseError>(e),
        },
{
    match parse_request(input) {
        Err(e) => Err(e),
        Ok(rq) => {
            match route(&rq) {
                RouteAction::Done(resp) => {
                    let reply = serialize_response(&resp);
                    Ok(ConnectionStep::Reply(reply))
                },
                RouteAction::FileRead(name) => Ok(ConnectionStep::FileRead(name)),
                RouteAction::FileWrite(name, body) => Ok(ConnectionStep::FileWrite(name, body)),
            }
        },
    }
}

} // verus!
