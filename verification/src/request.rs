//! Request parsing: one HTTP/1.1 request read from raw bytes.
//!
//! The request line is the bytes before the first CRLF, split on
//! single spaces; fewer than two tokens is a malformed request line.
//! The second token, split on `/` with the leading empty piece
//! dropped, gives the path segments. Header lines follow, one per
//! CRLF, until an empty line; a line without a colon is skipped, any
//! other is split at its first colon and both sides trimmed. Header
//! names compare case-insensitively and the last occurrence of a name
//! wins. A `Content-Length` header must be a non-negative decimal and
//! declares the body: exactly that many bytes after the empty line.
use vstd::prelude::*;
use crate::bytes::{
    all_digits, dec_value, eq_ignore_ascii, find_byte, find_byte_idx, find_crlf,
    find_crlf_idx, lemma_find_byte_idx, lemma_find_crlf_idx, lemma_split_on_len, lower_seq,
    parse_dec, segs_view, slice_to_vec, split_bytes, split_on, subvec, trim, trim_spec,
};
use crate::lit::{lit_content_length, spec_content_length};

verus! {

/// Why a byte stream failed to parse as a request.
#[derive(Clone, Copy, Debug, PartialEq, Eq, Structural)]
pub enum ParseError {
    /// No CRLF-terminated request line, or fewer than two tokens on it.
    MalformedRequestLine,
    /// A `Content-Length` value that is not a non-negative decimal
    /// number in range.
    MalformedHeader,
    /// The stream ends before the declared body length is reached.
    TruncatedBody,
}

/// Mathematical image of a parsed request.
#[verifier::ext_equal]
pub ghost struct ReqView {
    pub method: Seq<u8>,
    pub segments: Seq<Seq<u8>>,
    pub headers: Seq<(Seq<u8>, Seq<u8>)>,
    pub body: Option<Seq<u8>>,
}

/// A parsed request: method token, path segments, header pairs in
/// order of arrival, and the body when a length was declared.
#[derive(Debug)]
pub struct Request {
    pub method: Vec<u8>,
    pub segments: Vec<Vec<u8>>,
    pub headers: Vec<(Vec<u8>, Vec<u8>)>,
    pub body: Option<Vec<u8>>,
}

/// View of header pairs as sequences.
pub open spec fn headers_view(hs: Seq<(Vec<u8>, Vec<u8>)>) -> Seq<(Seq<u8>, Seq<u8>)> {
    hs.map_values(|p: (Vec<u8>, Vec<u8>)| (p.0@, p.1@))
}

impl View for Request {
    type V = ReqView;

    open spec fn view(&self) -> ReqView {
        ReqView {
            method: self.method@,
            segments: segs_view(self.segments@),
            headers: headers_view(self.headers@),
            body: match self.body {
                Some(b) => Some(b@),
                None => None,
            },
        }
    }
}

/// Header pairs contributed by one header line: one pair when the
/// line has a colon, none otherwise.
pub open spec fn line_pairs(line: Seq<u8>) -> Seq<(Seq<u8>, Seq<u8>)> {
    let j = find_byte_idx(line, 58, 0);
    if j >= line.len() {
        Seq::empty()
    } else {
        seq![(trim_spec(line.take(j)), trim_spec(line.skip(j + 1)))]
    }
}

/// Parse the header section: pairs in order, and the bytes after the
/// empty line. A stream that ends before the empty line ends the
/// section there, its final partial line treated as a header line.
pub open spec fn parse_headers(s: Seq<u8>) -> (Seq<(Seq<u8>, Seq<u8>)>, Seq<u8>)
    decreases s.len(),
    via parse_headers_dec
{
    let i = find_crlf_idx(s, 0);
    if i + 1 >= s.len() {
        if s.len() == 0 {
            (Seq::empty(), Seq::empty())
        } else {
            (line_pairs(s), Seq::empty())
        }
    } else if i == 0 {
        (Seq::empty(), s.skip(2))
    } else {
        let rec = parse_headers(s.skip(i + 2));
        (line_pairs(s.take(i)) + rec.0, rec.1)
    }
}

#[via_fn]
proof fn parse_headers_dec(s: Seq<u8>) {
    lemma_find_crlf_idx(s, 0);
}

/// Case-insensitive header lookup; the last occurrence wins.
pub open spec fn lookup_header_spec(hs: Seq<(Seq<u8>, Seq<u8>)>, name: Seq<u8>) -> Option<Seq<u8>>
    decreases hs.len(),
{
    if hs.len() == 0 {
        None
    } else if lower_seq(hs.last().0) == lower_seq(name) {
        Some(hs.last().1)
    } else {
        lookup_header_spec(hs.drop_last(), name)
    }
}

/// What parsing a whole byte stream yields.
pub open spec fn spec_parse(input: Seq<u8>) -> Result<ReqView, ParseError> {
    let i = find_crlf_idx(input, 0);
    if i + 1 >= input.len() {
        Err(ParseError::MalformedRequestLine)
    } else {
        let toks = split_on(trim_spec(input.take(i)), 32);
        if toks.len() < 2 {
            Err(ParseError::MalformedRequestLine)
        } else {
            let hp = parse_headers(input.skip(i + 2));
            let segments = split_on(toks[1], 47).drop_first();
            match lookup_header_spec(hp.0, spec_content_length()) {
                None => Ok(
                    ReqView { method: toks[0], segments, headers: hp.0, body: None },
                ),
                Some(v) => if v.len() == 0 || !all_digits(v) || dec_value(v) > usize::MAX as nat {
                    Err(ParseError::MalformedHeader)
                } else if hp.1.len() < dec_value(v) {
                    Err(ParseError::TruncatedBody)
                } else {
                    Ok(
                        ReqView {
                            method: toks[0],
                            segments,
                            headers: hp.0,
                            body: Some(hp.1.take(dec_value(v) as int)),
                        },
                    )
                },
            }
        }
    }
}

/// View of an executable parse result.
pub open spec fn parse_result_view(r: Result<Request, ParseError>) -> Result<ReqView, ParseError> {
    match r {
        Ok(q) => Ok(q@),
        Err(e) => Err(e),
    }
}

/// The pair a header line contributes, if any.
fn header_pair(line: &[u8]) -> (r: Option<(Vec<u8>, Vec<u8>)>)
    ensures
        match r {
            Some(p) => line_pairs(line@) == seq![(p.0@, p.1@)],
            None => line_pairs(line@) == Seq::<(Seq<u8>, Seq<u8>)>::empty(),
        },
{
    let j = find_byte(line, 58);
    proof {
        lemma_find_byte_idx(line@, 58, 0);
    }
    if j >= line.len() {
        None
    } else {
        let key_raw = subvec(line, 0, j);
        let val_raw = subvec(line, j + 1, line.len());
        proof {
            assert(key_raw@ =~= line@.take(j as int));
            assert(val_raw@ =~= line@.skip(j + 1 as int));
        }
        let key = trim(key_raw.as_slice());
        let val = trim(val_raw.as_slice());
        Some((key, val))
    }
}

/// Case-insensitive lookup in parsed header pairs; the last
/// occurrence of the name wins, and its value is returned as a copy.
pub fn lookup_header(hs: &Vec<(Vec<u8>, Vec<u8>)>, name: &[u8]) -> (r: Option<Vec<u8>>)
    ensures
        match r {
            Some(v) => lookup_header_spec(headers_view(hs@), name@) == Some(v@),
            None => lookup_header_spec(headers_view(hs@), name@) is None,
        },
{
    let mut idx: usize = hs.len();
    proof {
        assert(headers_view(hs@).take(hs@.len() as int) =~= headers_view(hs@));
    }
    while idx > 0
        invariant
            0 <= idx <= hs@.len(),
            lookup_header_spec(headers_view(hs@), name@) == lookup_header_spec(
                headers_view(hs@).take(idx as int),
                name@,
            ),
        decreases idx,
    {
        if eq_ignore_ascii(hs[idx - 1].0.as_slice(), name) {
            let v = slice_to_vec(hs[idx - 1].1.as_slice());
            proof {
                let pref = headers_view(hs@).take(idx as int);
                assert(pref.last() == (hs@[idx - 1 as int].0@, hs@[idx - 1 as int].1@));
            }
            return Some(v);
        }
        proof {
            let pref = headers_view(hs@).take(idx as int);
            assert(pref.last() == (hs@[idx - 1 as int].0@, hs@[idx - 1 as int].1@));
            assert(pref.drop_last() =~= headers_view(hs@).take(idx - 1 as int));
        }
        idx -= 1;
    }
    proof {
        assert(headers_view(hs@).take(0) =~= Seq::<(Seq<u8>, Seq<u8>)>::empty());
    }
    None
}

/// Parse one request from the raw bytes of a connection.
pub fn parse_request(input: &[u8]) -> (r: Result<Request, ParseError>)
    ensures
        parse_result_view(r) == spec_parse(input@),
{
    let n = input.len();
    let i = find_crlf(input);
    proof {
        lemma_find_crlf_idx(input@, 0);
    }
    if n == 0 || i >= n - 1 {
        return Err(ParseError::MalformedRequestLine);
    }
    let line0 = subvec(input, 0, i);
    proof {
        assert(line0@ =~= input@.take(i as int));
    }
    let t = trim(line0.as_slice());
    let mut toks = split_bytes(t.as_slice(), 32);
    let ghost toks0 = split_on(trim_spec(input@.take(i as int)), 32);
    proof {
        assert(segs_view(toks@) == toks0);
        assert(toks@.len() == toks0.len());
    }
    if toks.len() < 2 {
        return Err(ParseError::MalformedRequestLine);
    }
    let method = toks.remove(0);
    let path = toks.remove(0);
    proof {
        assert(method@ == toks0[0]);
        assert(path@ == toks0[1]);
    }
    let mut segments = split_bytes(path.as_slice(), 47);
    proof {
        lemma_split_on_len(path@, 47);
        assert(segments@.len() == split_on(path@, 47).len());
    }
    segments.remove(0);
    proof {
        assert(segs_view(segments@) =~= split_on(toks0[1], 47).drop_first());
    }
    let rest0 = subvec(input, i + 2, n);
    proof {
        assert(rest0@ =~= input@.skip(i + 2 as int));
    }
    let ghost rest_snap: Seq<u8> = rest0@;
    let mut cur = rest0;
    let mut pairs: Vec<(Vec<u8>, Vec<u8>)> = Vec::new();
    let mut done: bool = false;
    while !done
        invariant
            done ==> parse_headers(rest_snap) == (headers_view(pairs@), cur@),
            !done ==> parse_headers(rest_snap).0 == headers_view(pairs@) + parse_headers(cur@).0
                && parse_headers(rest_snap).1 == parse_headers(cur@).1,
        decreases cur@.len() + (if done {
            0int
        } else {
            1int
        }),
    {
        let ghost cur_snap = cur@;
        let ghost pairs_snap = pairs@;
        let j = find_crlf(cur.as_slice());
        proof {
            lemma_find_crlf_idx(cur@, 0);
        }
        if cur.len() == 0 || j >= cur.len() - 1 {
            if cur.len() > 0 {
                match header_pair(cur.as_slice()) {
                    Some(p) => {
                        pairs.push(p);
                        proof {
                            assert(headers_view(pairs@) =~= headers_view(pairs_snap)
                                + line_pairs(cur_snap));
                        }
                    },
                    None => {
                        proof {
                            assert(headers_view(pairs@) =~= headers_view(pairs_snap)
                                + line_pairs(cur_snap));
                        }
                    },
                }
            }
            cur = Vec::new();
            done = true;
            proof {
                assert(cur@ =~= Seq::<u8>::empty());
                assert(parse_headers(rest_snap).0 =~= headers_view(pairs@));
                assert(parse_headers(rest_snap).1 =~= cur@);
                assert(parse_headers(rest_snap) == (headers_view(pairs@), cur@));
            }
        } else if j == 0 {
            let rest2 = subvec(cur.as_slice(), 2, cur.len());
            cur = rest2;
            done = true;
            proof {
                assert(cur@ =~= cur_snap.skip(2));
                assert(parse_headers(rest_snap).0 =~= headers_view(pairs@));
                assert(parse_headers(rest_snap) == (headers_view(pairs@), cur@));
            }
        } else {
            let line = subvec(cur.as_slice(), 0, j);
            proof {
                assert(line@ =~= cur_snap.take(j as int));
            }
            match header_pair(line.as_slice()) {
                Some(p) => {
                    pairs.push(p);
                    proof {
                        assert(headers_view(pairs@) =~= headers_view(pairs_snap) + line_pairs(
                            line@,
                        ));
                    }
                },
                None => {
                    proof {
                        assert(headers_view(pairs@) =~= headers_view(pairs_snap) + line_pairs(
                            line@,
                        ));
                    }
                },
            }
            let rest2 = subvec(cur.as_slice(), j + 2, cur.len());
            cur = rest2;
            proof {
                assert(cur@ =~= cur_snap.skip(j + 2 as int));
                assert(parse_headers(cur_snap).0 == line_pairs(line@) + parse_headers(cur@).0);
                assert(headers_view(pairs@) + parse_headers(cur@).0 =~= headers_view(pairs_snap)
                    + parse_headers(cur_snap).0);
            }
        }
    }
    let cl_name = lit_content_length();
    let cl = lookup_header(&pairs, cl_name.as_slice());
    match cl {
        None => {
            let req = Request { method, segments, headers: pairs, body: None };
            proof {
                let sp = spec_parse(input@);
                assert(sp == Ok::<ReqView, ParseError>(req@)) by {
                    assert(req@ =~~= sp.unwrap());
                }
            }
            Ok(req)
        },
        Some(v) => {
            match parse_dec(v.as_slice()) {
                None => Err(ParseError::MalformedHeader),
                Some(len) => {
                    if cur.len() < len {
                        Err(ParseError::TruncatedBody)
                    } else {
                        let b = subvec(cur.as_slice(), 0, len);
                        proof {
                            assert(b@ =~= cur@.take(len as int));
                        }
                        let req = Request { method, segments, headers: pairs, body: Some(b) };
                        proof {
                            let sp = spec_parse(input@);
                            assert(sp == Ok::<ReqView, ParseError>(req@)) by {
                                assert(req@ =~~= sp.unwrap());
                            }
                        }
                        Ok(req)
                    }
                },
            }
        },
    }
}

} // verus!
