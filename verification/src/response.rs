//! Parsing the adaptation server's reply head: status line, persistence,
//! and the encapsulated-payload declaration, under a bounded header size.
//! The grammar is stated constructively (`spec_head_ok` and the `_at`
//! accessors), so parsing is complete: a head the grammar accepts is never
//! rejected, and a rejection refutes the grammar.

use vstd::prelude::*;
use vstd::slice::slice_subrange;

use crate::encode::push_all;
use crate::error::AdaptationError;
use crate::scan::{
    all_dec_digits, dec_run_ok, dec_run_value, eq_at, find_from, first_match, has_match,
    lemma_first_match, lemma_match_at_subrange, match_at, read_dec,
};
use crate::tokens::{
    conn_close_bytes, crlf_bytes, head_end_bytes, null_body_bytes, res_body_bytes, res_hdr_bytes,
    status_prefix_bytes, tok_conn_close, tok_crlf, tok_head_end, tok_null_body, tok_res_body,
    tok_res_hdr, tok_status_prefix,
};

verus! {

/// How the reply's encapsulated section is laid out.
#[derive(Clone, Copy, Debug, PartialEq, Eq, Structural)]
pub enum ResponsePayload {
    /// The reply carries no embedded HTTP message.
    NoPayload,
    /// An embedded HTTP header of the given size, with no body.
    HeadersOnly(usize),
    /// An embedded HTTP header of the given size, followed by a chunked
    /// body.
    HeadersWithBody(usize),
}

/// A parsed adaptation-server reply head.
pub struct AdaptationResponse {
    /// The status code of the reply.
    pub code: u16,
    /// The reason phrase of the status line.
    pub reason: Vec<u8>,
    /// Whether the server declared the connection reusable.
    pub keep_alive: bool,
    /// The declared payload layout.
    pub payload: ResponsePayload,
}

/// The status code spelled by the three digits of head positions 9 to 11.
pub open spec fn spec_head_code(head: Seq<u8>) -> u16 {
    (100 * (head[9] - 48) + 10 * (head[10] - 48) + (head[11] - 48)) as u16
}

/// The header-field region of a head: everything after the status line.
/// Payload and persistence tokens count only here, never in the reason
/// phrase.
pub open spec fn head_fields(head: Seq<u8>) -> Seq<u8> {
    head.subrange(first_match(head, tok_crlf()) + 2, head.len() as int)
}

/// The payload layout a field region declares.
pub open spec fn spec_fields_payload(fields: Seq<u8>) -> ResponsePayload {
    if has_match(fields, tok_res_body()) {
        ResponsePayload::HeadersWithBody(
            dec_run_value(fields, first_match(fields, tok_res_body()) + tok_res_body().len())
                as usize,
        )
    } else if has_match(fields, tok_null_body()) && has_match(fields, tok_res_hdr()) {
        ResponsePayload::HeadersOnly(
            dec_run_value(fields, first_match(fields, tok_null_body()) + tok_null_body().len())
                as usize,
        )
    } else {
        ResponsePayload::NoPayload
    }
}

/// The payload layout the head's field region declares.
pub open spec fn spec_head_payload(head: Seq<u8>) -> ResponsePayload {
    spec_fields_payload(head_fields(head))
}

/// Well-formed payload declarations: each declared offset is a readable
/// digit run, and the embedded header offset, where declared, is zero.
pub open spec fn spec_fields_wf(fields: Seq<u8>) -> bool {
    &&& (has_match(fields, tok_res_body()) ==> dec_run_ok(
        fields,
        first_match(fields, tok_res_body()) + tok_res_body().len(),
    ))
    &&& (!has_match(fields, tok_res_body()) && has_match(fields, tok_null_body()) && has_match(
        fields,
        tok_res_hdr(),
    ) ==> dec_run_ok(fields, first_match(fields, tok_null_body()) + tok_null_body().len()))
    &&& (has_match(fields, tok_res_hdr()) ==> dec_run_ok(
        fields,
        first_match(fields, tok_res_hdr()) + tok_res_hdr().len(),
    ) && dec_run_value(fields, first_match(fields, tok_res_hdr()) + tok_res_hdr().len()) == 0)
}

/// The shape every accepted head has: status-line prefix, three-digit
/// code, reason line, and well-formed payload declarations whose embedded
/// header offset, where declared, is zero.
pub open spec fn spec_head_wf(head: Seq<u8>) -> bool {
    &&& head.len() >= 17
    &&& head.subrange(0, 9) == tok_status_prefix()
    &&& all_dec_digits(head.subrange(9, 12))
    &&& head[12] == 32
    &&& has_match(head, tok_crlf())
    &&& 13 <= first_match(head, tok_crlf())
    &&& spec_fields_wf(head_fields(head))
}

/// What a successful parse of the region `head` guarantees.
#[verifier::opaque]
pub open spec fn spec_head_parsed(head: Seq<u8>, rsp: AdaptationResponse) -> bool {
    &&& spec_head_wf(head)
    &&& rsp.code == spec_head_code(head)
    &&& head.subrange(head.len() - 4, head.len() as int) == tok_head_end()
    &&& forall|j: int| 0 <= j < head.len() - 4 ==> !match_at(head, tok_head_end(), j)
    &&& rsp.reason@ == head.subrange(13, first_match(head, tok_crlf()))
    &&& rsp.keep_alive == !has_match(head_fields(head), tok_conn_close())
    &&& rsp.payload == spec_head_payload(head)
}

/// How many bytes the reply head starting at `pos` occupies: up to and
/// including its first blank line.
#[verifier::opaque]
pub open spec fn spec_head_len(s: Seq<u8>, pos: int) -> int {
    first_match(s.subrange(pos, s.len() as int), tok_head_end()) + 4
}

/// The reply-head region starting at `pos`.
#[verifier::opaque]
pub open spec fn spec_head_at(s: Seq<u8>, pos: int) -> Seq<u8> {
    s.subrange(pos, pos + spec_head_len(s, pos))
}

/// Whether a parseable reply head stands at `pos`, within `max` bytes.
#[verifier::opaque]
pub open spec fn spec_head_ok(s: Seq<u8>, pos: int, max: int) -> bool {
    &&& 0 <= pos <= s.len()
    &&& has_match(s.subrange(pos, s.len() as int), tok_head_end())
    &&& pos + spec_head_len(s, pos) <= s.len()
    &&& spec_head_len(s, pos) <= max
    &&& spec_head_len(s, pos) >= 17
    &&& spec_head_wf(spec_head_at(s, pos))
}

/// The status code of the head at `pos`.
#[verifier::opaque]
pub open spec fn spec_code_at(s: Seq<u8>, pos: int) -> u16 {
    spec_head_code(spec_head_at(s, pos))
}

/// The declared persistence of the head at `pos`.
#[verifier::opaque]
pub open spec fn spec_keep_alive_at(s: Seq<u8>, pos: int) -> bool {
    !has_match(head_fields(spec_head_at(s, pos)), tok_conn_close())
}

/// The declared payload layout of the head at `pos`.
#[verifier::opaque]
pub open spec fn spec_payload_at(s: Seq<u8>, pos: int) -> ResponsePayload {
    spec_head_payload(spec_head_at(s, pos))
}

/// Parse one reply head out of `buf`, starting at `pos`, enforcing the
/// configured maximum header size. Returns the response and the position
/// just past the head's blank line. Success exactly when the grammar
/// Parse the inside of one already-delimited reply head region. `Ok`
/// exactly when the region is well-formed (`spec_head_wf`).
#[verifier::rlimit(100)]
fn parse_head_region(head: &[u8]) -> (r: Result<AdaptationResponse, AdaptationError>)
    requires
        head@.len() >= 17,
    ensures
        match r {
            Ok(rsp) => {
                &&& spec_head_wf(head@)
                &&& rsp.code == spec_head_code(head@)
                &&& rsp.reason@ == head@.subrange(13, first_match(head@, tok_crlf()))
                &&& rsp.keep_alive == !has_match(head_fields(head@), tok_conn_close())
                &&& rsp.payload == spec_head_payload(head@)
            },
            Err(e) => {
                &&& e is ReadOrParseFailed
                &&& !spec_head_wf(head@)
            },
        },
{
    let hl: usize = head.len();
    let ghost hv = head@;
    if !eq_at(head, status_prefix_bytes().as_slice(), 0) {
        return Err(AdaptationError::ReadOrParseFailed);
    }
    proof {
        assert(hv.subrange(0, 9) =~= tok_status_prefix());
    }
    let d0: u8 = head[9];
    let d1: u8 = head[10];
    let d2: u8 = head[11];
    proof {
        assert(forall|i: int| 0 <= i < 3 ==> #[trigger] hv.subrange(9, 12)[i] == hv[9 + i]);
    }
    if !(48 <= d0 && d0 <= 57 && 48 <= d1 && d1 <= 57 && 48 <= d2 && d2 <= 57) {
        proof {
            assert(hv.subrange(9, 12)[0] == d0 && hv.subrange(9, 12)[1] == d1 && hv.subrange(
                9,
                12,
            )[2] == d2);
            assert(!all_dec_digits(hv.subrange(9, 12)));
        }
        return Err(AdaptationError::ReadOrParseFailed);
    }
    if head[12] != 32 {
        return Err(AdaptationError::ReadOrParseFailed);
    }
    let code: u16 = 100 * ((d0 - 48) as u16) + 10 * ((d1 - 48) as u16) + ((d2 - 48) as u16);
    let line_end = match find_from(head, crlf_bytes().as_slice(), 0) {
        Some(j) => {
            proof {
                lemma_first_match(hv, tok_crlf(), j as int);
            }
            j
        },
        None => {
            proof {
                assert(!has_match(hv, tok_crlf())) by {
                    if has_match(hv, tok_crlf()) {
                        let j = choose|j: int| match_at(hv, tok_crlf(), j);
                        assert(!match_at(hv, tok_crlf(), j));
                    }
                }
            }
            return Err(AdaptationError::ReadOrParseFailed);
        },
    };
    if line_end < 13 {
        return Err(AdaptationError::ReadOrParseFailed);
    }
    let mut reason: Vec<u8> = Vec::new();
    push_all(&mut reason, slice_subrange(head, 13, line_end));
    let fields: &[u8] = slice_subrange(head, line_end + 2, hl);
    proof {
        assert(head_fields(hv) == fields@);
    }
    let (keep_alive, payload) = match parse_fields(fields) {
        Ok(p) => p,
        Err(e) => {
            return Err(e);
        },
    };
    Ok(AdaptationResponse { code, reason, keep_alive, payload })
}

/// Parse persistence and payload declarations out of a field region. `Ok`
/// exactly when the declarations are well-formed (`spec_fields_wf`).
#[verifier::rlimit(100)]
fn parse_fields(fields: &[u8]) -> (r: Result<(bool, ResponsePayload), AdaptationError>)
    ensures
        match r {
            Ok((ka, pl)) => {
                &&& spec_fields_wf(fields@)
                &&& ka == !has_match(fields@, tok_conn_close())
                &&& pl == spec_fields_payload(fields@)
            },
            Err(e) => {
                &&& e is ReadOrParseFailed
                &&& !spec_fields_wf(fields@)
            },
        },
{
    let flen: usize = fields.len();
    let ghost fv = fields@;
    let keep_alive = match find_from(fields, conn_close_bytes().as_slice(), 0) {
        Some(j) => {
            proof {
                lemma_first_match(fv, tok_conn_close(), j as int);
            }
            false
        },
        None => {
            proof {
                assert(!has_match(fv, tok_conn_close())) by {
                    if has_match(fv, tok_conn_close()) {
                        let j = choose|j: int| match_at(fv, tok_conn_close(), j);
                        assert(!match_at(fv, tok_conn_close(), j));
                    }
                }
            }
            true
        },
    };
    let rh = match find_from(fields, res_hdr_bytes().as_slice(), 0) {
        Some(jh) => {
            proof {
                lemma_first_match(fv, tok_res_hdr(), jh as int);
            }
            Some(jh)
        },
        None => {
            proof {
                assert(!has_match(fv, tok_res_hdr())) by {
                    if has_match(fv, tok_res_hdr()) {
                        let j = choose|j: int| match_at(fv, tok_res_hdr(), j);
                        assert(!match_at(fv, tok_res_hdr(), j));
                    }
                }
            }
            None
        },
    };
    proof {
        assert(rh is Some == has_match(fv, tok_res_hdr()));
        assert(rh is Some ==> rh.unwrap() == first_match(fv, tok_res_hdr()));
    }
    // an embedded-header offset, where declared, must be zero
    match rh {
        Some(jh) => {
            match read_dec(fields, jh + 8) {
                Some((rv, _e)) => {
                    if rv != 0 {
                        return Err(AdaptationError::ReadOrParseFailed);
                    }
                },
                None => {
                    return Err(AdaptationError::ReadOrParseFailed);
                },
            }
        },
        None => {},
    }
    let payload = match find_from(fields, res_body_bytes().as_slice(), 0) {
        Some(j) => {
            proof {
                lemma_first_match(fv, tok_res_body(), j as int);
            }
            match read_dec(fields, j + 9) {
                Some((v, _e)) => ResponsePayload::HeadersWithBody(v),
                None => {
                    return Err(AdaptationError::ReadOrParseFailed);
                },
            }
        },
        None => {
            proof {
                assert(!has_match(fv, tok_res_body())) by {
                    if has_match(fv, tok_res_body()) {
                        let j = choose|j: int| match_at(fv, tok_res_body(), j);
                        assert(!match_at(fv, tok_res_body(), j));
                    }
                }
            }
            match find_from(fields, null_body_bytes().as_slice(), 0) {
                Some(j) => {
                    proof {
                        lemma_first_match(fv, tok_null_body(), j as int);
                    }
                    match rh {
                        Some(_) => {
                            match read_dec(fields, j + 10) {
                                Some((v, _e)) => ResponsePayload::HeadersOnly(v),
                                None => {
                                    return Err(AdaptationError::ReadOrParseFailed);
                                },
                            }
                        },
                        None => ResponsePayload::NoPayload,
                    }
                },
                None => {
                    proof {
                        assert(!has_match(fv, tok_null_body())) by {
                            if has_match(fv, tok_null_body()) {
                                let j = choose|j: int| match_at(fv, tok_null_body(), j);
                                assert(!match_at(fv, tok_null_body(), j));
                            }
                        }
                    }
                    ResponsePayload::NoPayload
                },
            }
        },
    };
    Ok((keep_alive, payload))
}

/// Parse one reply head out of `buf`, starting at `pos`, enforcing the
/// configured maximum header size. Returns the response and the position
/// just past the head's blank line. Success exactly when the grammar
/// accepts a head here (`spec_head_ok`); anything else is a protocol
/// error, never a panic.
#[verifier::rlimit(100)]
pub fn parse_response_head(buf: &Vec<u8>, pos: usize, max_header_size: usize) -> (r: Result<
    (AdaptationResponse, usize),
    AdaptationError,
>)
    requires
        pos <= buf@.len(),
    ensures
        match r {
            Ok((rsp, consumed)) => {
                &&& spec_head_ok(buf@, pos as int, max_header_size as int)
                &&& consumed == pos + spec_head_len(buf@, pos as int)
                &&& pos + 17 <= consumed <= buf@.len()
                &&& consumed - pos <= max_header_size
                &&& spec_head_parsed(buf@.subrange(pos as int, consumed as int), rsp)
                &&& rsp.code == spec_code_at(buf@, pos as int)
                &&& rsp.keep_alive == spec_keep_alive_at(buf@, pos as int)
                &&& rsp.payload == spec_payload_at(buf@, pos as int)
            },
            Err(e) => {
                &&& e is ReadOrParseFailed
                &&& !spec_head_ok(buf@, pos as int, max_header_size as int)
            },
        },
{
    proof {
        reveal(spec_head_parsed);
        reveal(spec_head_len);
        reveal(spec_head_at);
        reveal(spec_head_ok);
        reveal(spec_code_at);
        reveal(spec_keep_alive_at);
        reveal(spec_payload_at);
    }
    let blen: usize = buf.len();
    let tail: &[u8] = slice_subrange(buf.as_slice(), pos, blen);
    let ghost tv = buf@.subrange(pos as int, blen as int);
    let hend_rel = match find_from(tail, head_end_bytes().as_slice(), 0) {
        Some(j) => {
            proof {
                lemma_first_match(tv, tok_head_end(), j as int);
            }
            j
        },
        None => {
            proof {
                assert(!has_match(tv, tok_head_end())) by {
                    if has_match(tv, tok_head_end()) {
                        let j = choose|j: int| match_at(tv, tok_head_end(), j);
                        assert(!match_at(tv, tok_head_end(), j));
                    }
                }
            }
            return Err(AdaptationError::ReadOrParseFailed);
        },
    };
    let hl: usize = hend_rel + 4;
    if hl > max_header_size || hl < 17 {
        return Err(AdaptationError::ReadOrParseFailed);
    }
    let head: &[u8] = slice_subrange(tail, 0, hl);
    let ghost hv = tv.subrange(0, hl as int);
    proof {
        assert(hv =~= buf@.subrange(pos as int, pos + hl));
        assert(spec_head_at(buf@, pos as int) == hv);
        // the head's blank line is its first occurrence
        assert forall|j: int| 0 <= j < hv.len() - 4 implies !match_at(hv, tok_head_end(), j) by {
            lemma_match_at_subrange(tv, 0, hl as int, tok_head_end(), j);
        }
        assert(match_at(hv, tok_head_end(), hv.len() - 4)) by {
            lemma_match_at_subrange(tv, 0, hl as int, tok_head_end(), hv.len() - 4);
        }
        assert(hv.subrange(hv.len() - 4, hv.len() as int) =~= tok_head_end());
    }
    let rsp = match parse_head_region(head) {
        Ok(rsp) => rsp,
        Err(e) => {
            return Err(e);
        },
    };
    let consumed: usize = pos + hl;
    proof {
        assert(buf@.subrange(pos as int, consumed as int) == hv);
    }
    Ok((rsp, consumed))
}

} // verus!
