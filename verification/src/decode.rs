//! Reading the server's chunked reply body back out of the wire framing
//! and forwarding it to the client, strictly in arrival order.

use vstd::prelude::*;
use vstd::slice::slice_subrange;

use crate::body::concat_from;
use crate::client::ClientSink;
use crate::connection::IcapConnection;
use crate::encode::{hex_digits, push_all, push_hex};
use crate::error::AdaptationError;
use crate::scan::{
    all_hex_digits, eq_at, find_from, first_match, has_match, hex_value, is_hex_digit,
    lemma_first_match, match_at, read_hex,
};
use crate::tokens::{crlf_bytes, tok_crlf, tok_last_chunk};
use crate::transfer::{
    chunk_encoding, chunk_frame, lemma_chunk_encoding_push, lemma_concat_from_push,
};

verus! {

/// Every chunk carries at least one byte.
pub open spec fn nonempty_chunks(chunks: Seq<Seq<u8>>) -> bool {
    forall|i: int| 0 <= i < chunks.len() ==> (#[trigger] chunks[i]).len() > 0
}

/// A canonical chunk frame, or the zero-length terminator, stands at the
/// start of `tail`: a hexadecimal length line without leading zeros, the
/// payload it promises, and the closing line terminator.
#[verifier::opaque]
pub open spec fn spec_chunk_ok(tail: Seq<u8>) -> bool {
    let le = first_match(tail, tok_crlf());
    let run = tail.subrange(0, le);
    let v = hex_value(run);
    &&& has_match(tail, tok_crlf())
    &&& 1 <= le <= 7
    &&& all_hex_digits(run)
    &&& run == hex_digits(v)
    &&& (v == 0 ==> le + 4 <= tail.len() && tail[le + 2] == 13 && tail[le + 3] == 10)
    &&& (v > 0 ==> le + 4 + v <= tail.len() && tail[le + 2 + v] == 13 && tail[le + 3 + v] == 10)
}

/// Read one chunk frame at the reply cursor: the payload bytes of a
/// non-empty chunk, or `None` once the zero-length terminator was
/// consumed. Anything that is not canonical chunk framing is a protocol
/// error.
#[verifier::rlimit(100)]
pub fn read_chunk(conn: &mut IcapConnection) -> (r: Result<Option<Vec<u8>>, AdaptationError>)
    requires
        old(conn).wf(),
    ensures
        final(conn).wf(),
        final(conn).same_config(old(conn)),
        final(conn).written@ == old(conn).written@,
        final(conn).reader_finished == old(conn).reader_finished,
        final(conn).writer_finished == old(conn).writer_finished,
        match r {
            Ok(Some(d)) => {
                &&& d@.len() > 0
                &&& final(conn).reply_pos == old(conn).reply_pos + chunk_frame(d@).len()
                &&& old(conn).reply@.subrange(
                    old(conn).reply_pos as int,
                    final(conn).reply_pos as int,
                ) == chunk_frame(d@)
            },
            Ok(None) => {
                &&& final(conn).reply_pos == old(conn).reply_pos + tok_last_chunk().len()
                &&& old(conn).reply@.subrange(
                    old(conn).reply_pos as int,
                    final(conn).reply_pos as int,
                ) == tok_last_chunk()
            },
            Err(e) => {
                &&& e is ReadOrParseFailed
                &&& final(conn).reply_pos == old(conn).reply_pos
                &&& !spec_chunk_ok(
                    old(conn).reply@.subrange(
                        old(conn).reply_pos as int,
                        old(conn).reply@.len() as int,
                    ),
                )
            },
        },
{
    proof {
        reveal(spec_chunk_ok);
    }
    let pos = conn.reply_pos;
    let rlen: usize = conn.reply.len();
    let tail: &[u8] = slice_subrange(conn.reply.as_slice(), pos, rlen);
    let ghost tv = conn.reply@.subrange(pos as int, rlen as int);
    let tlen: usize = tail.len();
    let crlf = crlf_bytes();
    let le = match find_from(tail, crlf.as_slice(), 0) {
        Some(j) => {
            proof {
                lemma_first_match(tv, tok_crlf(), j as int);
            }
            j
        },
        None => {
            proof {
                assert(!has_match(tv, tok_crlf())) by {
                    if has_match(tv, tok_crlf()) {
                        let j = choose|j: int| match_at(tv, tok_crlf(), j);
                        assert(!match_at(tv, tok_crlf(), j));
                    }
                }
            }
            return Err(AdaptationError::ReadOrParseFailed);
        },
    };
    proof {
        assert(tv[le as int] == 13) by {
            assert(tv.subrange(le as int, le + 2)[0] == 13);
        }
    }
    let (v, hend) = match read_hex(tail, 0) {
        Some(p) => p,
        None => {
            proof {
                assert(!spec_chunk_ok(tv)) by {
                    if spec_chunk_ok(tv) {
                        assert(is_hex_digit(tv[0])) by {
                            assert(tv.subrange(0, le as int)[0] == tv[0]);
                        }
                        if 8 <= tv.len() && all_hex_digits(tv.subrange(0, 8)) {
                            assert(is_hex_digit(tv[le as int])) by {
                                assert(tv.subrange(0, 8)[le as int] == tv[le as int]);
                            }
                        }
                    }
                }
            }
            return Err(AdaptationError::ReadOrParseFailed);
        },
    };
    if hend != le {
        proof {
            assert(!spec_chunk_ok(tv)) by {
                if spec_chunk_ok(tv) {
                    if hend < le {
                        assert(is_hex_digit(tv[hend as int])) by {
                            assert(tv.subrange(0, le as int)[hend as int] == tv[hend as int]);
                        }
                    } else {
                        assert(is_hex_digit(tv[le as int])) by {
                            assert(tv.subrange(0, hend as int)[le as int] == tv[le as int]);
                        }
                    }
                }
            }
        }
        return Err(AdaptationError::ReadOrParseFailed);
    }
    let mut hexv: Vec<u8> = Vec::new();
    push_hex(&mut hexv, v);
    if hexv.len() != le || !eq_at(tail, hexv.as_slice(), 0) {
        proof {
            assert(!spec_chunk_ok(tv)) by {
                if spec_chunk_ok(tv) {
                    assert(tv.subrange(0, le as int) == hexv@);
                    assert(match_at(tv, hexv@, 0));
                }
            }
        }
        return Err(AdaptationError::ReadOrParseFailed);
    }
    proof {
        assert(tv.subrange(0, le as int) =~= hex_digits(v as nat));
        assert(tv.subrange(le as int, le + 2) =~= tok_crlf());
    }
    if v == 0 {
        if tlen - le < 4 || tail[le + 2] != 13 || tail[le + 3] != 10 {
            return Err(AdaptationError::ReadOrParseFailed);
        }
        conn.reply_pos = pos + le + 4;
        proof {
            assert(conn.reply@.subrange(pos as int, pos + le + 4) =~= tv.subrange(0, le + 4));
            assert(tv.subrange(0, le + 4) =~= tok_last_chunk());
        }
        Ok(None)
    } else {
        let dstart = le + 2;
        if v > tlen - dstart {
            return Err(AdaptationError::ReadOrParseFailed);
        }
        let dend = dstart + v;
        if tlen - dend < 2 || tail[dend] != 13 || tail[dend + 1] != 10 {
            return Err(AdaptationError::ReadOrParseFailed);
        }
        let mut payload: Vec<u8> = Vec::new();
        push_all(&mut payload, slice_subrange(tail, dstart, dend));
        conn.reply_pos = pos + dend + 2;
        proof {
            assert(conn.reply@.subrange(pos as int, pos + dend + 2) =~= tv.subrange(0, dend + 2));
            assert(tv.subrange(dend as int, dend + 2) =~= tok_crlf());
            assert(tv.subrange(0, dend + 2) =~= chunk_frame(payload@));
        }
        Ok(Some(payload))
    }
}

/// Decode the server's chunked reply body and forward its payload to the
/// client, chunk by chunk, until the zero-length terminator. A rejection
/// means the reply at the final cursor is not canonical chunk framing.
pub fn forward_reply_body(conn: &mut IcapConnection, clt: &mut ClientSink) -> (r: Result<
    (),
    AdaptationError,
>)
    requires
        old(conn).wf(),
        old(clt).wf(),
        old(clt).header is Some,
        !old(clt).ended,
    ensures
        final(conn).wf(),
        final(conn).same_config(old(conn)),
        final(conn).written@ == old(conn).written@,
        final(conn).reader_finished == old(conn).reader_finished,
        final(conn).writer_finished == old(conn).writer_finished,
        final(clt).wf(),
        final(clt).spec_header() == old(clt).spec_header(),
        !final(clt).ended,
        match r {
            Ok(()) => exists|ch: Seq<Seq<u8>>|
                {
                    &&& nonempty_chunks(ch)
                    &&& final(clt).body@ == old(clt).body@ + concat_from(ch, 0)
                    &&& old(conn).reply@.subrange(
                        old(conn).reply_pos as int,
                        final(conn).reply_pos as int,
                    ) == chunk_encoding(ch) + tok_last_chunk()
                },
            Err(e) => {
                &&& e is ReadOrParseFailed
                &&& !spec_chunk_ok(
                    old(conn).reply@.subrange(
                        final(conn).reply_pos as int,
                        old(conn).reply@.len() as int,
                    ),
                )
            },
        },
{
    let ghost pos0 = conn.reply_pos;
    let ghost mut ch: Seq<Seq<u8>> = Seq::empty();
    let mut done = false;
    proof {
        assert(conn.reply@.subrange(pos0 as int, conn.reply_pos as int) =~= chunk_encoding(ch));
        assert(clt.body@ =~= old(clt).body@ + concat_from(ch, 0));
    }
    while !done
        invariant
            conn.wf(),
            conn.same_config(old(conn)),
            conn.written@ == old(conn).written@,
            conn.reader_finished == old(conn).reader_finished,
            conn.writer_finished == old(conn).writer_finished,
            clt.wf(),
            clt.spec_header() == old(clt).spec_header(),
            clt.header is Some,
            !clt.ended,
            pos0 == old(conn).reply_pos,
            pos0 <= conn.reply_pos <= conn.reply@.len(),
            nonempty_chunks(ch),
            clt.body@ == old(clt).body@ + concat_from(ch, 0),
            !done ==> conn.reply@.subrange(pos0 as int, conn.reply_pos as int)
                == chunk_encoding(ch),
            done ==> conn.reply@.subrange(pos0 as int, conn.reply_pos as int)
                == chunk_encoding(ch) + tok_last_chunk(),
        decreases conn.reply@.len() - conn.reply_pos, (if done { 0int } else { 1int }),
    {
        let ghost p1 = conn.reply_pos;
        match read_chunk(conn) {
            Ok(Some(d)) => {
                clt.send_body(d.as_slice());
                proof {
                    lemma_chunk_encoding_push(ch, d@);
                    lemma_concat_from_push(ch, d@, 0);
                    ch = ch.push(d@);
                    assert(conn.reply@.subrange(pos0 as int, conn.reply_pos as int)
                        =~= conn.reply@.subrange(pos0 as int, p1 as int) + conn.reply@.subrange(
                        p1 as int,
                        conn.reply_pos as int,
                    ));
                    assert(conn.reply@.subrange(pos0 as int, conn.reply_pos as int)
                        =~= chunk_encoding(ch));
                    assert(clt.body@ =~= old(clt).body@ + concat_from(ch, 0));
                }
            },
            Ok(None) => {
                done = true;
                proof {
                    assert(conn.reply@.subrange(pos0 as int, conn.reply_pos as int)
                        =~= conn.reply@.subrange(pos0 as int, p1 as int) + conn.reply@.subrange(
                        p1 as int,
                        conn.reply_pos as int,
                    ));
                }
            },
            Err(e) => {
                return Err(e);
            },
        }
    }
    Ok(())
}

} // verus!
