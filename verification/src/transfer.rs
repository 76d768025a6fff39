//! Chunked wire framing of the upstream body: resumable from leftover
//! preview bytes, yielding at a configured chunk boundary, with a
//! completion predicate that gates connection reuse.

use vstd::prelude::*;
use vstd::slice::slice_subrange;

use crate::body::{concat_from, BodySource};
use crate::connection::IcapConnection;
use crate::encode::{hex_digits, push_all, push_hex};
use crate::error::AdaptationError;
use crate::tokens::{crlf_bytes, last_chunk_bytes, tok_crlf, tok_last_chunk};

verus! {

/// One chunk on the wire: hex length line, payload, terminator.
pub open spec fn chunk_frame(d: Seq<u8>) -> Seq<u8> {
    hex_digits(d.len()) + tok_crlf() + d + tok_crlf()
}

/// A sequence of framed chunks (without the closing zero-length chunk).
pub open spec fn chunk_encoding(chunks: Seq<Seq<u8>>) -> Seq<u8>
    decreases chunks.len(),
{
    if chunks.len() == 0 {
        Seq::empty()
    } else {
        chunk_frame(chunks[0]) + chunk_encoding(chunks.drop_first())
    }
}

/// Every chunk holds at least one byte and at most `cap`.
pub open spec fn valid_chunks(chunks: Seq<Seq<u8>>, cap: nat) -> bool {
    forall|i: int| 0 <= i < chunks.len() ==> 0 < (#[trigger] chunks[i]).len() <= cap
}

/// Framing one more chunk extends the encoding at its end.
pub proof fn lemma_chunk_encoding_push(chunks: Seq<Seq<u8>>, c: Seq<u8>)
    ensures
        chunk_encoding(chunks.push(c)) == chunk_encoding(chunks) + chunk_frame(c),
    decreases chunks.len(),
{
    if chunks.len() == 0 {
        assert(chunks.push(c).drop_first() =~= Seq::<Seq<u8>>::empty());
        assert(chunks.push(c)[0] == c);
        assert(chunk_encoding(chunks) =~= Seq::<u8>::empty());
        assert(chunk_encoding(chunks.push(c).drop_first()) =~= Seq::<u8>::empty());
        assert(chunk_encoding(chunks.push(c)) =~= chunk_frame(c)
            + chunk_encoding(chunks.push(c).drop_first()));
        assert(chunk_encoding(chunks.push(c)) =~= chunk_encoding(chunks) + chunk_frame(c));
    } else {
        assert(chunks.push(c).drop_first() =~= chunks.drop_first().push(c));
        lemma_chunk_encoding_push(chunks.drop_first(), c);
        assert(chunk_encoding(chunks.push(c)) =~= chunk_frame(chunks[0])
            + chunk_encoding(chunks.drop_first().push(c)));
        assert(chunk_encoding(chunks) =~= chunk_frame(chunks[0])
            + chunk_encoding(chunks.drop_first()));
        assert(chunk_encoding(chunks.push(c)) =~= chunk_encoding(chunks) + chunk_frame(c));
    }
}

/// One more chunk extends the concatenated payload at its end.
pub proof fn lemma_concat_from_push(chunks: Seq<Seq<u8>>, c: Seq<u8>, i: int)
    requires
        0 <= i <= chunks.len(),
    ensures
        concat_from(chunks.push(c), i) == concat_from(chunks, i) + c,
    decreases chunks.len() - i,
{
    if i == chunks.len() {
        assert(chunks.push(c)[i] == c);
        assert(concat_from(chunks.push(c), i + 1) =~= Seq::<u8>::empty());
        assert(concat_from(chunks, i) =~= Seq::<u8>::empty());
        assert(concat_from(chunks.push(c), i) =~= c + concat_from(chunks.push(c), i + 1));
        assert(concat_from(chunks.push(c), i) =~= concat_from(chunks, i) + c);
    } else {
        lemma_concat_from_push(chunks, c, i + 1);
        assert(chunks.push(c)[i] == chunks[i]);
        assert(concat_from(chunks.push(c), i) =~= chunks[i] + concat_from(chunks.push(c), i + 1));
        assert(concat_from(chunks, i) =~= chunks[i] + concat_from(chunks, i + 1));
        assert(concat_from(chunks.push(c), i) =~= concat_from(chunks, i) + c);
    }
}

/// Append the wire framing of one chunk to `out`.
pub fn push_chunk_frame(out: &mut Vec<u8>, data: &[u8])
    ensures
        final(out)@ == old(out)@ + chunk_frame(data@),
{
    push_hex(out, data.len());
    let crlf = crlf_bytes();
    push_all(out, crlf.as_slice());
    push_all(out, data);
    push_all(out, crlf.as_slice());
    proof {
        assert(out@ =~= old(out)@ + chunk_frame(data@));
    }
}

/// Converts the upstream body into chunked wire framing toward the
/// adaptation server, seeded with any bytes the preview read past its
/// window.
pub struct ChunkedBodyTransfer {
    /// The largest chunk payload written at once.
    pub yield_size: usize,
    /// Leftover preview bytes to send before the body.
    pub left: Option<Vec<u8>>,
    /// Whether the whole stream, terminator included, was written.
    pub finished: bool,
    /// The raw payload bytes framed so far, in order.
    pub sent_payload: Vec<u8>,
}

impl ChunkedBodyTransfer {
    /// Leftover bytes still to be framed.
    pub open spec fn spec_left(&self) -> Seq<u8> {
        match self.left {
            Some(l) => l@,
            None => Seq::empty(),
        }
    }

    /// A transfer that starts at the body's current position.
    pub fn new(yield_size: usize) -> (t: Self)
        requires
            yield_size >= 1,
        ensures
            t.yield_size == yield_size,
            t.spec_left().len() == 0,
            !t.finished,
            t.sent_payload@.len() == 0,
    {
        ChunkedBodyTransfer { yield_size, left: None, finished: false, sent_payload: Vec::new() }
    }

    /// A transfer seeded with bytes already read from the body.
    pub fn with_chunk(yield_size: usize, left: Vec<u8>) -> (t: Self)
        requires
            yield_size >= 1,
        ensures
            t.yield_size == yield_size,
            t.spec_left() == left@,
            !t.finished,
            t.sent_payload@.len() == 0,
    {
        ChunkedBodyTransfer {
            yield_size,
            left: Some(left),
            finished: false,
            sent_payload: Vec::new(),
        }
    }

    /// Whether the stream was written in full, terminator included.
    pub fn is_finished(&self) -> (r: bool)
        ensures
            r == self.finished,
    {
        self.finished
    }

    /// Frame `data` into chunks of at most the yield size and write them.
    fn send_chunks(&mut self, data: &[u8], conn: &mut IcapConnection) -> (r: Result<
        (),
        AdaptationError,
    >)
        requires
            old(self).yield_size >= 1,
            old(conn).wf(),
        ensures
            final(conn).wf(),
            final(conn).same_config(old(conn)),
            final(conn).reply_pos == old(conn).reply_pos,
            final(conn).reader_finished == old(conn).reader_finished,
            final(conn).writer_finished == old(conn).writer_finished,
            old(conn).written@.is_prefix_of(final(conn).written@),
            final(self).yield_size == old(self).yield_size,
            final(self).left == old(self).left,
            final(self).finished == old(self).finished,
            old(conn).write_limit - old(conn).written@.len() >= 21 * data@.len() ==> r is Ok,
            match r {
                Ok(()) => {
                    &&& exists|ch: Seq<Seq<u8>>|
                        {
                            &&& valid_chunks(ch, old(self).yield_size as nat)
                            &&& concat_from(ch, 0) == data@
                            &&& final(conn).written@ == old(conn).written@ + chunk_encoding(ch)
                        }
                    &&& final(self).sent_payload@ == old(self).sent_payload@ + data@
                    &&& final(conn).written@.len() <= old(conn).written@.len() + 21 * data@.len()
                },
                Err(e) => e is WriteFailed,
            },
    {
        let ghost mut ch: Seq<Seq<u8>> = Seq::empty();
        let ghost written0 = conn.written@;
        let mut off: usize = 0;
        proof {
            assert(concat_from(ch, 0) =~= data@.take(0));
            assert(conn.written@ =~= written0 + chunk_encoding(ch));
        }
        while off < data.len()
            invariant
                off <= data@.len(),
                self.yield_size == old(self).yield_size,
                self.yield_size >= 1,
                self.left == old(self).left,
                self.finished == old(self).finished,
                conn.wf(),
                conn.same_config(old(conn)),
                conn.reply_pos == old(conn).reply_pos,
                conn.reader_finished == old(conn).reader_finished,
                conn.writer_finished == old(conn).writer_finished,
                valid_chunks(ch, self.yield_size as nat),
                concat_from(ch, 0) == data@.take(off as int),
                conn.written@ == written0 + chunk_encoding(ch),
                conn.written@.len() <= written0.len() + 21 * off,
                written0 == old(conn).written@,
                self.sent_payload@ == old(self).sent_payload@ + data@.take(off as int),
            decreases data@.len() - off,
        {
            let take: usize = if data.len() - off > self.yield_size {
                self.yield_size
            } else {
                data.len() - off
            };
            let piece: &[u8] = slice_subrange(data, off, off + take);
            let mut frame: Vec<u8> = Vec::new();
            push_chunk_frame(&mut frame, piece);
            proof {
                crate::encode::lemma_hex_digits_len_max(piece@.len());
                assert(frame@.len() <= 21 * take);
            }
            match conn.write_all(frame.as_slice()) {
                Ok(()) => {},
                Err(e) => {
                    proof {
                        // the frame did not fit, so the whole run cannot fit
                        assert(21 * off + 21 * take <= 21 * data@.len());
                        assert(old(conn).write_limit - old(conn).written@.len() < 21
                            * data@.len());
                    }
                    return Err(e);
                },
            }
            push_all(&mut self.sent_payload, piece);
            proof {
                lemma_chunk_encoding_push(ch, piece@);
                lemma_concat_from_push(ch, piece@, 0);
                ch = ch.push(piece@);
                assert(data@.take(off + take) =~= data@.take(off as int) + piece@);
                assert(conn.written@ =~= written0 + chunk_encoding(ch));
            }
            off = off + take;
        }
        proof {
            assert(data@.take(off as int) =~= data@);
        }
        Ok(())
    }

    /// Pump the leftover and the whole remaining body to the server in
    /// chunked framing, ending with the zero-length chunk. On success the
    /// upstream is drained and the transfer is finished; a failed write
    /// leaves it unfinished and ends the attempt.
    pub fn pump_all(&mut self, body: &mut BodySource, conn: &mut IcapConnection) -> (r: Result<
        (),
        AdaptationError,
    >)
        requires
            old(self).yield_size >= 1,
            !old(self).finished,
            old(body).wf(),
            old(conn).wf(),
        ensures
            final(body).wf(),
            final(conn).wf(),
            final(conn).same_config(old(conn)),
            final(conn).reply_pos == old(conn).reply_pos,
            final(conn).reader_finished == old(conn).reader_finished,
            final(conn).writer_finished == old(conn).writer_finished,
            old(conn).written@.is_prefix_of(final(conn).written@),
            final(self).yield_size == old(self).yield_size,
            old(conn).write_limit - old(conn).written@.len() >= 21 * (old(self).spec_left()
                + old(body).remaining()).len() + 5 ==> r is Ok,
            match r {
                Ok(()) => {
                    &&& final(self).finished
                    &&& final(self).spec_left().len() == 0
                    &&& final(body).remaining().len() == 0
                    &&& final(self).sent_payload@ == old(self).sent_payload@ + old(
                        self,
                    ).spec_left() + old(body).remaining()
                    &&& exists|ch: Seq<Seq<u8>>|
                        {
                            &&& valid_chunks(ch, old(self).yield_size as nat)
                            &&& concat_from(ch, 0) == old(self).spec_left() + old(body).remaining()
                            &&& final(conn).written@ == old(conn).written@ + chunk_encoding(ch)
                                + tok_last_chunk()
                        }
                },
                Err(e) => {
                    &&& e is WriteFailed
                    &&& !final(self).finished
                },
            },
    {
        let ghost mut ch: Seq<Seq<u8>> = Seq::empty();
        let ghost written0 = conn.written@;
        let ghost sent0 = self.sent_payload@;
        let ghost left0 = self.spec_left();
        let ghost body0 = body.remaining();
        proof {
            assert(concat_from(ch, 0) =~= Seq::<u8>::empty());
        }
        match self.left.take() {
            Some(l) => {
                match self.send_chunks(l.as_slice(), conn) {
                    Ok(()) => {},
                    Err(e) => {
                        proof {
                            assert(21 * l@.len() <= 21 * (left0 + body0).len());
                        }
                        return Err(e);
                    },
                }
                proof {
                    let c1 = choose|c1: Seq<Seq<u8>>|
                        {
                            &&& valid_chunks(c1, self.yield_size as nat)
                            &&& concat_from(c1, 0) == l@
                            &&& conn.written@ == written0 + chunk_encoding(c1)
                        };
                    ch = c1;
                }
            },
            None => {
                proof {
                    assert(conn.written@ =~= written0 + chunk_encoding(ch));
                    assert(concat_from(ch, 0) =~= left0);
                    assert(self.sent_payload@ =~= sent0 + left0);
                }
            },
        }
        let mut done = false;
        while !done
            invariant
                done ==> body.remaining().len() == 0,
                body.wf(),
                conn.wf(),
                conn.same_config(old(conn)),
                conn.reply_pos == old(conn).reply_pos,
                conn.reader_finished == old(conn).reader_finished,
                conn.writer_finished == old(conn).writer_finished,
                self.yield_size == old(self).yield_size,
                self.yield_size >= 1,
                self.left is None,
                !self.finished,
                valid_chunks(ch, self.yield_size as nat),
                concat_from(ch, 0) + body.remaining() == left0 + body0,
                conn.written@ == written0 + chunk_encoding(ch),
                conn.written@.len() <= written0.len() + 21 * concat_from(ch, 0).len(),
                written0 == old(conn).written@,
                self.sent_payload@ == sent0 + concat_from(ch, 0),
                sent0 == old(self).sent_payload@,
                left0 == old(self).spec_left(),
                body0 == old(body).remaining(),
            decreases body.remaining().len(), (if done { 0int } else { 1int }),
        {
            match body.poll_frame() {
                None => {
                    done = true;
                },
                Some(f) => {
                    match self.send_chunks(f.as_slice(), conn) {
                        Ok(()) => {},
                        Err(e) => {
                            proof {
                                assert(concat_from(ch, 0).len() + f@.len() <= (left0
                                    + body0).len());
                                assert(21 * concat_from(ch, 0).len() + 21 * f@.len() <= 21 * (left0
                                    + body0).len());
                            }
                            return Err(e);
                        },
                    }
                    proof {
                        let w1 = conn.written@;
                        let c1 = choose|c1: Seq<Seq<u8>>|
                            {
                                &&& valid_chunks(c1, self.yield_size as nat)
                                &&& concat_from(c1, 0) == f@
                                &&& w1 == written0 + chunk_encoding(ch) + chunk_encoding(c1)
                            };
                        lemma_chunk_encoding_concat(ch, c1);
                        lemma_concat_from_concat(ch, c1);
                        ch = ch + c1;
                        assert(conn.written@ =~= written0 + chunk_encoding(ch));
                        assert(concat_from(ch, 0) + body.remaining() =~= left0 + body0);
                        assert(self.sent_payload@ =~= sent0 + concat_from(ch, 0));
                    }
                },
            }
        }
        let terminator = last_chunk_bytes();
        match conn.write_all(terminator.as_slice()) {
            Ok(()) => {},
            Err(e) => {
                proof {
                    assert(concat_from(ch, 0).len() == (left0 + body0).len());
                }
                return Err(e);
            },
        }
        self.finished = true;
        proof {
            assert(concat_from(ch, 0) =~= left0 + body0);
            assert(self.sent_payload@ =~= sent0 + left0 + body0);
            assert(conn.written@ =~= written0 + chunk_encoding(ch) + tok_last_chunk());
        }
        Ok(())
    }
}

/// Two framed runs in a row are the framing of the concatenated run.
pub proof fn lemma_chunk_encoding_concat(a: Seq<Seq<u8>>, b: Seq<Seq<u8>>)
    ensures
        chunk_encoding(a + b) == chunk_encoding(a) + chunk_encoding(b),
    decreases b.len(),
{
    if b.len() == 0 {
        assert(a + b =~= a);
        assert(chunk_encoding(a + b) =~= chunk_encoding(a) + chunk_encoding(b));
    } else {
        lemma_chunk_encoding_push(a, b[0]);
        lemma_chunk_encoding_concat(a.push(b[0]), b.drop_first());
        assert(a + b =~= a.push(b[0]) + b.drop_first());
        assert(chunk_encoding(a + b) == chunk_encoding(a.push(b[0]) + b.drop_first(), ));
        assert(chunk_encoding(b) =~= chunk_frame(b[0]) + chunk_encoding(b.drop_first()));
        assert(chunk_encoding(a + b) =~= chunk_encoding(a) + chunk_encoding(b));
    }
}

/// Past the first list, the concatenation of two chunk lists reads from
/// the second.
pub proof fn lemma_concat_from_offset(a: Seq<Seq<u8>>, b: Seq<Seq<u8>>, k: int)
    requires
        0 <= k <= b.len(),
    ensures
        concat_from(a + b, a.len() + k) == concat_from(b, k),
    decreases b.len() - k,
{
    if k == b.len() {
        assert(concat_from(a + b, a.len() + k) =~= concat_from(b, k));
    } else {
        assert((a + b)[a.len() + k] == b[k]);
        lemma_concat_from_offset(a, b, k + 1);
        assert(concat_from(a + b, a.len() + k) =~= concat_from(b, k));
    }
}

/// From position `i` on, the concatenation of two chunk lists carries the
/// rest of the first list's payload, then all of the second's.
pub proof fn lemma_concat_from_concat_at(a: Seq<Seq<u8>>, b: Seq<Seq<u8>>, i: int)
    requires
        0 <= i <= a.len(),
    ensures
        concat_from(a + b, i) == concat_from(a, i) + concat_from(b, 0),
    decreases a.len() - i,
{
    if i == a.len() {
        lemma_concat_from_offset(a, b, 0);
        assert(concat_from(a, i) =~= Seq::<u8>::empty());
        assert(concat_from(a + b, i) =~= concat_from(a, i) + concat_from(b, 0));
    } else {
        assert((a + b)[i] == a[i]);
        lemma_concat_from_concat_at(a, b, i + 1);
        assert(concat_from(a + b, i) =~= a[i] + concat_from(a + b, i + 1));
        assert(concat_from(a, i) =~= a[i] + concat_from(a, i + 1));
        assert(concat_from(a + b, i) =~= concat_from(a, i) + concat_from(b, 0));
    }
}

/// Concatenating chunk lists concatenates their payloads.
pub proof fn lemma_concat_from_concat(a: Seq<Seq<u8>>, b: Seq<Seq<u8>>)
    ensures
        concat_from(a + b, 0) == concat_from(a, 0) + concat_from(b, 0),
{
    lemma_concat_from_concat_at(a, b, 0);
}

} // verus!
