//! The adaptation connection as the verified logic sees it: every byte
//! written toward the server, the server's reply bytes, the two completion
//! flags, and the pool that only a cleanly finished connection may rejoin.

use vstd::prelude::*;

use crate::encode::push_all;
use crate::error::AdaptationError;
use crate::response::{
    parse_response_head, spec_code_at, spec_head_len, spec_head_ok, spec_head_parsed,
    spec_keep_alive_at, spec_payload_at, AdaptationResponse,
};

verus! {

/// One checked-out adaptation connection. The server side is a script: it
/// accepts at most `write_limit` bytes and answers with `reply`.
pub struct IcapConnection {
    /// Every byte the server accepted, in order.
    pub written: Vec<u8>,
    /// How many bytes the server accepts in all; writes beyond it fail.
    pub write_limit: usize,
    /// The bytes the server sends back.
    pub reply: Vec<u8>,
    /// How much of the reply has been consumed.
    pub reply_pos: usize,
    /// The server answers the preview without reading the continued body.
    pub early_reply: bool,
    /// The read side consumed its wire framing exactly; set exactly once.
    pub reader_finished: bool,
    /// The write side completed cleanly; set exactly once.
    pub writer_finished: bool,
}

impl IcapConnection {
    /// The cursor stays inside the reply and the server never accepted more
    /// than it was willing to.
    pub open spec fn wf(&self) -> bool {
        &&& self.reply_pos <= self.reply@.len()
        &&& self.written@.len() <= self.write_limit
    }

    /// The configuration and flags other than the two streams' progress.
    pub open spec fn same_config(&self, other: &Self) -> bool {
        &&& self.write_limit == other.write_limit
        &&& self.reply@ == other.reply@
        &&& self.early_reply == other.early_reply
    }

    /// A fresh connection whose server will accept `write_limit` bytes and
    /// answer with `reply`.
    pub fn new(reply: Vec<u8>, write_limit: usize, early_reply: bool) -> (c: Self)
        ensures
            c.wf(),
            c.written@.len() == 0,
            c.reply@ == reply@,
            c.reply_pos == 0,
            c.write_limit == write_limit,
            c.early_reply == early_reply,
            !c.reader_finished,
            !c.writer_finished,
    {
        IcapConnection {
            written: Vec::new(),
            write_limit,
            reply,
            reply_pos: 0,
            early_reply,
            reader_finished: false,
            writer_finished: false,
        }
    }

    /// Write bytes toward the server: accepted in full, or the write fails
    /// and the attempt is over.
    pub fn write_all(&mut self, data: &[u8]) -> (r: Result<(), AdaptationError>)
        requires
            old(self).wf(),
        ensures
            final(self).wf(),
            final(self).same_config(old(self)),
            final(self).reply_pos == old(self).reply_pos,
            final(self).reader_finished == old(self).reader_finished,
            final(self).writer_finished == old(self).writer_finished,
            match r {
                Ok(()) => {
                    &&& final(self).written@ == old(self).written@ + data@
                    &&& data@.len() <= old(self).write_limit - old(self).written@.len()
                },
                Err(e) => {
                    &&& e is WriteFailed
                    &&& final(self).written@ == old(self).written@
                    &&& data@.len() > old(self).write_limit - old(self).written@.len()
                },
            },
    {
        if data.len() <= self.write_limit - self.written.len() {
            push_all(&mut self.written, data);
            Ok(())
        } else {
            Err(AdaptationError::WriteFailed)
        }
    }

    /// Receive and parse one reply head, consuming it from the reply
    /// stream. A missing, oversized or malformed head fails the attempt.
    pub fn recv_response(&mut self, max_header_size: usize) -> (r: Result<
        AdaptationResponse,
        AdaptationError,
    >)
        requires
            old(self).wf(),
        ensures
            final(self).wf(),
            final(self).same_config(old(self)),
            final(self).written@ == old(self).written@,
            final(self).reader_finished == old(self).reader_finished,
            final(self).writer_finished == old(self).writer_finished,
            match r {
                Ok(rsp) => {
                    &&& old(self).reply_pos + 17 <= final(self).reply_pos <= old(
                        self,
                    ).reply@.len()
                    &&& final(self).reply_pos - old(self).reply_pos <= max_header_size
                    &&& spec_head_ok(
                        old(self).reply@,
                        old(self).reply_pos as int,
                        max_header_size as int,
                    )
                    &&& final(self).reply_pos == old(self).reply_pos + spec_head_len(
                        old(self).reply@,
                        old(self).reply_pos as int,
                    )
                    &&& spec_head_parsed(
                        old(self).reply@.subrange(
                            old(self).reply_pos as int,
                            final(self).reply_pos as int,
                        ),
                        rsp,
                    )
                    &&& rsp.code == spec_code_at(old(self).reply@, old(self).reply_pos as int)
                    &&& rsp.keep_alive == spec_keep_alive_at(
                        old(self).reply@,
                        old(self).reply_pos as int,
                    )
                    &&& rsp.payload == spec_payload_at(old(self).reply@, old(self).reply_pos as int)
                },
                Err(e) => {
                    &&& e is ReadOrParseFailed
                    &&& final(self).reply_pos == old(self).reply_pos
                    &&& !spec_head_ok(
                        old(self).reply@,
                        old(self).reply_pos as int,
                        max_header_size as int,
                    )
                },
            },
    {
        match parse_response_head(&self.reply, self.reply_pos, max_header_size) {
            Ok((rsp, consumed)) => {
                self.reply_pos = consumed;
                Ok(rsp)
            },
            Err(e) => Err(e),
        }
    }

    /// Read exactly `n` raw reply bytes (an embedded header block).
    pub fn read_exact(&mut self, n: usize) -> (r: Result<Vec<u8>, AdaptationError>)
        requires
            old(self).wf(),
        ensures
            final(self).wf(),
            final(self).same_config(old(self)),
            final(self).written@ == old(self).written@,
            final(self).reader_finished == old(self).reader_finished,
            final(self).writer_finished == old(self).writer_finished,
            match r {
                Ok(v) => {
                    &&& old(self).reply_pos + n <= old(self).reply@.len()
                    &&& v@ == old(self).reply@.subrange(
                        old(self).reply_pos as int,
                        old(self).reply_pos + n,
                    )
                    &&& final(self).reply_pos == old(self).reply_pos + n
                },
                Err(e) => {
                    &&& e is ReadOrParseFailed
                    &&& old(self).reply_pos + n > old(self).reply@.len()
                    &&& final(self).reply_pos == old(self).reply_pos
                },
            },
    {
        if n <= self.reply.len() - self.reply_pos {
            let mut v: Vec<u8> = Vec::new();
            push_all(
                &mut v,
                vstd::slice::slice_subrange(self.reply.as_slice(), self.reply_pos, self.reply_pos + n),
            );
            self.reply_pos = self.reply_pos + n;
            Ok(v)
        } else {
            Err(AdaptationError::ReadOrParseFailed)
        }
    }

    /// Record that the write side completed cleanly, exactly once.
    pub fn mark_writer_finished(&mut self)
        requires
            !old(self).writer_finished,
        ensures
            final(self).writer_finished,
            final(self).reader_finished == old(self).reader_finished,
            final(self).same_config(old(self)),
            final(self).written@ == old(self).written@,
            final(self).reply_pos == old(self).reply_pos,
            old(self).wf() ==> final(self).wf(),
    {
        self.writer_finished = true;
    }

    /// Record that the read side consumed its framing exactly, exactly once.
    pub fn mark_reader_finished(&mut self)
        requires
            !old(self).reader_finished,
        ensures
            final(self).reader_finished,
            final(self).writer_finished == old(self).writer_finished,
            final(self).same_config(old(self)),
            final(self).written@ == old(self).written@,
            final(self).reply_pos == old(self).reply_pos,
            old(self).wf() ==> final(self).wf(),
    {
        self.reader_finished = true;
    }
}

/// The idle-connection pool, reduced to what the lifecycle rules observe:
/// how many connections came back to it.
pub struct ConnectionPool {
    /// How many connections were returned for reuse.
    pub saved: usize,
}

impl ConnectionPool {
    /// An empty pool.
    pub fn new() -> (p: Self)
        ensures
            p.saved == 0,
    {
        ConnectionPool { saved: 0 }
    }

    /// Return a connection to the pool. A connection may come back only
    /// when its read and write sides both finished cleanly and the server
    /// declared the connection persistent; verified callers cannot pool it
    /// otherwise.
    pub fn save_connection(&mut self, conn: &IcapConnection, keep_alive: bool)
        requires
            conn.reader_finished,
            conn.writer_finished,
            keep_alive,
            old(self).saved < usize::MAX,
        ensures
            final(self).saved == old(self).saved + 1,
    {
        self.saved = self.saved + 1;
    }
}

} // verus!
