//! The response adaptation attempt: request encoding, the preview paths,
//! the response-code state machine and the connection lifecycle decisions.

use vstd::prelude::*;

use crate::body::BodySource;
use crate::client::ClientSink;
use crate::connection::{ConnectionPool, IcapConnection};
use crate::decode::forward_reply_body;
use crate::dispatch::{dispatch_code, DispatchDecision};
use crate::encode::{
    dec_digits, lemma_dec_digits_len_max, push_all, push_dec, put_slice,
};
use crate::error::{AdaptationError, ServerErrorReason};
use crate::preview::{select_path, PreviewData, PreviewPath};
use crate::response::AdaptationResponse;
use crate::tokens::{
    crlf_bytes, enc_mid_bytes, enc_prefix_bytes, preview_hdr_bytes, tok_crlf, tok_enc_mid,
    tok_enc_prefix, tok_preview_hdr,
};
use crate::transfer::ChunkedBodyTransfer;

verus! {

/// Whether the client ended up with the original or the adapted response.
#[derive(Clone, Copy, Debug, PartialEq, Eq, Structural)]
pub enum RespmodAdaptationEndState {
    /// The original response reached the client unmodified.
    OriginalTransferred,
    /// The server's own response reached the client.
    AdaptedTransferred,
}

/// Per-attempt mutable state the caller reads afterwards.
pub struct RespmodAdaptationRunState {
    /// The upstream body was drained to its end; the caller must otherwise
    /// discard what remains itself.
    pub ups_recv_all: bool,
}

impl RespmodAdaptationRunState {
    /// A fresh attempt: nothing drained yet.
    pub fn new() -> (s: Self)
        ensures
            !s.ups_recv_all,
    {
        RespmodAdaptationRunState { ups_recv_all: false }
    }

    /// Record that the upstream body is truly exhausted; set at most once.
    pub fn mark_ups_recv_all(&mut self)
        requires
            !old(self).ups_recv_all,
        ensures
            final(self).ups_recv_all,
    {
        self.ups_recv_all = true;
    }
}

/// One response-adaptation attempt's configuration: the pre-rendered
/// protocol request header, the chunking yield boundary and the reply
/// header bound.
pub struct H2ResponseAdapter {
    /// The service-level request header prefix (method line and service
    /// headers), pre-rendered.
    pub partial_request_header: Vec<u8>,
    /// Extension headers appended to every request, pre-rendered.
    pub extended_headers: Vec<u8>,
    /// The chunk boundary at which the transfer engine yields.
    pub yield_size: usize,
    /// The largest reply head accepted from the server.
    pub icap_max_header_size: usize,
}

impl H2ResponseAdapter {
    /// The yield boundary is positive and the configured headers leave
    /// room for the offset table within machine limits.
    pub open spec fn wf(&self) -> bool {
        &&& self.yield_size >= 1
        &&& self.partial_request_header@.len() + self.extended_headers@.len() + 200 <= usize::MAX
            / 2
    }

    /// The protocol header block of a request whose embedded request and
    /// response headers have the given sizes, with or without a declared
    /// preview size.
    #[verifier::opaque]
    pub open spec fn spec_request_header(
        &self,
        req_len: nat,
        rsp_len: nat,
        preview: Option<nat>,
    ) -> Seq<u8> {
        self.partial_request_header@ + self.extended_headers@ + tok_enc_prefix() + dec_digits(
            req_len,
        ) + tok_enc_mid() + dec_digits(req_len + rsp_len) + (match preview {
            Some(p) => tok_preview_hdr() + dec_digits(p),
            None => Seq::empty(),
        }) + tok_crlf() + tok_crlf()
    }

    /// An adapter over the given pre-rendered headers and limits.
    pub fn new(
        partial_request_header: Vec<u8>,
        extended_headers: Vec<u8>,
        yield_size: usize,
        icap_max_header_size: usize,
    ) -> (a: Self)
        requires
            yield_size >= 1,
            partial_request_header@.len() + extended_headers@.len() + 200 <= usize::MAX / 2,
        ensures
            a.wf(),
            a.partial_request_header@ == partial_request_header@,
            a.extended_headers@ == extended_headers@,
            a.yield_size == yield_size,
            a.icap_max_header_size == icap_max_header_size,
    {
        H2ResponseAdapter {
            partial_request_header,
            extended_headers,
            yield_size,
            icap_max_header_size,
        }
    }

    /// Append the pre-rendered extension headers.
    pub fn push_extended_headers(&self, header: &mut Vec<u8>)
        ensures
            final(header)@ == old(header)@ + self.extended_headers@,
    {
        push_all(header, self.extended_headers.as_slice());
    }

    /// Build the request header block that declares the byte-offset table
    /// and the preview size.
    pub fn build_preview_request(
        &self,
        http_req_hdr_len: usize,
        http_rsp_hdr_len: usize,
        preview_size: usize,
    ) -> (r: Vec<u8>)
        requires
            self.wf(),
            http_req_hdr_len + http_rsp_hdr_len <= usize::MAX,
        ensures
            r@ == self.spec_request_header(
                http_req_hdr_len as nat,
                http_rsp_hdr_len as nat,
                Some(preview_size as nat),
            ),
    {
        let mut header: Vec<u8> = Vec::with_capacity(self.partial_request_header.len() + 128);
        push_all(&mut header, self.partial_request_header.as_slice());
        self.push_extended_headers(&mut header);
        let t = enc_prefix_bytes();
        push_all(&mut header, t.as_slice());
        push_dec(&mut header, http_req_hdr_len);
        let t = enc_mid_bytes();
        push_all(&mut header, t.as_slice());
        push_dec(&mut header, http_req_hdr_len + http_rsp_hdr_len);
        let t = preview_hdr_bytes();
        push_all(&mut header, t.as_slice());
        push_dec(&mut header, preview_size);
        let t = crlf_bytes();
        push_all(&mut header, t.as_slice());
        proof {
            lemma_dec_digits_len_max(http_req_hdr_len as nat);
            lemma_dec_digits_len_max((http_req_hdr_len + http_rsp_hdr_len) as nat);
            lemma_dec_digits_len_max(preview_size as nat);
        }
        let t = crlf_bytes();
        put_slice(&mut header, t.as_slice());
        proof {
            reveal(H2ResponseAdapter::spec_request_header);
            assert(header@ =~= self.spec_request_header(
                http_req_hdr_len as nat,
                http_rsp_hdr_len as nat,
                Some(preview_size as nat),
            ));
        }
        header
    }

    /// Build the request header block of a request that declares no
    /// preview (the small-body and no-preview fast paths).
    pub fn build_request_header(&self, http_req_hdr_len: usize, http_rsp_hdr_len: usize) -> (r:
        Vec<u8>)
        requires
            self.wf(),
            http_req_hdr_len + http_rsp_hdr_len <= usize::MAX,
        ensures
            r@ == self.spec_request_header(
                http_req_hdr_len as nat,
                http_rsp_hdr_len as nat,
                None,
            ),
    {
        let mut header: Vec<u8> = Vec::with_capacity(self.partial_request_header.len() + 128);
        push_all(&mut header, self.partial_request_header.as_slice());
        self.push_extended_headers(&mut header);
        let t = enc_prefix_bytes();
        push_all(&mut header, t.as_slice());
        push_dec(&mut header, http_req_hdr_len);
        let t = enc_mid_bytes();
        push_all(&mut header, t.as_slice());
        push_dec(&mut header, http_req_hdr_len + http_rsp_hdr_len);
        let t = crlf_bytes();
        push_all(&mut header, t.as_slice());
        proof {
            lemma_dec_digits_len_max(http_req_hdr_len as nat);
            lemma_dec_digits_len_max((http_req_hdr_len + http_rsp_hdr_len) as nat);
        }
        let t = crlf_bytes();
        put_slice(&mut header, t.as_slice());
        proof {
            reveal(H2ResponseAdapter::spec_request_header);
            assert(header@ =~= self.spec_request_header(
                http_req_hdr_len as nat,
                http_rsp_hdr_len as nat,
                None,
            ));
        }
        header
    }

    /// The single write of the small-body path: the header block without a
    /// preview declaration, both HTTP headers, and the whole body plain.
    pub open spec fn spec_small_body_wire(
        &self,
        req: Seq<u8>,
        rsp: Seq<u8>,
        body: Seq<u8>,
    ) -> Seq<u8> {
        self.spec_request_header(req.len(), rsp.len(), None) + req + rsp + body
    }

    /// The single write opening the generic preview path: the header block
    /// declaring the preview size, both HTTP headers, the preview bytes as
    /// one chunk, and the zero-length chunk.
    pub open spec fn spec_preview_wire(&self, req: Seq<u8>, rsp: Seq<u8>, preview: Seq<u8>) -> Seq<
        u8,
    > {
        self.spec_request_header(req.len(), rsp.len(), Some(preview.len())) + req + rsp
            + crate::transfer::chunk_frame(preview) + crate::tokens::tok_last_chunk()
    }
}

/// Forward the original response to the client: its header block, the
/// body bytes already in hand, then the rest of the upstream body, which
/// this drains completely.
fn forward_original(
    state: &mut RespmodAdaptationRunState,
    http_rsp_hdr: &Vec<u8>,
    prefix: &Vec<u8>,
    ups_body: &mut BodySource,
    clt: &mut ClientSink,
)
    requires
        old(ups_body).wf(),
        old(clt).wf(),
        old(clt).header is None,
    ensures
        final(ups_body).wf(),
        final(ups_body).remaining().len() == 0,
        final(clt).wf(),
        final(clt).spec_header() == Some(http_rsp_hdr@),
        final(clt).body@ == old(clt).body@ + prefix@ + old(ups_body).remaining(),
        final(clt).ended,
        final(state).ups_recv_all,
{
    clt.send_header(http_rsp_hdr.as_slice());
    clt.send_body(prefix.as_slice());
    let mut done = false;
    while !done
        invariant
            ups_body.wf(),
            clt.wf(),
            clt.header is Some,
            !clt.ended,
            clt.spec_header() == Some(http_rsp_hdr@),
            clt.body@ + ups_body.remaining() == old(clt).body@ + prefix@ + old(ups_body).remaining(),
            done ==> ups_body.remaining().len() == 0,
        decreases ups_body.remaining().len(), (if done { 0int } else { 1int }),
    {
        match ups_body.poll_frame() {
            None => {
                done = true;
            },
            Some(f) => {
                clt.send_body(f.as_slice());
            },
        }
    }
    if !state.ups_recv_all {
        state.mark_ups_recv_all();
    }
    clt.end_body();
}

impl H2ResponseAdapter {
    /// Drive the chunked transfer of the remaining body and then receive
    /// the server's next reply head. A server that stops reading answers
    /// early and leaves the transfer unfinished.
    fn transfer_and_recv(
        &self,
        transfer: &mut ChunkedBodyTransfer,
        ups_body: &mut BodySource,
        conn: &mut IcapConnection,
    ) -> (r: Result<AdaptationResponse, AdaptationError>)
        requires
            old(transfer).yield_size >= 1,
            !old(transfer).finished,
            old(ups_body).wf(),
            old(conn).wf(),
        ensures
            final(ups_body).wf(),
            final(conn).wf(),
            final(conn).same_config(old(conn)),
            final(conn).reader_finished == old(conn).reader_finished,
            final(conn).writer_finished == old(conn).writer_finished,
            old(conn).written@.is_prefix_of(final(conn).written@),
            !old(conn).early_reply && old(conn).write_limit - old(conn).written@.len() >= 21 * (
            old(transfer).spec_left() + old(ups_body).remaining()).len() + 5
                && crate::response::spec_head_ok(
                old(conn).reply@,
                old(conn).reply_pos as int,
                self.icap_max_header_size as int,
            ) ==> r is Ok,
            (r matches Err(AdaptationError::WriteFailed)) ==> old(conn).write_limit - old(conn).written@.len() < 21 * (old(transfer).spec_left() + old(ups_body).remaining()).len()
                + 5,
            (r matches Err(AdaptationError::ReadOrParseFailed))
                ==> !crate::response::spec_head_ok(
                old(conn).reply@,
                old(conn).reply_pos as int,
                self.icap_max_header_size as int,
            ),
            match r {
                Ok(rsp) => {
                    &&& crate::response::spec_head_parsed(
                        old(conn).reply@.subrange(
                            old(conn).reply_pos as int,
                            final(conn).reply_pos as int,
                        ),
                        rsp,
                    )
                    &&& rsp.code == crate::response::spec_code_at(
                        old(conn).reply@,
                        old(conn).reply_pos as int,
                    )
                    &&& rsp.keep_alive == crate::response::spec_keep_alive_at(
                        old(conn).reply@,
                        old(conn).reply_pos as int,
                    )
                    &&& rsp.payload == crate::response::spec_payload_at(
                        old(conn).reply@,
                        old(conn).reply_pos as int,
                    )
                    &&& (!old(conn).early_reply ==> {
                        &&& final(transfer).finished
                        &&& final(ups_body).remaining().len() == 0
                        &&& final(transfer).sent_payload@ == old(transfer).sent_payload@ + old(transfer).spec_left() + old(ups_body).remaining()
                        &&& final(transfer).spec_left().len() == 0
                    })
                    &&& (old(conn).early_reply ==> {
                        &&& !final(transfer).finished
                        &&& *final(transfer) == *old(transfer)
                        &&& *final(ups_body) == *old(ups_body)
                    })
                },
                Err(e) => e is WriteFailed || e is ReadOrParseFailed,
            },
    {
        if conn.early_reply {
            let rsp = match conn.recv_response(self.icap_max_header_size) {
                Ok(rsp) => rsp,
                Err(e) => {
                    return Err(e);
                },
            };
            proof {
                assert(old(conn).written@.is_prefix_of(conn.written@));
            }
            Ok(rsp)
        } else {
            match transfer.pump_all(ups_body, conn) {
                Ok(()) => {},
                Err(e) => {
                    proof {
                        assert(old(conn).written@.is_prefix_of(conn.written@));
                    }
                    return Err(e);
                },
            }
            let rsp = match conn.recv_response(self.icap_max_header_size) {
                Ok(rsp) => rsp,
                Err(e) => {
                    proof {
                        assert(old(conn).written@.is_prefix_of(conn.written@));
                    }
                    return Err(e);
                },
            };
            proof {
                assert(old(conn).written@.is_prefix_of(conn.written@));
            }
            Ok(rsp)
        }
    }

    /// Forward a reply that embeds headers and no body: the client gets
    /// the embedded headers with an empty body, and the read side is done.
    fn handle_headers_only(
        &self,
        header_size: usize,
        keep_alive: bool,
        conn: &mut IcapConnection,
        clt: &mut ClientSink,
        pool: &mut ConnectionPool,
    ) -> (r: Result<RespmodAdaptationEndState, AdaptationError>)
        requires
            old(conn).wf(),
            !old(conn).reader_finished,
            old(clt).wf(),
            old(clt).header is None,
            old(pool).saved < usize::MAX,
        ensures
            final(conn).wf(),
            final(conn).same_config(old(conn)),
            final(conn).written@ == old(conn).written@,
            final(conn).writer_finished == old(conn).writer_finished,
            final(clt).wf(),
            match r {
                Ok(es) => {
                    &&& es == RespmodAdaptationEndState::AdaptedTransferred
                    &&& final(conn).reader_finished
                    &&& final(clt).spec_header() == Some(
                        old(conn).reply@.subrange(
                            old(conn).reply_pos as int,
                            old(conn).reply_pos + header_size,
                        ),
                    )
                    &&& final(clt).body@ == old(clt).body@
                    &&& final(clt).ended
                    &&& final(pool).saved == old(pool).saved + (if old(conn).writer_finished
                        && keep_alive {
                        1int
                    } else {
                        0int
                    })
                },
                Err(e) => {
                    &&& e is ReadOrParseFailed
                    &&& final(clt).spec_header() == old(clt).spec_header()
                    &&& final(clt).body@ == old(clt).body@
                    &&& final(clt).ended == old(clt).ended
                    &&& final(pool).saved == old(pool).saved
                    &&& final(conn).reader_finished == old(conn).reader_finished
                },
            },
            final(pool).saved != old(pool).saved ==> final(pool).saved == old(pool).saved + 1
                && final(conn).reader_finished && final(conn).writer_finished,
    {
        let hdr = match conn.read_exact(header_size) {
            Ok(h) => h,
            Err(e) => {
                return Err(e);
            },
        };
        conn.mark_reader_finished();
        clt.send_header(hdr.as_slice());
        clt.end_body();
        if conn.writer_finished && keep_alive {
            pool.save_connection(conn, keep_alive);
        }
        Ok(RespmodAdaptationEndState::AdaptedTransferred)
    }

    /// Forward a reply that embeds headers and a chunked body: the client
    /// gets the headers and the decoded body, in arrival order.
    fn handle_with_body(
        &self,
        header_size: usize,
        keep_alive: bool,
        conn: &mut IcapConnection,
        clt: &mut ClientSink,
        pool: &mut ConnectionPool,
    ) -> (r: Result<RespmodAdaptationEndState, AdaptationError>)
        requires
            old(conn).wf(),
            !old(conn).reader_finished,
            old(clt).wf(),
            old(clt).header is None,
            old(pool).saved < usize::MAX,
        ensures
            final(conn).wf(),
            final(conn).same_config(old(conn)),
            final(conn).written@ == old(conn).written@,
            final(conn).writer_finished == old(conn).writer_finished,
            final(clt).wf(),
            match r {
                Ok(es) => {
                    &&& es == RespmodAdaptationEndState::AdaptedTransferred
                    &&& final(conn).reader_finished
                    &&& final(clt).spec_header() == Some(
                        old(conn).reply@.subrange(
                            old(conn).reply_pos as int,
                            old(conn).reply_pos + header_size,
                        ),
                    )
                    &&& exists|ch: Seq<Seq<u8>>|
                        {
                            &&& crate::decode::nonempty_chunks(ch)
                            &&& final(clt).body@ == old(clt).body@ + crate::body::concat_from(
                                ch,
                                0,
                            )
                        }
                    &&& final(clt).ended
                    &&& final(pool).saved == old(pool).saved + (if old(conn).writer_finished
                        && keep_alive {
                        1int
                    } else {
                        0int
                    })
                },
                Err(e) => {
                    &&& e is ReadOrParseFailed
                    &&& final(pool).saved == old(pool).saved
                    &&& final(conn).reader_finished == old(conn).reader_finished
                },
            },
            final(pool).saved != old(pool).saved ==> final(pool).saved == old(pool).saved + 1
                && final(conn).reader_finished && final(conn).writer_finished,
    {
        let hdr = match conn.read_exact(header_size) {
            Ok(h) => h,
            Err(e) => {
                return Err(e);
            },
        };
        clt.send_header(hdr.as_slice());
        match forward_reply_body(conn, clt) {
            Ok(()) => {},
            Err(e) => {
                return Err(e);
            },
        }
        clt.end_body();
        conn.mark_reader_finished();
        if conn.writer_finished && keep_alive {
            pool.save_connection(conn, keep_alive);
        }
        Ok(RespmodAdaptationEndState::AdaptedTransferred)
    }

    /// The response-code state machine for a request that already carried
    /// the whole body (the small-body and no-preview paths): there is
    /// nothing left to continue with, so a continue status is a server
    /// error.
    fn handle_after_body_sent(
        &self,
        state: &mut RespmodAdaptationRunState,
        rsp: AdaptationResponse,
        original_prefix: &Vec<u8>,
        http_rsp_hdr: &Vec<u8>,
        ups_body: &mut BodySource,
        conn: &mut IcapConnection,
        clt: &mut ClientSink,
        pool: &mut ConnectionPool,
    ) -> (r: Result<RespmodAdaptationEndState, AdaptationError>)
        requires
            old(ups_body).wf(),
            old(ups_body).remaining().len() == 0,
            old(conn).wf(),
            !old(conn).reader_finished,
            !old(conn).writer_finished,
            old(clt).wf(),
            old(clt).header is None,
            old(pool).saved < usize::MAX,
        ensures
            final(ups_body).wf(),
            final(conn).wf(),
            final(conn).same_config(old(conn)),
            final(conn).written@ == old(conn).written@,
            final(clt).wf(),
            !(r matches Err(AdaptationError::WriteFailed)),
            (r matches Err(AdaptationError::NotImplemented(_))) ==> final(clt).spec_header()
                == old(clt).spec_header() && final(clt).body@ == old(clt).body@ && final(clt).ended == old(clt).ended && final(pool).saved == old(pool).saved,
            rsp.code == 204 ==> r is Ok && final(conn).writer_finished && final(clt).spec_header() == Some(http_rsp_hdr@) && final(clt).body@ == old(clt).body@
                + original_prefix@ && (final(conn).reader_finished <==> rsp.payload is NoPayload)
                && final(state).ups_recv_all,
            final(state).ups_recv_all ==> final(ups_body).remaining().len() == 0,
            final(pool).saved != old(pool).saved ==> rsp.keep_alive,
            (r matches Err(AdaptationError::ReadOrParseFailed)) ==> final(pool).saved == old(pool).saved,
            crate::dispatch::spec_dispatch(rsp.code) is ServerError && rsp.payload is NoPayload
                && rsp.keep_alive ==> final(pool).saved == old(pool).saved + 1 && (r matches Err(
                AdaptationError::ServerErrorResponse(_, _, _),
            )),
            rsp.code == 206 ==> (r matches Err(AdaptationError::NotImplemented(_))) && final(clt).spec_header() == old(clt).spec_header() && final(clt).body@ == old(clt).body@
                && final(clt).ended == old(clt).ended && final(pool).saved == old(pool).saved,
            final(pool).saved != old(pool).saved ==> final(pool).saved == old(pool).saved + 1
                && final(conn).reader_finished && final(conn).writer_finished,
    {
        match dispatch_code(rsp.code) {
            DispatchDecision::Unmodified => {
                conn.mark_writer_finished();
                match rsp.payload {
                    crate::response::ResponsePayload::NoPayload => {
                        conn.mark_reader_finished();
                    },
                    _ => {},
                }
                forward_original(state, http_rsp_hdr, original_prefix, ups_body, clt);
                if conn.reader_finished && conn.writer_finished && rsp.keep_alive {
                    pool.save_connection(conn, rsp.keep_alive);
                }
                Ok(RespmodAdaptationEndState::OriginalTransferred)
            },
            DispatchDecision::NotSupported => Err(
                AdaptationError::NotImplemented("ICAP-RESPMOD-206"),
            ),
            DispatchDecision::Adapted => {
                conn.mark_writer_finished();
                match rsp.payload {
                    crate::response::ResponsePayload::NoPayload => {
                        conn.mark_reader_finished();
                        forward_original(state, http_rsp_hdr, original_prefix, ups_body, clt);
                        if conn.reader_finished && conn.writer_finished && rsp.keep_alive {
                            pool.save_connection(conn, rsp.keep_alive);
                        }
                        Ok(RespmodAdaptationEndState::OriginalTransferred)
                    },
                    crate::response::ResponsePayload::HeadersOnly(n) => {
                        self.handle_headers_only(n, rsp.keep_alive, conn, clt, pool)
                    },
                    crate::response::ResponsePayload::HeadersWithBody(n) => {
                        self.handle_with_body(n, rsp.keep_alive, conn, clt, pool)
                    },
                }
            },
            DispatchDecision::ContinueBody => Err(
                AdaptationError::ServerErrorResponse(
                    ServerErrorReason::UnexpectedContinue,
                    rsp.code,
                    rsp.reason,
                ),
            ),
            DispatchDecision::ServerError => {
                conn.mark_writer_finished();
                let pooled_payload = match rsp.payload {
                    crate::response::ResponsePayload::NoPayload => true,
                    _ => false,
                };
                if pooled_payload {
                    conn.mark_reader_finished();
                    if rsp.keep_alive {
                        pool.save_connection(conn, rsp.keep_alive);
                    }
                }
                Err(
                    AdaptationError::ServerErrorResponse(
                        ServerErrorReason::UnknownResponseForPreview,
                        rsp.code,
                        rsp.reason,
                    ),
                )
            },
        }
    }

    /// The response-code state machine of the generic preview path: on a
    /// continue status the remaining body is streamed and the second
    /// reply's payload variant is dispatched; otherwise the first reply
    /// decides directly.
    pub fn dispatch_preview_response(
        &self,
        state: &mut RespmodAdaptationRunState,
        rsp: AdaptationResponse,
        preview: PreviewData,
        http_rsp_hdr: &Vec<u8>,
        ups_body: &mut BodySource,
        conn: &mut IcapConnection,
        clt: &mut ClientSink,
        pool: &mut ConnectionPool,
    ) -> (r: Result<RespmodAdaptationEndState, AdaptationError>)
        requires
            self.wf(),
            !old(state).ups_recv_all,
            old(ups_body).wf(),
            old(conn).wf(),
            !old(conn).reader_finished,
            !old(conn).writer_finished,
            old(clt).wf(),
            old(clt).header is None,
            old(pool).saved < usize::MAX,
        ensures
            final(ups_body).wf(),
            final(conn).wf(),
            final(conn).same_config(old(conn)),
            old(conn).written@.is_prefix_of(final(conn).written@),
            final(clt).wf(),
            rsp.code == 204 ==> r is Ok && final(conn).writer_finished && final(clt).spec_header() == Some(http_rsp_hdr@) && final(clt).body@ == old(clt).body@
                + preview.spec_data() + preview.spec_left() + old(ups_body).remaining() && (final(conn).reader_finished <==> rsp.payload is NoPayload) && final(state).ups_recv_all,
            rsp.code == 206 ==> (r matches Err(AdaptationError::NotImplemented(_))) && final(conn).written@ == old(conn).written@,
            (r matches Err(AdaptationError::NotImplemented(_))) ==> final(clt).spec_header()
                == old(clt).spec_header() && final(clt).body@ == old(clt).body@ && final(clt).ended == old(clt).ended && final(pool).saved == old(pool).saved,
            final(state).ups_recv_all ==> final(ups_body).remaining().len() == 0,
            final(pool).saved != old(pool).saved ==> (if rsp.code == 100 {
                crate::response::spec_keep_alive_at(old(conn).reply@, old(conn).reply_pos as int)
            } else {
                rsp.keep_alive
            }),
            (r matches Err(AdaptationError::WriteFailed)) || (r matches Err(
                AdaptationError::ReadOrParseFailed,
            )) ==> final(pool).saved == old(pool).saved,
            (r matches Err(AdaptationError::WriteFailed)) ==> old(conn).write_limit - old(
                conn,
            ).written@.len() < 21 * (preview.spec_left() + old(ups_body).remaining()).len() + 5,
            crate::dispatch::spec_dispatch(rsp.code) is ServerError && rsp.payload is NoPayload
                && rsp.keep_alive ==> final(pool).saved == old(pool).saved + 1 && (r matches Err(
                AdaptationError::ServerErrorResponse(_, _, _),
            )),
            rsp.code == 100 && !old(conn).early_reply && old(conn).write_limit - old(conn).written@.len() >= 21 * (preview.spec_left() + old(ups_body).remaining()).len() + 5
                && crate::response::spec_head_ok(
                old(conn).reply@,
                old(conn).reply_pos as int,
                self.icap_max_header_size as int,
            ) && crate::response::spec_payload_at(
                old(conn).reply@,
                old(conn).reply_pos as int,
            ) is NoPayload ==> {
                &&& r is Ok
                &&& final(conn).writer_finished
                &&& final(conn).reader_finished
                &&& final(clt).spec_header() == Some(http_rsp_hdr@)
                &&& final(clt).body@ == old(clt).body@ + preview.spec_data()
                    + preview.spec_left() + old(ups_body).remaining()
                &&& final(state).ups_recv_all
                &&& final(pool).saved == old(pool).saved + (
                if crate::response::spec_keep_alive_at(
                    old(conn).reply@,
                    old(conn).reply_pos as int,
                ) {
                    1int
                } else {
                    0int
                })
            },
            final(pool).saved != old(pool).saved ==> final(pool).saved == old(pool).saved + 1
                && final(conn).reader_finished && final(conn).writer_finished,
    {
        let mut preview = preview;
        match dispatch_code(rsp.code) {
            DispatchDecision::ContinueBody => {
                let mut transfer = match preview.take_left() {
                    Some(left_data) => ChunkedBodyTransfer::with_chunk(self.yield_size, left_data),
                    None => ChunkedBodyTransfer::new(self.yield_size),
                };
                let rsp2 = match self.transfer_and_recv(&mut transfer, ups_body, conn) {
                    Ok(rsp2) => rsp2,
                    Err(e) => {
                        return Err(e);
                    },
                };
                if transfer.is_finished() {
                    state.mark_ups_recv_all();
                }
                match rsp2.payload {
                    crate::response::ResponsePayload::NoPayload => {
                        if transfer.is_finished() {
                            conn.mark_writer_finished();
                        }
                        conn.mark_reader_finished();
                        let mut pre: Vec<u8> = Vec::new();
                        push_all(&mut pre, preview.data().as_slice());
                        match transfer.left.take() {
                            Some(l) => push_all(&mut pre, l.as_slice()),
                            None => {},
                        }
                        push_all(&mut pre, transfer.sent_payload.as_slice());
                        forward_original(state, http_rsp_hdr, &pre, ups_body, clt);
                        if conn.reader_finished && conn.writer_finished && rsp2.keep_alive {
                            pool.save_connection(conn, rsp2.keep_alive);
                        }
                        Ok(RespmodAdaptationEndState::OriginalTransferred)
                    },
                    crate::response::ResponsePayload::HeadersOnly(n) => {
                        if transfer.is_finished() {
                            conn.mark_writer_finished();
                        }
                        self.handle_headers_only(n, rsp2.keep_alive, conn, clt, pool)
                    },
                    crate::response::ResponsePayload::HeadersWithBody(n) => {
                        if transfer.is_finished() {
                            conn.mark_writer_finished();
                            self.handle_with_body(n, rsp2.keep_alive, conn, clt, pool)
                        } else {
                            // the server replied without taking the rest of
                            // the body: forward its reply, leave both sides
                            // unfinished, and let the connection be dropped
                            let hdr = match conn.read_exact(n) {
                                Ok(h) => h,
                                Err(e) => {
                                    return Err(e);
                                },
                            };
                            clt.send_header(hdr.as_slice());
                            match forward_reply_body(conn, clt) {
                                Ok(()) => {},
                                Err(e) => {
                                    return Err(e);
                                },
                            }
                            clt.end_body();
                            Ok(RespmodAdaptationEndState::AdaptedTransferred)
                        }
                    },
                }
            },
            DispatchDecision::Unmodified => {
                conn.mark_writer_finished();
                match rsp.payload {
                    crate::response::ResponsePayload::NoPayload => {
                        conn.mark_reader_finished();
                    },
                    _ => {},
                }
                let mut pre: Vec<u8> = Vec::new();
                push_all(&mut pre, preview.data().as_slice());
                match preview.take_left() {
                    Some(l) => push_all(&mut pre, l.as_slice()),
                    None => {},
                }
                forward_original(state, http_rsp_hdr, &pre, ups_body, clt);
                if conn.reader_finished && conn.writer_finished && rsp.keep_alive {
                    pool.save_connection(conn, rsp.keep_alive);
                }
                Ok(RespmodAdaptationEndState::OriginalTransferred)
            },
            DispatchDecision::NotSupported => Err(
                AdaptationError::NotImplemented("ICAP-RESPMOD-206"),
            ),
            DispatchDecision::Adapted => {
                conn.mark_writer_finished();
                match rsp.payload {
                    crate::response::ResponsePayload::NoPayload => {
                        conn.mark_reader_finished();
                        let mut pre: Vec<u8> = Vec::new();
                        push_all(&mut pre, preview.data().as_slice());
                        match preview.take_left() {
                            Some(l) => push_all(&mut pre, l.as_slice()),
                            None => {},
                        }
                        forward_original(state, http_rsp_hdr, &pre, ups_body, clt);
                        if conn.reader_finished && conn.writer_finished && rsp.keep_alive {
                            pool.save_connection(conn, rsp.keep_alive);
                        }
                        Ok(RespmodAdaptationEndState::OriginalTransferred)
                    },
                    crate::response::ResponsePayload::HeadersOnly(n) => {
                        self.handle_headers_only(n, rsp.keep_alive, conn, clt, pool)
                    },
                    crate::response::ResponsePayload::HeadersWithBody(n) => {
                        self.handle_with_body(n, rsp.keep_alive, conn, clt, pool)
                    },
                }
            },
            DispatchDecision::ServerError => {
                conn.mark_writer_finished();
                let payload_empty = match rsp.payload {
                    crate::response::ResponsePayload::NoPayload => true,
                    _ => false,
                };
                if payload_empty {
                    conn.mark_reader_finished();
                    if rsp.keep_alive {
                        pool.save_connection(conn, rsp.keep_alive);
                    }
                }
                Err(
                    AdaptationError::ServerErrorResponse(
                        ServerErrorReason::UnknownResponseForPreview,
                        rsp.code,
                        rsp.reason,
                    ),
                )
            },
        }
    }
}


impl H2ResponseAdapter {
    /// The whole body fit the preview window: send it as one plain
    /// request (a single write, no chunked framing), then dispatch on the
    /// reply.
    #[verifier::rlimit(100)]
    pub fn xfer_small_body(
        &self,
        state: &mut RespmodAdaptationRunState,
        http_req_hdr: &Vec<u8>,
        http_rsp_hdr: &Vec<u8>,
        preview: PreviewData,
        ups_body: &mut BodySource,
        conn: &mut IcapConnection,
        clt: &mut ClientSink,
        pool: &mut ConnectionPool,
    ) -> (r: Result<RespmodAdaptationEndState, AdaptationError>)
        requires
            self.wf(),
            http_req_hdr@.len() + http_rsp_hdr@.len() <= usize::MAX,
            preview.spec_end(),
            preview.spec_left().len() == 0,
            old(ups_body).wf(),
            old(ups_body).remaining().len() == 0,
            old(conn).wf(),
            !old(conn).reader_finished,
            !old(conn).writer_finished,
            old(clt).wf(),
            old(clt).header is None,
            old(pool).saved < usize::MAX,
        ensures
            final(ups_body).wf(),
            final(conn).wf(),
            final(conn).same_config(old(conn)),
            final(clt).wf(),
            (r matches Err(AdaptationError::WriteFailed)) ==> final(conn).written@ == old(conn).written@,
            !(r matches Err(AdaptationError::WriteFailed)) ==> final(conn).written@ == old(conn).written@ + self.spec_small_body_wire(
                http_req_hdr@,
                http_rsp_hdr@,
                preview.spec_data(),
            ),
            (r matches Err(AdaptationError::WriteFailed)) <==> self.spec_small_body_wire(
                http_req_hdr@,
                http_rsp_hdr@,
                preview.spec_data(),
            ).len() > old(conn).write_limit - old(conn).written@.len(),
            (r matches Err(AdaptationError::NotImplemented(_))) ==> final(clt).spec_header()
                == old(clt).spec_header() && final(clt).body@ == old(clt).body@ && final(pool).saved == old(pool).saved,
            !(r matches Err(AdaptationError::WriteFailed)) && crate::response::spec_head_ok(
                old(conn).reply@,
                old(conn).reply_pos as int,
                self.icap_max_header_size as int,
            ) && crate::response::spec_code_at(old(conn).reply@, old(conn).reply_pos as int)
                == 204 ==> {
                &&& r is Ok
                &&& final(conn).writer_finished
                &&& (final(conn).reader_finished <==> crate::response::spec_payload_at(
                    old(conn).reply@,
                    old(conn).reply_pos as int,
                ) is NoPayload)
                &&& final(clt).spec_header() == Some(http_rsp_hdr@)
                &&& final(clt).body@ == old(clt).body@ + preview.spec_data()
                &&& final(state).ups_recv_all
            },
            !(r matches Err(AdaptationError::WriteFailed)) && crate::response::spec_head_ok(
                old(conn).reply@,
                old(conn).reply_pos as int,
                self.icap_max_header_size as int,
            ) && crate::response::spec_code_at(old(conn).reply@, old(conn).reply_pos as int)
                == 206 ==> (r matches Err(AdaptationError::NotImplemented(_))),
            final(state).ups_recv_all ==> final(ups_body).remaining().len() == 0,
            final(pool).saved != old(pool).saved ==> crate::response::spec_keep_alive_at(
                old(conn).reply@,
                old(conn).reply_pos as int,
            ),
            (r matches Err(AdaptationError::WriteFailed)) || (r matches Err(
                AdaptationError::ReadOrParseFailed,
            )) ==> final(pool).saved == old(pool).saved,
            !(r matches Err(AdaptationError::WriteFailed)) && crate::response::spec_head_ok(
                old(conn).reply@,
                old(conn).reply_pos as int,
                self.icap_max_header_size as int,
            ) && crate::dispatch::spec_dispatch(
                crate::response::spec_code_at(old(conn).reply@, old(conn).reply_pos as int),
            ) is ServerError && crate::response::spec_payload_at(
                old(conn).reply@,
                old(conn).reply_pos as int,
            ) is NoPayload && crate::response::spec_keep_alive_at(
                old(conn).reply@,
                old(conn).reply_pos as int,
            ) ==> final(pool).saved == old(pool).saved + 1 && (r matches Err(
                AdaptationError::ServerErrorResponse(_, _, _),
            )),
            final(pool).saved != old(pool).saved ==> final(pool).saved == old(pool).saved + 1
                && final(conn).reader_finished && final(conn).writer_finished,
    {
        let hdr = self.build_request_header(http_req_hdr.len(), http_rsp_hdr.len());
        let mut wire = hdr;
        push_all(&mut wire, http_req_hdr.as_slice());
        push_all(&mut wire, http_rsp_hdr.as_slice());
        push_all(&mut wire, preview.data().as_slice());
        match conn.write_all(wire.as_slice()) {
            Ok(()) => {},
            Err(e) => {
                return Err(e);
            },
        }
        let rsp = match conn.recv_response(self.icap_max_header_size) {
            Ok(rsp) => rsp,
            Err(e) => {
                return Err(e);
            },
        };
        self.handle_after_body_sent(
            state,
            rsp,
            preview.data(),
            http_rsp_hdr,
            ups_body,
            conn,
            clt,
            pool,
        )
    }

    /// The preview window is empty and body data remains: bypass preview
    /// framing, stream the whole body chunked, then dispatch on the reply.
    #[verifier::rlimit(100)]
    pub fn xfer_without_preview(
        &self,
        state: &mut RespmodAdaptationRunState,
        http_req_hdr: &Vec<u8>,
        http_rsp_hdr: &Vec<u8>,
        ups_body: &mut BodySource,
        conn: &mut IcapConnection,
        clt: &mut ClientSink,
        pool: &mut ConnectionPool,
    ) -> (r: Result<RespmodAdaptationEndState, AdaptationError>)
        requires
            self.wf(),
            http_req_hdr@.len() + http_rsp_hdr@.len() <= usize::MAX,
            !old(state).ups_recv_all,
            old(ups_body).wf(),
            old(conn).wf(),
            !old(conn).reader_finished,
            !old(conn).writer_finished,
            old(clt).wf(),
            old(clt).header is None,
            old(pool).saved < usize::MAX,
        ensures
            final(ups_body).wf(),
            final(conn).wf(),
            final(conn).same_config(old(conn)),
            final(clt).wf(),
            r is Ok ==> exists|ch: Seq<Seq<u8>>|
                {
                    &&& crate::transfer::valid_chunks(ch, self.yield_size as nat)
                    &&& crate::body::concat_from(ch, 0) == old(ups_body).remaining()
                    &&& final(conn).written@ == old(conn).written@ + self.spec_request_header(
                        http_req_hdr@.len(),
                        http_rsp_hdr@.len(),
                        None,
                    ) + http_req_hdr@ + http_rsp_hdr@ + crate::transfer::chunk_encoding(ch)
                        + crate::tokens::tok_last_chunk()
                },
            (r matches Err(AdaptationError::NotImplemented(_))) ==> final(clt).spec_header()
                == old(clt).spec_header() && final(clt).body@ == old(clt).body@ && final(pool).saved == old(pool).saved,
            (r matches Err(AdaptationError::WriteFailed)) ==> self.spec_request_header(
                http_req_hdr@.len(),
                http_rsp_hdr@.len(),
                None,
            ).len() + http_req_hdr@.len() + http_rsp_hdr@.len() + 21 * old(
                ups_body,
            ).remaining().len() + 5 > old(conn).write_limit - old(conn).written@.len(),
            self.spec_request_header(http_req_hdr@.len(), http_rsp_hdr@.len(), None).len()
                + http_req_hdr@.len() + http_rsp_hdr@.len() + 21 * old(ups_body).remaining().len()
                + 5 <= old(conn).write_limit - old(conn).written@.len() ==> !(r matches Err(
                AdaptationError::WriteFailed,
            )),
            !(r matches Err(AdaptationError::WriteFailed)) && crate::response::spec_head_ok(
                old(conn).reply@,
                old(conn).reply_pos as int,
                self.icap_max_header_size as int,
            ) && crate::response::spec_code_at(old(conn).reply@, old(conn).reply_pos as int)
                == 204 ==> {
                &&& r is Ok
                &&& final(conn).writer_finished
                &&& (final(conn).reader_finished <==> crate::response::spec_payload_at(
                    old(conn).reply@,
                    old(conn).reply_pos as int,
                ) is NoPayload)
                &&& final(clt).spec_header() == Some(http_rsp_hdr@)
                &&& final(clt).body@ == old(clt).body@ + old(ups_body).remaining()
                &&& final(state).ups_recv_all
            },
            !(r matches Err(AdaptationError::WriteFailed)) && crate::response::spec_head_ok(
                old(conn).reply@,
                old(conn).reply_pos as int,
                self.icap_max_header_size as int,
            ) && crate::response::spec_code_at(old(conn).reply@, old(conn).reply_pos as int)
                == 206 ==> (r matches Err(AdaptationError::NotImplemented(_))),
            final(state).ups_recv_all ==> final(ups_body).remaining().len() == 0,
            final(pool).saved != old(pool).saved ==> crate::response::spec_keep_alive_at(
                old(conn).reply@,
                old(conn).reply_pos as int,
            ),
            (r matches Err(AdaptationError::WriteFailed)) || (r matches Err(
                AdaptationError::ReadOrParseFailed,
            )) ==> final(pool).saved == old(pool).saved,
            !(r matches Err(AdaptationError::WriteFailed)) && crate::response::spec_head_ok(
                old(conn).reply@,
                old(conn).reply_pos as int,
                self.icap_max_header_size as int,
            ) && crate::dispatch::spec_dispatch(
                crate::response::spec_code_at(old(conn).reply@, old(conn).reply_pos as int),
            ) is ServerError && crate::response::spec_payload_at(
                old(conn).reply@,
                old(conn).reply_pos as int,
            ) is NoPayload && crate::response::spec_keep_alive_at(
                old(conn).reply@,
                old(conn).reply_pos as int,
            ) ==> final(pool).saved == old(pool).saved + 1 && (r matches Err(
                AdaptationError::ServerErrorResponse(_, _, _),
            )),
            final(pool).saved != old(pool).saved ==> final(pool).saved == old(pool).saved + 1
                && final(conn).reader_finished && final(conn).writer_finished,
    {
        let hdr = self.build_request_header(http_req_hdr.len(), http_rsp_hdr.len());
        let mut wire = hdr;
        push_all(&mut wire, http_req_hdr.as_slice());
        push_all(&mut wire, http_rsp_hdr.as_slice());
        match conn.write_all(wire.as_slice()) {
            Ok(()) => {},
            Err(e) => {
                return Err(e);
            },
        }
        let ghost w1 = conn.written@;
        let ghost rem1 = ups_body.remaining();
        let mut transfer = ChunkedBodyTransfer::new(self.yield_size);
        let ghost left0 = transfer.spec_left();
        match transfer.pump_all(ups_body, conn) {
            Ok(()) => {},
            Err(e) => {
                return Err(e);
            },
        }
        let ghost w2 = conn.written@;
        state.mark_ups_recv_all();
        let rsp = match conn.recv_response(self.icap_max_header_size) {
            Ok(rsp) => rsp,
            Err(e) => {
                return Err(e);
            },
        };
        let r = self.handle_after_body_sent(
            state,
            rsp,
            &transfer.sent_payload,
            http_rsp_hdr,
            ups_body,
            conn,
            clt,
            pool,
        );
        proof {
            if r is Ok {
                let ch = choose|ch: Seq<Seq<u8>>|
                    {
                        &&& crate::transfer::valid_chunks(ch, self.yield_size as nat)
                        &&& crate::body::concat_from(ch, 0) == left0 + rem1
                        &&& w2 == w1 + crate::transfer::chunk_encoding(ch)
                            + crate::tokens::tok_last_chunk()
                    };
                assert(left0 + rem1 =~= rem1);
                assert(crate::body::concat_from(ch, 0) == old(ups_body).remaining());
                assert(conn.written@ =~= old(conn).written@ + self.spec_request_header(
                    http_req_hdr@.len(),
                    http_rsp_hdr@.len(),
                    None,
                ) + http_req_hdr@ + http_rsp_hdr@ + crate::transfer::chunk_encoding(ch)
                    + crate::tokens::tok_last_chunk());
            }
        }
        r
    }

    /// One whole response-adaptation attempt: negotiate the preview
    /// window, pick the transfer path, run the response-code state machine
    /// and decide whether the connection may be pooled.
    #[verifier::rlimit(100)]
    pub fn xfer_with_preview(
        &self,
        state: &mut RespmodAdaptationRunState,
        http_req_hdr: &Vec<u8>,
        http_rsp_hdr: &Vec<u8>,
        ups_body: &mut BodySource,
        conn: &mut IcapConnection,
        clt: &mut ClientSink,
        pool: &mut ConnectionPool,
        max_preview_size: usize,
    ) -> (r: Result<RespmodAdaptationEndState, AdaptationError>)
        requires
            self.wf(),
            http_req_hdr@.len() + http_rsp_hdr@.len() <= usize::MAX,
            !old(state).ups_recv_all,
            old(ups_body).wf(),
            old(conn).wf(),
            !old(conn).reader_finished,
            !old(conn).writer_finished,
            old(clt).wf(),
            old(clt).header is None,
            old(pool).saved < usize::MAX,
        ensures
            final(ups_body).wf(),
            final(conn).wf(),
            final(conn).same_config(old(conn)),
            final(clt).wf(),
            old(ups_body).remaining().len() <= max_preview_size && !(r matches Err(
                AdaptationError::WriteFailed,
            )) ==> final(conn).written@ == old(conn).written@ + self.spec_small_body_wire(
                http_req_hdr@,
                http_rsp_hdr@,
                old(ups_body).remaining(),
            ),
            old(ups_body).remaining().len() <= max_preview_size && (r matches Err(
                AdaptationError::WriteFailed,
            )) ==> final(conn).written@ == old(conn).written@,
            old(ups_body).remaining().len() <= max_preview_size ==> ((r matches Err(
                AdaptationError::WriteFailed,
            )) <==> self.spec_small_body_wire(
                http_req_hdr@,
                http_rsp_hdr@,
                old(ups_body).remaining(),
            ).len() > old(conn).write_limit - old(conn).written@.len()),
            old(ups_body).remaining().len() > max_preview_size && max_preview_size > 0 && (
            r matches Err(AdaptationError::WriteFailed)) ==> self.spec_preview_wire(
                http_req_hdr@,
                http_rsp_hdr@,
                old(ups_body).remaining().take(max_preview_size as int),
            ).len() + 21 * (old(ups_body).remaining().len() - max_preview_size) + 5 > old(
                conn,
            ).write_limit - old(conn).written@.len(),
            old(ups_body).remaining().len() > max_preview_size && max_preview_size > 0
                && self.spec_preview_wire(
                http_req_hdr@,
                http_rsp_hdr@,
                old(ups_body).remaining().take(max_preview_size as int),
            ).len() + 21 * (old(ups_body).remaining().len() - max_preview_size) + 5 <= old(
                conn,
            ).write_limit - old(conn).written@.len() ==> !(r matches Err(
                AdaptationError::WriteFailed,
            )),
            max_preview_size == 0 && old(ups_body).remaining().len() > 0 && (r matches Err(
                AdaptationError::WriteFailed,
            )) ==> self.spec_request_header(http_req_hdr@.len(), http_rsp_hdr@.len(), None).len()
                + http_req_hdr@.len() + http_rsp_hdr@.len() + 21 * old(
                ups_body,
            ).remaining().len() + 5 > old(conn).write_limit - old(conn).written@.len(),
            max_preview_size == 0 && old(ups_body).remaining().len() > 0 && r is Ok
                ==> exists|ch: Seq<Seq<u8>>|
                {
                    &&& crate::transfer::valid_chunks(ch, self.yield_size as nat)
                    &&& crate::body::concat_from(ch, 0) == old(ups_body).remaining()
                    &&& final(conn).written@ == old(conn).written@ + self.spec_request_header(
                        http_req_hdr@.len(),
                        http_rsp_hdr@.len(),
                        None,
                    ) + http_req_hdr@ + http_rsp_hdr@ + crate::transfer::chunk_encoding(ch)
                        + crate::tokens::tok_last_chunk()
                },
            !(r matches Err(AdaptationError::WriteFailed)) && crate::response::spec_head_ok(
                old(conn).reply@,
                old(conn).reply_pos as int,
                self.icap_max_header_size as int,
            ) && crate::response::spec_code_at(old(conn).reply@, old(conn).reply_pos as int)
                == 204 ==> {
                &&& r is Ok
                &&& final(conn).writer_finished
                &&& (final(conn).reader_finished <==> crate::response::spec_payload_at(
                    old(conn).reply@,
                    old(conn).reply_pos as int,
                ) is NoPayload)
                &&& final(clt).spec_header() == Some(http_rsp_hdr@)
                &&& final(clt).body@ == old(clt).body@ + old(ups_body).remaining()
                &&& final(state).ups_recv_all
            },
            !(r matches Err(AdaptationError::WriteFailed)) && crate::response::spec_head_ok(
                old(conn).reply@,
                old(conn).reply_pos as int,
                self.icap_max_header_size as int,
            ) && crate::response::spec_code_at(old(conn).reply@, old(conn).reply_pos as int)
                == 206 ==> (r matches Err(AdaptationError::NotImplemented(_))),
            (r matches Err(AdaptationError::NotImplemented(_))) ==> final(clt).spec_header()
                == old(clt).spec_header() && final(clt).body@ == old(clt).body@ && final(pool).saved == old(pool).saved,
            final(state).ups_recv_all ==> final(ups_body).remaining().len() == 0,
            final(pool).saved != old(pool).saved ==> (crate::response::spec_keep_alive_at(
                old(conn).reply@,
                old(conn).reply_pos as int,
            ) || crate::response::spec_keep_alive_at(
                old(conn).reply@,
                old(conn).reply_pos + crate::response::spec_head_len(
                    old(conn).reply@,
                    old(conn).reply_pos as int,
                ),
            )),
            (r matches Err(AdaptationError::WriteFailed)) || (r matches Err(
                AdaptationError::ReadOrParseFailed,
            )) ==> final(pool).saved == old(pool).saved,
            !(r matches Err(AdaptationError::WriteFailed)) && crate::response::spec_head_ok(
                old(conn).reply@,
                old(conn).reply_pos as int,
                self.icap_max_header_size as int,
            ) && crate::dispatch::spec_dispatch(
                crate::response::spec_code_at(old(conn).reply@, old(conn).reply_pos as int),
            ) is ServerError && crate::response::spec_payload_at(
                old(conn).reply@,
                old(conn).reply_pos as int,
            ) is NoPayload && crate::response::spec_keep_alive_at(
                old(conn).reply@,
                old(conn).reply_pos as int,
            ) ==> final(pool).saved == old(pool).saved + 1 && (r matches Err(
                AdaptationError::ServerErrorResponse(_, _, _),
            )),
            old(ups_body).remaining().len() > max_preview_size && max_preview_size > 0
                && !old(conn).early_reply && self.spec_preview_wire(
                http_req_hdr@,
                http_rsp_hdr@,
                old(ups_body).remaining().take(max_preview_size as int),
            ).len() + 21 * (old(ups_body).remaining().len() - max_preview_size) + 5 <= old(
                conn,
            ).write_limit - old(conn).written@.len() && crate::response::spec_head_ok(
                old(conn).reply@,
                old(conn).reply_pos as int,
                self.icap_max_header_size as int,
            ) && crate::response::spec_code_at(old(conn).reply@, old(conn).reply_pos as int)
                == 100 && crate::response::spec_head_ok(
                old(conn).reply@,
                old(conn).reply_pos + crate::response::spec_head_len(
                    old(conn).reply@,
                    old(conn).reply_pos as int,
                ),
                self.icap_max_header_size as int,
            ) && crate::response::spec_payload_at(
                old(conn).reply@,
                old(conn).reply_pos + crate::response::spec_head_len(
                    old(conn).reply@,
                    old(conn).reply_pos as int,
                ),
            ) is NoPayload ==> {
                &&& r is Ok
                &&& final(conn).writer_finished
                &&& final(conn).reader_finished
                &&& final(clt).spec_header() == Some(http_rsp_hdr@)
                &&& final(clt).body@ == old(clt).body@ + old(ups_body).remaining()
                &&& final(state).ups_recv_all
                &&& final(pool).saved == old(pool).saved + (
                if crate::response::spec_keep_alive_at(
                    old(conn).reply@,
                    old(conn).reply_pos + crate::response::spec_head_len(
                        old(conn).reply@,
                        old(conn).reply_pos as int,
                    ),
                ) {
                    1int
                } else {
                    0int
                })
            },
            final(pool).saved != old(pool).saved ==> final(pool).saved == old(pool).saved + 1
                && final(conn).reader_finished && final(conn).writer_finished,
    {
        let mut preview_data = PreviewData::new(max_preview_size);
        preview_data.recv_initial(ups_body);
        match select_path(&preview_data) {
            PreviewPath::SmallBody => self.xfer_small_body(
                state,
                http_req_hdr,
                http_rsp_hdr,
                preview_data,
                ups_body,
                conn,
                clt,
                pool,
            ),
            PreviewPath::NoPreview => {
                proof {
                    assert(ups_body.remaining() =~= old(ups_body).remaining());
                }
                self.xfer_without_preview(
                    state,
                    http_req_hdr,
                    http_rsp_hdr,
                    ups_body,
                    conn,
                    clt,
                    pool,
                )
            },
            PreviewPath::Preview => {
                let icap_header = self.build_preview_request(
                    http_req_hdr.len(),
                    http_rsp_hdr.len(),
                    preview_data.preview_size(),
                );
                let mut wire = icap_header;
                push_all(&mut wire, http_req_hdr.as_slice());
                push_all(&mut wire, http_rsp_hdr.as_slice());
                crate::transfer::push_chunk_frame(&mut wire, preview_data.data().as_slice());
                let t = crate::tokens::last_chunk_bytes();
                push_all(&mut wire, t.as_slice());
                proof {
                    assert(preview_data.spec_data() =~= old(ups_body).remaining().take(
                        max_preview_size as int,
                    ));
                    assert(wire@ =~= self.spec_preview_wire(
                        http_req_hdr@,
                        http_rsp_hdr@,
                        old(ups_body).remaining().take(max_preview_size as int),
                    ));
                    assert((preview_data.spec_left() + ups_body.remaining()).len() == old(
                        ups_body,
                    ).remaining().len() - max_preview_size);
                }
                match conn.write_all(wire.as_slice()) {
                    Ok(()) => {},
                    Err(e) => {
                        return Err(e);
                    },
                }
                let rsp = match conn.recv_response(self.icap_max_header_size) {
                    Ok(rsp) => rsp,
                    Err(e) => {
                        return Err(e);
                    },
                };
                self.dispatch_preview_response(
                    state,
                    rsp,
                    preview_data,
                    http_rsp_hdr,
                    ups_body,
                    conn,
                    clt,
                    pool,
                )
            },
        }
    }
}

} // verus!
