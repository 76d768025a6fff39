use icap_respmod::adapter::{H2ResponseAdapter, RespmodAdaptationEndState, RespmodAdaptationRunState};
use icap_respmod::body::BodySource;
use icap_respmod::client::ClientSink;
use icap_respmod::connection::{ConnectionPool, IcapConnection};
use icap_respmod::error::AdaptationError;
use icap_respmod::preview::PreviewData;
use icap_respmod::response::{parse_response_head, ResponsePayload};

fn adapter() -> H2ResponseAdapter {
    H2ResponseAdapter::new(
        b"RESPMOD icap://adapt/respmod ICAP/1.0\r\nHost: adapt\r\n".to_vec(),
        Vec::new(),
        4096,
        65536,
    )
}

fn req_hdr() -> Vec<u8> {
    b"GET / HTTP/1.1\r\n\r\n".to_vec()
}

fn rsp_hdr() -> Vec<u8> {
    b"HTTP/1.1 200 OK\r\n\r\n".to_vec()
}

fn run(
    body: Vec<u8>,
    reply: Vec<u8>,
    write_limit: usize,
    early_reply: bool,
    max_preview: usize,
) -> (
    Result<RespmodAdaptationEndState, AdaptationError>,
    RespmodAdaptationRunState,
    IcapConnection,
    ClientSink,
    ConnectionPool,
) {
    let a = adapter();
    let mut state = RespmodAdaptationRunState::new();
    let mut ups = BodySource::from_bytes(body);
    let mut conn = IcapConnection::new(reply, write_limit, early_reply);
    let mut clt = ClientSink::new();
    let mut pool = ConnectionPool::new();
    let req = req_hdr();
    let rsp = rsp_hdr();
    let r = a.xfer_with_preview(
        &mut state,
        &req,
        &rsp,
        &mut ups,
        &mut conn,
        &mut clt,
        &mut pool,
        max_preview,
    );
    (r, state, conn, clt, pool)
}

#[test]
fn scenario_small_body_single_write() {
    // a 10-byte body inside a 16-byte window: one plain request, no
    // chunked framing, the original forwarded on 204, connection pooled
    let reply = b"ICAP/1.0 204 No Content\r\nEncapsulated: null-body=0\r\n\r\n".to_vec();
    let (r, state, conn, clt, pool) = run(b"0123456789".to_vec(), reply, usize::MAX, false, 16);
    assert!(matches!(r, Ok(RespmodAdaptationEndState::OriginalTransferred)));
    let mut expect = b"RESPMOD icap://adapt/respmod ICAP/1.0\r\nHost: adapt\r\n".to_vec();
    expect.extend_from_slice(b"Encapsulated: req-hdr=0, res-hdr=18, res-body=37\r\n\r\n");
    expect.extend_from_slice(&req_hdr());
    expect.extend_from_slice(&rsp_hdr());
    expect.extend_from_slice(b"0123456789");
    assert_eq!(conn.written, expect);
    assert_eq!(clt.header, Some(rsp_hdr()));
    assert_eq!(clt.body, b"0123456789".to_vec());
    assert!(clt.ended);
    assert!(state.ups_recv_all);
    assert!(conn.reader_finished);
    assert!(conn.writer_finished);
    assert_eq!(pool.saved, 1);
}

#[test]
fn scenario_continue_then_unmodified() {
    // a 100-byte body with a 16-byte window: the server asks for the
    // rest, then declares the response unmodified; the client gets all
    // 100 original bytes and the connection is pooled
    let mut reply = b"ICAP/1.0 100 Continue\r\n\r\n".to_vec();
    reply.extend_from_slice(b"ICAP/1.0 204 No Content\r\nEncapsulated: null-body=0\r\n\r\n");
    let body: Vec<u8> = (0..100u8).collect();
    let (r, state, conn, clt, pool) = run(body.clone(), reply, usize::MAX, false, 16);
    assert!(matches!(r, Ok(RespmodAdaptationEndState::OriginalTransferred)));
    assert_eq!(clt.header, Some(rsp_hdr()));
    assert_eq!(clt.body, body);
    assert!(clt.ended);
    assert!(state.ups_recv_all);
    assert!(conn.reader_finished);
    assert!(conn.writer_finished);
    assert_eq!(pool.saved, 1);
    // the preview declared 16 bytes and the continuation was chunked:
    // 84 remaining bytes as one 0x54-byte chunk
    let written = conn.written;
    let hdr_text = String::from_utf8_lossy(&written).into_owned();
    assert!(hdr_text.contains("Preview: 16\r\n"));
    assert!(hdr_text.contains("54\r\n"));
}

#[test]
fn scenario_partial_content_not_implemented() {
    // a 206 reply fails the attempt; nothing reaches the client and the
    // connection is not pooled
    let reply = b"ICAP/1.0 206 Partial Content\r\nEncapsulated: null-body=0\r\n\r\n".to_vec();
    let body: Vec<u8> = (0..100u8).collect();
    let (r, state, conn, clt, pool) = run(body, reply, usize::MAX, false, 16);
    assert!(matches!(r, Err(AdaptationError::NotImplemented(_))));
    assert_eq!(clt.header, None);
    assert!(clt.body.is_empty());
    assert!(!state.ups_recv_all);
    assert!(!conn.reader_finished);
    assert_eq!(pool.saved, 0);
}

#[test]
fn no_preview_path_chunks_whole_body() {
    // a zero-byte window with body data: no preview framing, the body
    // streamed chunked before the reply is read
    let reply = b"ICAP/1.0 204 No Content\r\nEncapsulated: null-body=0\r\n\r\n".to_vec();
    let body: Vec<u8> = (0..100u8).collect();
    let (r, state, conn, clt, pool) = run(body.clone(), reply, usize::MAX, false, 0);
    assert!(matches!(r, Ok(RespmodAdaptationEndState::OriginalTransferred)));
    let mut expect = b"RESPMOD icap://adapt/respmod ICAP/1.0\r\nHost: adapt\r\n".to_vec();
    expect.extend_from_slice(b"Encapsulated: req-hdr=0, res-hdr=18, res-body=37\r\n\r\n");
    expect.extend_from_slice(&req_hdr());
    expect.extend_from_slice(&rsp_hdr());
    expect.extend_from_slice(b"64\r\n");
    expect.extend_from_slice(&body);
    expect.extend_from_slice(b"\r\n0\r\n\r\n");
    assert_eq!(conn.written, expect);
    assert_eq!(clt.body, body);
    assert!(state.ups_recv_all);
    assert_eq!(pool.saved, 1);
}

#[test]
fn adapted_response_with_body_reaches_client() {
    // an immediate 200 carrying its own headers and a chunked body: the
    // client gets the adapted response, decoded
    let http = b"HTTP/1.1 200 OK\r\nVia: adapt\r\n\r\n";
    let mut reply = format!(
        "ICAP/1.0 200 OK\r\nEncapsulated: res-hdr=0, res-body={}\r\n\r\n",
        http.len()
    )
    .into_bytes();
    reply.extend_from_slice(http);
    reply.extend_from_slice(b"5\r\nHELLO\r\n0\r\n\r\n");
    let body: Vec<u8> = (0..100u8).collect();
    let (r, _state, conn, clt, pool) = run(body, reply, usize::MAX, false, 16);
    assert!(matches!(r, Ok(RespmodAdaptationEndState::AdaptedTransferred)));
    assert_eq!(clt.header, Some(http.to_vec()));
    assert_eq!(clt.body, b"HELLO".to_vec());
    assert!(clt.ended);
    assert!(conn.reader_finished);
    assert!(conn.writer_finished);
    assert_eq!(pool.saved, 1);
}

#[test]
fn adapted_headers_only_reaches_client_with_empty_body() {
    let http = b"HTTP/1.1 304 Not Modified\r\n\r\n";
    let mut reply = format!(
        "ICAP/1.0 200 OK\r\nEncapsulated: res-hdr=0, null-body={}\r\n\r\n",
        http.len()
    )
    .into_bytes();
    reply.extend_from_slice(http);
    let body: Vec<u8> = (0..100u8).collect();
    let (r, _state, conn, clt, pool) = run(body, reply, usize::MAX, false, 16);
    assert!(matches!(r, Ok(RespmodAdaptationEndState::AdaptedTransferred)));
    assert_eq!(clt.header, Some(http.to_vec()));
    assert!(clt.body.is_empty());
    assert!(clt.ended);
    assert!(conn.reader_finished);
    assert_eq!(pool.saved, 1);
}

#[test]
fn write_failure_discards_connection() {
    // the server accepts only 10 bytes: the first write fails and the
    // connection is never pooled
    let reply = b"ICAP/1.0 204 No Content\r\nEncapsulated: null-body=0\r\n\r\n".to_vec();
    let body: Vec<u8> = (0..100u8).collect();
    let (r, state, conn, clt, pool) = run(body, reply, 10, false, 16);
    assert!(matches!(r, Err(AdaptationError::WriteFailed)));
    assert!(conn.written.is_empty());
    assert_eq!(clt.header, None);
    assert!(!state.ups_recv_all);
    assert_eq!(pool.saved, 0);
}

#[test]
fn early_reply_leaves_connection_unpooled() {
    // the server answers 100 then replies with a body without reading the
    // continuation: the adapted response is forwarded, but neither side
    // finished, so the connection is dropped
    let http = b"HTTP/1.1 200 OK\r\n\r\n";
    let mut reply = b"ICAP/1.0 100 Continue\r\n\r\n".to_vec();
    reply.extend_from_slice(
        format!(
            "ICAP/1.0 200 OK\r\nEncapsulated: res-hdr=0, res-body={}\r\n\r\n",
            http.len()
        )
        .as_bytes(),
    );
    reply.extend_from_slice(http);
    reply.extend_from_slice(b"2\r\nOK\r\n0\r\n\r\n");
    let body: Vec<u8> = (0..100u8).collect();
    let (r, state, conn, clt, pool) = run(body, reply, usize::MAX, true, 16);
    assert!(matches!(r, Ok(RespmodAdaptationEndState::AdaptedTransferred)));
    assert_eq!(clt.body, b"OK".to_vec());
    assert!(!state.ups_recv_all);
    assert!(!conn.reader_finished);
    assert!(!conn.writer_finished);
    assert_eq!(pool.saved, 0);
}

#[test]
fn declining_persistence_prevents_pooling() {
    let reply =
        b"ICAP/1.0 204 No Content\r\nConnection: close\r\nEncapsulated: null-body=0\r\n\r\n"
            .to_vec();
    let (r, _state, conn, _clt, pool) = run(b"0123456789".to_vec(), reply, usize::MAX, false, 16);
    assert!(matches!(r, Ok(RespmodAdaptationEndState::OriginalTransferred)));
    assert!(conn.reader_finished);
    assert!(conn.writer_finished);
    assert_eq!(pool.saved, 0);
}

#[test]
fn server_error_with_clean_framing_still_pools() {
    // a persistent error reply without a payload leaves the framing fully
    // consumed: the attempt fails but the connection may be reused
    let reply = b"ICAP/1.0 500 Server Error\r\nEncapsulated: null-body=0\r\n\r\n".to_vec();
    let (r, _state, _conn, _clt, pool) = run(b"0123456789".to_vec(), reply, usize::MAX, false, 16);
    match r {
        Err(AdaptationError::ServerErrorResponse(_, code, reason)) => {
            assert_eq!(code, 500);
            assert_eq!(reason, b"Server Error".to_vec());
        },
        other => panic!("unexpected outcome: {:?}", other),
    }
    assert_eq!(pool.saved, 1);
}

#[test]
fn malformed_reply_fails_parse() {
    let reply = b"HTTP/1.1 200 OK\r\n\r\n".to_vec();
    let (r, _state, _conn, _clt, pool) = run(b"0123456789".to_vec(), reply, usize::MAX, false, 16);
    assert!(matches!(r, Err(AdaptationError::ReadOrParseFailed)));
    assert_eq!(pool.saved, 0);
}

#[test]
fn oversized_reply_head_is_rejected() {
    let mut reply = b"ICAP/1.0 204 No Content\r\n".to_vec();
    for _ in 0..70000 {
        reply.extend_from_slice(b"X-Filler: aaaaaaaaaa\r\n");
    }
    reply.extend_from_slice(b"\r\n");
    let (r, _state, _conn, _clt, pool) = run(b"0123456789".to_vec(), reply, usize::MAX, false, 16);
    assert!(matches!(r, Err(AdaptationError::ReadOrParseFailed)));
    assert_eq!(pool.saved, 0);
}

#[test]
fn negotiation_is_single_consumption() {
    // a second negotiation over the same stream observes the advanced
    // position instead of re-reading the first window
    let frames = vec![b"abcd".to_vec(), b"efgh".to_vec(), b"ij".to_vec()];
    let mut body = BodySource::new(frames);
    let mut first = PreviewData::new(4);
    first.recv_initial(&mut body);
    assert_eq!(first.preview_size(), 4);
    assert_eq!(first.data(), &b"abcd".to_vec());
    assert!(!first.end_of_data());
    let mut second = PreviewData::new(4);
    second.recv_initial(&mut body);
    assert_eq!(second.data(), &b"efgh".to_vec());
    let mut third = PreviewData::new(4);
    third.recv_initial(&mut body);
    assert_eq!(third.data(), &b"ij".to_vec());
    assert!(third.end_of_data());
}

#[test]
fn preview_request_header_bytes_are_exact() {
    let a = adapter();
    let hdr = a.build_preview_request(100, 23, 16);
    let mut expect = b"RESPMOD icap://adapt/respmod ICAP/1.0\r\nHost: adapt\r\n".to_vec();
    expect.extend_from_slice(
        b"Encapsulated: req-hdr=0, res-hdr=100, res-body=123\r\nPreview: 16\r\n\r\n",
    );
    assert_eq!(hdr, expect);
}

#[test]
fn parse_reads_code_reason_and_payload() {
    let buf = b"ICAP/1.0 204 No Content\r\nISTag: \"x\"\r\nEncapsulated: null-body=0\r\n\r\n"
        .to_vec();
    let (rsp, consumed) = parse_response_head(&buf, 0, 65536).unwrap();
    assert_eq!(rsp.code, 204);
    assert_eq!(rsp.reason, b"No Content".to_vec());
    assert!(rsp.keep_alive);
    assert_eq!(rsp.payload, ResponsePayload::NoPayload);
    assert_eq!(consumed, buf.len());
}

#[test]
fn parse_reads_body_offset_and_close() {
    let buf =
        b"ICAP/1.0 200 OK\r\nConnection: close\r\nEncapsulated: res-hdr=0, res-body=42\r\n\r\n"
            .to_vec();
    let (rsp, _) = parse_response_head(&buf, 0, 65536).unwrap();
    assert_eq!(rsp.code, 200);
    assert!(!rsp.keep_alive);
    assert_eq!(rsp.payload, ResponsePayload::HeadersWithBody(42));
}

#[test]
fn parse_reads_headers_only_payload() {
    let buf = b"ICAP/1.0 200 OK\r\nEncapsulated: res-hdr=0, null-body=17\r\n\r\n".to_vec();
    let (rsp, _) = parse_response_head(&buf, 0, 65536).unwrap();
    assert_eq!(rsp.payload, ResponsePayload::HeadersOnly(17));
}

#[test]
fn parse_rejects_missing_terminator_and_bad_prefix() {
    let buf = b"ICAP/1.0 200 OK\r\n".to_vec();
    assert!(parse_response_head(&buf, 0, 65536).is_err());
    let buf = b"HTTP/1.1 200 OK\r\n\r\n".to_vec();
    assert!(parse_response_head(&buf, 0, 65536).is_err());
    let buf = b"ICAP/1.0 2x0 OK\r\n\r\n".to_vec();
    assert!(parse_response_head(&buf, 0, 65536).is_err());
}

#[test]
fn decimal_and_hex_renderings_are_exact() {
    let mut v = Vec::new();
    icap_respmod::encode::push_dec(&mut v, 0);
    v.push(b' ');
    icap_respmod::encode::push_dec(&mut v, 10907);
    v.push(b' ');
    icap_respmod::encode::push_hex(&mut v, 0);
    v.push(b' ');
    icap_respmod::encode::push_hex(&mut v, 255);
    v.push(b' ');
    icap_respmod::encode::push_hex(&mut v, 4096);
    assert_eq!(v, b"0 10907 0 ff 1000".to_vec());
}

#[test]
fn chunk_frame_is_exact() {
    let mut v = Vec::new();
    icap_respmod::transfer::push_chunk_frame(&mut v, b"HELLO WORLD");
    assert_eq!(v, b"b\r\nHELLO WORLD\r\n".to_vec());
}

#[test]
fn nonzero_embedded_header_offset_is_rejected() {
    let buf = b"ICAP/1.0 200 OK\r\nEncapsulated: res-hdr=8, res-body=42\r\n\r\n".to_vec();
    assert!(parse_response_head(&buf, 0, 65536).is_err());
}

#[test]
fn payload_tokens_in_the_reason_phrase_are_ignored() {
    // "null-body=" in the reason phrase is not a payload declaration
    let buf = b"ICAP/1.0 200 null-body=0 trick\r\nISTag: \"x\"\r\n\r\n".to_vec();
    let (rsp, _) = parse_response_head(&buf, 0, 65536).unwrap();
    assert_eq!(rsp.reason, b"null-body=0 trick".to_vec());
    assert_eq!(rsp.payload, ResponsePayload::NoPayload);
}
