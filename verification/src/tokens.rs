//! The literal byte tokens of the wire protocol, each once as a
//! specification sequence and once as an executable value.

use vstd::prelude::*;

verus! {

/// The line terminator. (`"\r\n"`)
pub open spec fn tok_crlf() -> Seq<u8> {
    seq![13u8, 10u8]
}

/// The bytes of `tok_crlf`.
pub fn crlf_bytes() -> (v: Vec<u8>)
    ensures
        v@ == tok_crlf(),
{
    let mut v: Vec<u8> = Vec::new();
    v.push(13);
    v.push(10);
    proof {
        assert(v@ =~= tok_crlf());
    }
    v
}

/// The blank line that ends a reply head. (`"\r\n\r\n"`)
pub open spec fn tok_head_end() -> Seq<u8> {
    seq![13u8, 10u8, 13u8, 10u8]
}

/// The bytes of `tok_head_end`.
pub fn head_end_bytes() -> (v: Vec<u8>)
    ensures
        v@ == tok_head_end(),
{
    let mut v: Vec<u8> = Vec::new();
    v.push(13);
    v.push(10);
    v.push(13);
    v.push(10);
    proof {
        assert(v@ =~= tok_head_end());
    }
    v
}

/// The status-line prefix every reply head opens with. (`"ICAP/1.0 "`)
pub open spec fn tok_status_prefix() -> Seq<u8> {
    seq![73u8, 67u8, 65u8, 80u8, 47u8, 49u8, 46u8, 48u8, 32u8]
}

/// The bytes of `tok_status_prefix`.
pub fn status_prefix_bytes() -> (v: Vec<u8>)
    ensures
        v@ == tok_status_prefix(),
{
    let mut v: Vec<u8> = Vec::new();
    v.push(73);
    v.push(67);
    v.push(65);
    v.push(80);
    v.push(47);
    v.push(49);
    v.push(46);
    v.push(48);
    v.push(32);
    proof {
        assert(v@ =~= tok_status_prefix());
    }
    v
}

/// The header that withdraws connection reuse. (`"Connection: close"`)
pub open spec fn tok_conn_close() -> Seq<u8> {
    seq![67u8, 111u8, 110u8, 110u8, 101u8, 99u8, 116u8, 105u8, 111u8, 110u8, 58u8, 32u8, 99u8, 108u8, 111u8, 115u8, 101u8]
}

/// The bytes of `tok_conn_close`.
pub fn conn_close_bytes() -> (v: Vec<u8>)
    ensures
        v@ == tok_conn_close(),
{
    let mut v: Vec<u8> = Vec::new();
    v.push(67);
    v.push(111);
    v.push(110);
    v.push(110);
    v.push(101);
    v.push(99);
    v.push(116);
    v.push(105);
    v.push(111);
    v.push(110);
    v.push(58);
    v.push(32);
    v.push(99);
    v.push(108);
    v.push(111);
    v.push(115);
    v.push(101);
    proof {
        assert(v@ =~= tok_conn_close());
    }
    v
}

/// The payload token declaring an embedded body section. (`"res-body="`)
pub open spec fn tok_res_body() -> Seq<u8> {
    seq![114u8, 101u8, 115u8, 45u8, 98u8, 111u8, 100u8, 121u8, 61u8]
}

/// The bytes of `tok_res_body`.
pub fn res_body_bytes() -> (v: Vec<u8>)
    ensures
        v@ == tok_res_body(),
{
    let mut v: Vec<u8> = Vec::new();
    v.push(114);
    v.push(101);
    v.push(115);
    v.push(45);
    v.push(98);
    v.push(111);
    v.push(100);
    v.push(121);
    v.push(61);
    proof {
        assert(v@ =~= tok_res_body());
    }
    v
}

/// The payload token declaring that no body section follows. (`"null-body="`)
pub open spec fn tok_null_body() -> Seq<u8> {
    seq![110u8, 117u8, 108u8, 108u8, 45u8, 98u8, 111u8, 100u8, 121u8, 61u8]
}

/// The bytes of `tok_null_body`.
pub fn null_body_bytes() -> (v: Vec<u8>)
    ensures
        v@ == tok_null_body(),
{
    let mut v: Vec<u8> = Vec::new();
    v.push(110);
    v.push(117);
    v.push(108);
    v.push(108);
    v.push(45);
    v.push(98);
    v.push(111);
    v.push(100);
    v.push(121);
    v.push(61);
    proof {
        assert(v@ =~= tok_null_body());
    }
    v
}

/// The payload token declaring an embedded header section. (`"res-hdr="`)
pub open spec fn tok_res_hdr() -> Seq<u8> {
    seq![114u8, 101u8, 115u8, 45u8, 104u8, 100u8, 114u8, 61u8]
}

/// The bytes of `tok_res_hdr`.
pub fn res_hdr_bytes() -> (v: Vec<u8>)
    ensures
        v@ == tok_res_hdr(),
{
    let mut v: Vec<u8> = Vec::new();
    v.push(114);
    v.push(101);
    v.push(115);
    v.push(45);
    v.push(104);
    v.push(100);
    v.push(114);
    v.push(61);
    proof {
        assert(v@ =~= tok_res_hdr());
    }
    v
}

/// Opening of the request's byte-offset table. (`"Encapsulated: req-hdr=0, res-hdr="`)
pub open spec fn tok_enc_prefix() -> Seq<u8> {
    seq![69u8, 110u8, 99u8, 97u8, 112u8, 115u8, 117u8, 108u8, 97u8, 116u8, 101u8, 100u8, 58u8, 32u8, 114u8, 101u8, 113u8, 45u8, 104u8, 100u8, 114u8, 61u8, 48u8, 44u8, 32u8, 114u8, 101u8, 115u8, 45u8, 104u8, 100u8, 114u8, 61u8]
}

/// The bytes of `tok_enc_prefix`.
pub fn enc_prefix_bytes() -> (v: Vec<u8>)
    ensures
        v@ == tok_enc_prefix(),
{
    let mut v: Vec<u8> = Vec::new();
    v.push(69);
    v.push(110);
    v.push(99);
    v.push(97);
    v.push(112);
    v.push(115);
    v.push(117);
    v.push(108);
    v.push(97);
    v.push(116);
    v.push(101);
    v.push(100);
    v.push(58);
    v.push(32);
    v.push(114);
    v.push(101);
    v.push(113);
    v.push(45);
    v.push(104);
    v.push(100);
    v.push(114);
    v.push(61);
    v.push(48);
    v.push(44);
    v.push(32);
    v.push(114);
    v.push(101);
    v.push(115);
    v.push(45);
    v.push(104);
    v.push(100);
    v.push(114);
    v.push(61);
    proof {
        assert(v@ =~= tok_enc_prefix());
    }
    v
}

/// Separator before the body offset in the offset table. (`", res-body="`)
pub open spec fn tok_enc_mid() -> Seq<u8> {
    seq![44u8, 32u8, 114u8, 101u8, 115u8, 45u8, 98u8, 111u8, 100u8, 121u8, 61u8]
}

/// The bytes of `tok_enc_mid`.
pub fn enc_mid_bytes() -> (v: Vec<u8>)
    ensures
        v@ == tok_enc_mid(),
{
    let mut v: Vec<u8> = Vec::new();
    v.push(44);
    v.push(32);
    v.push(114);
    v.push(101);
    v.push(115);
    v.push(45);
    v.push(98);
    v.push(111);
    v.push(100);
    v.push(121);
    v.push(61);
    proof {
        assert(v@ =~= tok_enc_mid());
    }
    v
}

/// Start of the declared-preview-size header. (`"\r\nPreview: "`)
pub open spec fn tok_preview_hdr() -> Seq<u8> {
    seq![13u8, 10u8, 80u8, 114u8, 101u8, 118u8, 105u8, 101u8, 119u8, 58u8, 32u8]
}

/// The bytes of `tok_preview_hdr`.
pub fn preview_hdr_bytes() -> (v: Vec<u8>)
    ensures
        v@ == tok_preview_hdr(),
{
    let mut v: Vec<u8> = Vec::new();
    v.push(13);
    v.push(10);
    v.push(80);
    v.push(114);
    v.push(101);
    v.push(118);
    v.push(105);
    v.push(101);
    v.push(119);
    v.push(58);
    v.push(32);
    proof {
        assert(v@ =~= tok_preview_hdr());
    }
    v
}

/// The zero-length chunk that ends a chunked stream. (`"0\r\n\r\n"`)
pub open spec fn tok_last_chunk() -> Seq<u8> {
    seq![48u8, 13u8, 10u8, 13u8, 10u8]
}

/// The bytes of `tok_last_chunk`.
pub fn last_chunk_bytes() -> (v: Vec<u8>)
    ensures
        v@ == tok_last_chunk(),
{
    let mut v: Vec<u8> = Vec::new();
    v.push(48);
    v.push(13);
    v.push(10);
    v.push(13);
    v.push(10);
    proof {
        assert(v@ =~= tok_last_chunk());
    }
    v
}

} // verus!
