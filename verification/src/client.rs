//! The client-facing write surface: response headers first, then body
//! bytes, strictly in arrival order.

use vstd::prelude::*;

use crate::encode::push_all;

verus! {

/// What has been sent toward the client so far.
pub struct ClientSink {
    /// The response header block, once sent.
    pub header: Option<Vec<u8>>,
    /// Body bytes sent so far, in order.
    pub body: Vec<u8>,
    /// Whether the body was closed.
    pub ended: bool,
}

impl ClientSink {
    /// The header bytes as a mathematical value.
    pub open spec fn spec_header(&self) -> Option<Seq<u8>> {
        match self.header {
            Some(h) => Some(h@),
            None => None,
        }
    }

    /// Headers precede body bytes, and nothing follows the close.
    pub open spec fn wf(&self) -> bool {
        &&& (self.header is None ==> self.body@.len() == 0 && !self.ended)
    }

    /// A sink that has received nothing.
    pub fn new() -> (s: Self)
        ensures
            s.wf(),
            s.header is None,
            s.body@.len() == 0,
            !s.ended,
    {
        ClientSink { header: None, body: Vec::new(), ended: false }
    }

    /// Send the response header block, exactly once.
    pub fn send_header(&mut self, hdr: &[u8])
        requires
            old(self).wf(),
            old(self).header is None,
        ensures
            final(self).wf(),
            final(self).spec_header() == Some(hdr@),
            final(self).body@ == old(self).body@,
            final(self).ended == old(self).ended,
    {
        let mut h: Vec<u8> = Vec::new();
        push_all(&mut h, hdr);
        self.header = Some(h);
    }

    /// Send body bytes, after the header and before the close.
    pub fn send_body(&mut self, data: &[u8])
        requires
            old(self).wf(),
            old(self).header is Some,
            !old(self).ended,
        ensures
            final(self).wf(),
            final(self).spec_header() == old(self).spec_header(),
            final(self).body@ == old(self).body@ + data@,
            !final(self).ended,
    {
        push_all(&mut self.body, data);
    }

    /// Close the body, exactly once.
    pub fn end_body(&mut self)
        requires
            old(self).wf(),
            old(self).header is Some,
            !old(self).ended,
        ensures
            final(self).wf(),
            final(self).spec_header() == old(self).spec_header(),
            final(self).body@ == old(self).body@,
            final(self).ended,
    {
        self.ended = true;
    }
}

} // verus!
