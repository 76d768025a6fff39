//! Preview negotiation: read a bounded initial window of the upstream body
//! and decide which transfer path the attempt takes.

use vstd::prelude::*;
use vstd::slice::slice_subrange;

use crate::body::BodySource;
use crate::encode::push_all;

verus! {

/// Which fast path the negotiated preview selects.
#[derive(Clone, Copy, Debug, PartialEq, Eq, Structural)]
pub enum PreviewPath {
    /// The whole body fit inside the window: one plain request carries it.
    SmallBody,
    /// The window is zero bytes wide and body data remains: skip preview
    /// framing entirely.
    NoPreview,
    /// A bounded preview, followed on demand by the remaining body.
    Preview,
}

/// The path selected for a negotiation that ended with flag `end` and
/// `size` collected preview bytes. `end` wins when both triggers hold.
pub open spec fn spec_select_path(end: bool, size: nat) -> PreviewPath {
    if end {
        PreviewPath::SmallBody
    } else if size == 0 {
        PreviewPath::NoPreview
    } else {
        PreviewPath::Preview
    }
}

/// Up to `max_size` body bytes read ahead of the adaptation request, plus
/// bytes read past the window that the wire encoder has not yet consumed.
pub struct PreviewData {
    max_size: usize,
    data: Vec<u8>,
    left: Option<Vec<u8>>,
    end_of_data: bool,
}

impl PreviewData {
    /// The maximum preview size this negotiation was given.
    pub closed spec fn spec_max(&self) -> nat {
        self.max_size as nat
    }

    /// The collected preview bytes.
    pub closed spec fn spec_data(&self) -> Seq<u8> {
        self.data@
    }

    /// Bytes read past the window, not yet consumed by the encoder.
    pub closed spec fn spec_left(&self) -> Seq<u8> {
        match self.left {
            Some(l) => l@,
            None => Seq::empty(),
        }
    }

    /// Whether the body ended inside the window.
    pub closed spec fn spec_end(&self) -> bool {
        self.end_of_data
    }

    /// A negotiation that has not read anything yet.
    pub closed spec fn fresh(&self) -> bool {
        &&& self.data@.len() == 0
        &&& self.left is None
        &&& !self.end_of_data
    }

    /// Start a negotiation bounded by `max_preview_size`.
    pub fn new(max_preview_size: usize) -> (p: Self)
        ensures
            p.fresh(),
            p.spec_max() == max_preview_size,
    {
        PreviewData { max_size: max_preview_size, data: Vec::new(), left: None, end_of_data: false }
    }

    /// Whether the body ended inside the window.
    pub fn end_of_data(&self) -> (r: bool)
        ensures
            r == self.spec_end(),
    {
        self.end_of_data
    }

    /// How many preview bytes were collected.
    pub fn preview_size(&self) -> (r: usize)
        ensures
            r == self.spec_data().len(),
    {
        self.data.len()
    }

    /// Borrow the collected preview bytes.
    pub fn data(&self) -> (r: &Vec<u8>)
        ensures
            r@ == self.spec_data(),
    {
        &self.data
    }

    /// Hand out the bytes read past the window, at most once.
    pub fn take_left(&mut self) -> (r: Option<Vec<u8>>)
        ensures
            final(self).spec_left().len() == 0,
            final(self).spec_data() == old(self).spec_data(),
            final(self).spec_max() == old(self).spec_max(),
            final(self).spec_end() == old(self).spec_end(),
            match r {
                Some(l) => l@ == old(self).spec_left() && l@.len() > 0,
                None => old(self).spec_left().len() == 0,
            },
    {
        match self.left.take() {
            Some(l) => {
                if l.len() > 0 {
                    Some(l)
                } else {
                    None
                }
            },
            None => None,
        }
    }

    /// Read the initial window: until it fills, the body ends, or a frame
    /// overshoots it (the overshoot is kept aside as leftover). Reading
    /// advances the body exactly past the bytes taken, never rewinding.
    pub fn recv_initial(&mut self, body: &mut BodySource)
        requires
            old(self).fresh(),
            old(body).wf(),
        ensures
            final(body).wf(),
            final(self).spec_max() == old(self).spec_max(),
            final(self).spec_data() + final(self).spec_left() + final(body).remaining()
                == old(body).remaining(),
            final(self).spec_data().len() <= old(self).spec_max(),
            final(self).spec_end() <==> (final(self).spec_left().len() == 0
                && final(body).remaining().len() == 0),
            !final(self).spec_end() ==> final(self).spec_data().len() == old(self).spec_max(),
            old(body).remaining().len() <= old(self).spec_max() ==> final(self).spec_end()
                && final(self).spec_data() == old(body).remaining(),
            old(self).spec_max() == 0 && old(body).remaining().len() > 0
                ==> !final(self).spec_end() && final(self).spec_data().len() == 0,
            old(self).spec_max() == 0 ==> final(self).spec_left().len() == 0 && final(body).remaining() == old(body).remaining(),
    {
        let mut done = false;
        while !done && self.data.len() < self.max_size
            invariant
                body.wf(),
                self.max_size == old(self).max_size,
                !self.end_of_data,
                self.data@.len() <= self.max_size,
                !done ==> self.left is None,
                self.data@ + self.spec_left() + body.remaining() == old(body).remaining(),
                done ==> (self.left is None && body.remaining().len() == 0)
                    || (self.spec_left().len() > 0 && self.data@.len() == self.max_size),
                self.max_size == 0 ==> self.left is None && body.remaining() == old(body).remaining(),
            decreases body.remaining().len(), (if done { 0int } else { 1int }),
        {
            match body.poll_frame() {
                None => {
                    done = true;
                },
                Some(f) => {
                    let room: usize = self.max_size - self.data.len();
                    if f.len() <= room {
                        push_all(&mut self.data, f.as_slice());
                    } else {
                        let ghost fv = f@;
                        push_all(&mut self.data, slice_subrange(f.as_slice(), 0, room));
                        let mut rest: Vec<u8> = Vec::new();
                        push_all(&mut rest, slice_subrange(f.as_slice(), room, f.len()));
                        self.left = Some(rest);
                        done = true;
                        proof {
                            assert(fv =~= fv.subrange(0, room as int)
                                + fv.subrange(room as int, fv.len() as int));
                        }
                    }
                },
            }
        }
        self.end_of_data = self.left.is_none() && body.is_finished();
    }
}

/// Select the fast path the negotiation result calls for.
pub fn select_path(p: &PreviewData) -> (r: PreviewPath)
    ensures
        r == spec_select_path(p.spec_end(), p.spec_data().len()),
{
    if p.end_of_data() {
        PreviewPath::SmallBody
    } else if p.preview_size() == 0 {
        PreviewPath::NoPreview
    } else {
        PreviewPath::Preview
    }
}

/// A body no longer than the preview window always ends inside it, so the
/// small-body path is taken and the preview holds the whole body.
pub proof fn lemma_small_body_path(p: PreviewData, orig: Seq<u8>, rem: Seq<u8>)
    requires
        p.spec_data() + p.spec_left() + rem == orig,
        p.spec_data().len() <= p.spec_max(),
        p.spec_end() <==> (p.spec_left().len() == 0 && rem.len() == 0),
        !p.spec_end() ==> p.spec_data().len() == p.spec_max(),
        orig.len() <= p.spec_max(),
    ensures
        p.spec_end(),
        spec_select_path(p.spec_end(), p.spec_data().len()) == PreviewPath::SmallBody,
        p.spec_data() == orig,
{
    assert(p.spec_data() =~= orig);
}

/// A zero preview window over a non-empty body always takes the no-preview
/// path.
pub proof fn lemma_no_preview_path(p: PreviewData, orig: Seq<u8>, rem: Seq<u8>)
    requires
        p.spec_data() + p.spec_left() + rem == orig,
        p.spec_data().len() <= p.spec_max(),
        p.spec_end() <==> (p.spec_left().len() == 0 && rem.len() == 0),
        p.spec_max() == 0,
        orig.len() > 0,
    ensures
        !p.spec_end(),
        spec_select_path(p.spec_end(), p.spec_data().len()) == PreviewPath::NoPreview,
{
}

/// Preview negotiation consumes the stream once: what a second negotiation
/// reads starts exactly where the first stopped, never re-reading a byte.
/// `d1`/`l1` are the first negotiation's preview and leftover and `r1` what
/// it left in the stream; `d2`/`l2`/`r2` the same for a second negotiation
/// run on that rest.
pub proof fn lemma_negotiation_single_consumption(
    orig: Seq<u8>,
    d1: Seq<u8>,
    l1: Seq<u8>,
    r1: Seq<u8>,
    d2: Seq<u8>,
    l2: Seq<u8>,
    r2: Seq<u8>,
)
    requires
        d1 + l1 + r1 == orig,
        d2 + l2 + r2 == r1,
    ensures
        orig == d1 + l1 + d2 + l2 + r2,
        d2 == orig.subrange(
            d1.len() + l1.len() as int,
            d1.len() + l1.len() + d2.len() as int,
        ),
{
    assert(orig =~= d1 + l1 + d2 + l2 + r2);
    assert(d2 =~= orig.subrange(
        d1.len() + l1.len() as int,
        d1.len() + l1.len() + d2.len() as int,
    ));
}

} // verus!
