//! The upstream response body: a stream of data frames that is consumed
//! exactly once, in order.

use vstd::prelude::*;

use crate::encode::push_all;

verus! {

/// All bytes of `frames` from index `i` on, in order.
pub open spec fn concat_from(frames: Seq<Seq<u8>>, i: int) -> Seq<u8>
    decreases frames.len() - i,
{
    if i < 0 || i >= frames.len() {
        Seq::empty()
    } else {
        frames[i] + concat_from(frames, i + 1)
    }
}

/// While frames remain, the stream holds at least one byte (frames are
/// never empty).
pub proof fn lemma_concat_from_nonempty(frames: Seq<Seq<u8>>, i: int)
    requires
        0 <= i < frames.len(),
        frames[i].len() > 0,
    ensures
        concat_from(frames, i).len() > 0,
{
}

/// The upstream body handle. Frames arrive in order and each is handed out
/// at most once: reading advances `next` and never rewinds.
pub struct BodySource {
    frames: Vec<Vec<u8>>,
    next: usize,
}

impl BodySource {
    /// Every frame carries at least one byte, and the cursor is in range.
    pub closed spec fn wf(&self) -> bool {
        &&& self.next <= self.frames@.len()
        &&& forall|i: int| 0 <= i < self.frames@.len() ==> #[trigger] self.frames@[i]@.len() > 0
    }

    /// The bytes not yet handed out.
    pub closed spec fn remaining(&self) -> Seq<u8> {
        concat_from(self.frames.deep_view(), self.next as int)
    }

    /// A body delivered in the given frames.
    pub fn new(frames: Vec<Vec<u8>>) -> (s: Self)
        requires
            forall|i: int| 0 <= i < frames@.len() ==> #[trigger] frames@[i]@.len() > 0,
        ensures
            s.wf(),
            s.remaining() == concat_from(frames.deep_view(), 0),
    {
        BodySource { frames, next: 0 }
    }

    /// A body holding `data` as its single frame (no frame if empty).
    pub fn from_bytes(data: Vec<u8>) -> (s: Self)
        ensures
            s.wf(),
            s.remaining() == data@,
    {
        let mut frames: Vec<Vec<u8>> = Vec::new();
        if data.len() > 0 {
            let ghost d = data@;
            frames.push(data);
            proof {
                assert(frames.deep_view().len() == 1);
                assert(frames.deep_view()[0] =~= d);
                assert(concat_from(frames.deep_view(), 1) =~= Seq::<u8>::empty());
                assert(concat_from(frames.deep_view(), 0) =~= d);
            }
            BodySource { frames, next: 0 }
        } else {
            proof {
                assert(concat_from(frames.deep_view(), 0) =~= Seq::<u8>::empty());
                assert(data@ =~= Seq::<u8>::empty());
            }
            BodySource { frames, next: 0 }
        }
    }

    /// Whether the stream is exhausted.
    pub fn is_finished(&self) -> (r: bool)
        requires
            self.wf(),
        ensures
            r == (self.remaining().len() == 0),
    {
        proof {
            if self.next < self.frames@.len() {
                lemma_concat_from_nonempty(self.frames.deep_view(), self.next as int);
            }
        }
        self.next == self.frames.len()
    }

    /// Hand out the next frame, advancing the cursor past it.
    pub fn poll_frame(&mut self) -> (r: Option<Vec<u8>>)
        requires
            old(self).wf(),
        ensures
            final(self).wf(),
            match r {
                None => {
                    &&& *final(self) == *old(self)
                    &&& old(self).remaining().len() == 0
                },
                Some(f) => {
                    &&& f@.len() > 0
                    &&& f@ + final(self).remaining() == old(self).remaining()
                },
            },
    {
        if self.next == self.frames.len() {
            return None;
        }
        let mut f: Vec<u8> = Vec::new();
        push_all(&mut f, self.frames[self.next].as_slice());
        self.next = self.next + 1;
        proof {
            assert(f@ =~= self.frames.deep_view()[self.next - 1]);
        }
        Some(f)
    }
}

} // verus!
