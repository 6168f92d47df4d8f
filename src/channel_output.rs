//! The read half of a channel: chunks the read task queued for it, read
//! in the order they arrived.
use vstd::prelude::*;

use crate::bytes_queue::{concat, lemma_concat_append, MpscBytesChannel};

verus! {

pub struct ChannelOutput {
    /// Chunks taken from the queue and not read yet, oldest first.
    fifo: Vec<Vec<u8>>,
    is_eof: bool,
    /// Every byte taken from the queue.
    received: Ghost<Seq<u8>>,
    /// Every byte handed to the user.
    consumed: Ghost<Seq<u8>>,
}

impl ChannelOutput {
    pub closed spec fn buffered(&self) -> Seq<u8> {
        concat(self.fifo@)
    }

    /// Some chunk is buffered (it may be empty).
    pub closed spec fn has_chunks(&self) -> bool {
        self.fifo@.len() > 0
    }

    pub closed spec fn eof(&self) -> bool {
        self.is_eof
    }

    pub closed spec fn received(&self) -> Seq<u8> {
        self.received@
    }

    pub closed spec fn consumed(&self) -> Seq<u8> {
        self.consumed@
    }

    /// The user reads exactly what was received, in order.
    pub closed spec fn wf(&self) -> bool {
        &&& self.received@ == self.consumed@ + concat(self.fifo@)
        &&& self.is_eof ==> self.fifo@.len() == 0
    }

    pub fn new() -> (r: ChannelOutput)
        ensures
            r.wf(),
            !r.eof(),
            r.buffered() == Seq::<u8>::empty(),
            r.received() == Seq::<u8>::empty(),
            r.consumed() == Seq::<u8>::empty(),
    {
        ChannelOutput {
            fifo: Vec::new(),
            is_eof: false,
            received: Ghost(Seq::empty()),
            consumed: Ghost(Seq::empty()),
        }
    }

    /// Whether the stream has ended and everything was read.
    pub fn is_terminated(&self) -> (r: bool)
        ensures
            r == self.eof(),
    {
        self.is_eof
    }

    /// Makes sure chunks are at hand, taking them from `channel` when none
    /// are buffered. `false` means the reader must wait.
    pub fn poll_for_data(&mut self, channel: &mut MpscBytesChannel) -> (r: bool)
        requires
            old(self).wf(),
            old(channel).wf(),
            !old(channel).reader_gone(),
        ensures
            final(self).wf(),
            final(channel).wf(),
            !final(channel).reader_gone(),
            final(channel).history() == old(channel).history(),
            concat(final(channel).delivered()) == concat(old(channel).delivered()) + (final(self).received().skip(old(self).received().len() as int)),
            final(self).received().len() >= old(self).received().len(),
            final(self).received().take(old(self).received().len() as int) == old(self).received(),
            final(self).consumed() == old(self).consumed(),
            r ==> final(self).eof() || final(self).has_chunks(),
            final(self).eof() == (old(self).eof() || (!old(self).has_chunks() && old(channel).chunks().len() == 0
                && old(channel).eof())),
            !old(self).has_chunks() && !old(self).eof() ==> final(self).received() == old(self).received()
                + concat(old(channel).chunks()) && final(self).buffered() == concat(old(channel).chunks()),
            old(self).has_chunks() || old(self).eof() ==> *final(channel) == *old(channel),
            r == (old(self).has_chunks() || old(self).eof() || old(channel).chunks().len() > 0 || old(channel).eof()),
            old(self).buffered().len() > 0 || old(self).eof() ==> r && *final(self) == *old(self),
    {
        if !self.is_eof && self.fifo.len() == 0 {
            let ghost d = channel.delivered();
            match channel.poll_for_data() {
                None => {
                    assert(self.received@.skip(self.received@.len() as int) =~= Seq::<u8>::empty());
                    assert(concat(d) =~= concat(d) + Seq::<u8>::empty());
                    assert(self.received@.take(self.received@.len() as int) =~= self.received@);
                    return false;
                },
                Some(v) => {
                    let ghost got = v@;
                    proof {
                        lemma_concat_append(d, got);
                        let old_recv = self.received@;
                        self.received@ = self.received@ + concat(got);
                        assert(self.received@.skip(old_recv.len() as int) =~= concat(got));
                        assert(self.received@.take(old_recv.len() as int) =~= old_recv);
                    }
                    self.is_eof = v.len() == 0;
                    self.fifo = v;
                    assert(self.received@ =~= self.consumed@ + concat(self.fifo@));
                    return true;
                },
            }
        }
        assert(self.received@.skip(self.received@.len() as int) =~= Seq::<u8>::empty());
        assert(concat(channel.delivered()) =~= concat(channel.delivered()) + Seq::<u8>::empty());
        assert(self.received@.take(self.received@.len() as int) =~= self.received@);
        true
    }

    /// The next chunk, if one is buffered (check [`Self::poll_for_data`]
    /// first); `None` when the buffer is empty.
    pub fn next_bytes(&mut self) -> (r: Option<Vec<u8>>)
        requires
            old(self).wf(),
        ensures
            final(self).wf(),
            final(self).received() == old(self).received(),
            final(self).eof() == old(self).eof(),
            match r {
                Some(c) => final(self).consumed() == old(self).consumed() + c@ && old(self).buffered() == c@ + final(self).buffered(),
                None => *final(self) == *old(self),
            },
    {
        if self.fifo.len() == 0 {
            return None;
        }
        let ghost before = self.fifo@;
        let c = self.fifo.remove(0);
        assert(self.fifo@ =~= before.drop_first());
        proof {
            self.consumed@ = self.consumed@ + c@;
        }
        assert(self.received@ =~= self.consumed@ + concat(self.fifo@));
        Some(c)
    }

    /// Copies up to `max` buffered bytes out, oldest first.
    pub fn read_buffered(&mut self, max: usize) -> (r: Vec<u8>)
        requires
            old(self).wf(),
        ensures
            final(self).wf(),
            final(self).received() == old(self).received(),
            final(self).eof() == old(self).eof(),
            r@.len() <= max,
            final(self).consumed() == old(self).consumed() + r@,
            old(self).buffered() == r@ + final(self).buffered(),
            r@.len() == (if max <= old(self).buffered().len() {
                max as int
            } else {
                old(self).buffered().len() as int
            }),
    {
        let mut out: Vec<u8> = Vec::new();
        let ghost start = concat(self.fifo@);
        while out.len() < max && self.fifo.len() > 0
            invariant
                self.wf(),
                self.received() == old(self).received(),
                self.eof() == old(self).eof(),
                out@.len() <= max,
                self.consumed() == old(self).consumed() + out@,
                start == out@ + concat(self.fifo@),
            decreases concat(self.fifo@).len() + self.fifo@.len(),
        {
            let ghost before = self.fifo@;
            let mut head = self.fifo.remove(0);
            assert(self.fifo@ =~= before.drop_first());
            let room = max - out.len();
            if head.len() <= room {
                crate::wire::push_raw(&mut out, head.as_slice());
                proof {
                    self.consumed@ = self.consumed@ + head@;
                }
                assert(start =~= out@ + concat(self.fifo@));
            } else {
                let ghost whole = head@;
                let tail = head.split_off(room);
                crate::wire::push_raw(&mut out, head.as_slice());
                proof {
                    self.consumed@ = self.consumed@ + head@;
                }
                self.fifo.insert(0, tail);
                assert(self.fifo@.drop_first() =~= before.drop_first());
                assert(whole =~= head@ + tail@);
                assert(start =~= out@ + concat(self.fifo@));
            }
            assert(self.received@ =~= self.consumed@ + concat(self.fifo@));
        }
        proof {
            if self.fifo@.len() == 0 {
                assert(concat(self.fifo@) == Seq::<u8>::empty());
            }
        }
        out
    }
}

/// Receipt order: what the user has read, followed by what is buffered,
/// is exactly what the read half received, in order.
pub proof fn lemma_output_fifo(output: &ChannelOutput)
    requires
        output.wf(),
    ensures
        output.consumed() + output.buffered() == output.received(),
        output.consumed() == output.received().take(output.consumed().len() as int),
{
    assert(output.consumed() =~= output.received().take(output.consumed().len() as int));
}

} // verus!
