//! FIFO queues of byte chunks: the write queue drained by the write task,
//! and the inbound queues a channel's readers drain.
use vstd::prelude::*;

verus! {

/// The bytes of `s`, chunk after chunk.
pub open spec fn concat(s: Seq<Vec<u8>>) -> Seq<u8>
    decreases s.len(),
{
    if s.len() == 0 {
        Seq::empty()
    } else {
        s[0]@ + concat(s.drop_first())
    }
}

pub proof fn lemma_concat_append(a: Seq<Vec<u8>>, b: Seq<Vec<u8>>)
    ensures
        concat(a + b) == concat(a) + concat(b),
    decreases a.len(),
{
    if a.len() == 0 {
        assert(a + b =~= b);
    } else {
        assert((a + b).drop_first() =~= a.drop_first() + b);
        lemma_concat_append(a.drop_first(), b);
        assert(concat(a + b) =~= concat(a) + concat(b));
    }
}

pub proof fn lemma_concat_push(a: Seq<Vec<u8>>, x: Vec<u8>)
    ensures
        concat(a.push(x)) == concat(a) + x@,
{
    assert(a.push(x) =~= a + seq![x]);
    lemma_concat_append(a, seq![x]);
    assert(seq![x].drop_first() =~= Seq::<Vec<u8>>::empty());
    assert(concat(seq![x].drop_first()) == Seq::<u8>::empty());
    assert(concat(seq![x]) =~= x@ + Seq::<u8>::empty());
}

/// Chunks in, chunks out in the same order. Several writers append; one
/// reader takes everything at once. Once the reader is gone, writes are
/// dropped.
pub struct MpscBytesChannel {
    buffer: Vec<Vec<u8>>,
    is_eof: bool,
    reader_dropped: bool,
    /// Every chunk accepted so far, in order.
    history: Ghost<Seq<Vec<u8>>>,
    /// Every chunk handed to the reader so far, in order.
    delivered: Ghost<Seq<Vec<u8>>>,
}

impl MpscBytesChannel {
    pub closed spec fn chunks(&self) -> Seq<Vec<u8>> {
        self.buffer@
    }

    pub closed spec fn eof(&self) -> bool {
        self.is_eof
    }

    pub closed spec fn reader_gone(&self) -> bool {
        self.reader_dropped
    }

    pub closed spec fn history(&self) -> Seq<Vec<u8>> {
        self.history@
    }

    pub closed spec fn delivered(&self) -> Seq<Vec<u8>> {
        self.delivered@
    }

    /// The reader gets exactly what the writers put in, in that order.
    pub closed spec fn wf(&self) -> bool {
        !self.reader_dropped ==> self.delivered@ + self.buffer@ == self.history@
    }

    pub fn new() -> (r: MpscBytesChannel)
        ensures
            r.wf(),
            r.chunks() == Seq::<Vec<u8>>::empty(),
            !r.eof(),
            !r.reader_gone(),
            r.history() == Seq::<Vec<u8>>::empty(),
            r.delivered() == Seq::<Vec<u8>>::empty(),
    {
        MpscBytesChannel {
            buffer: Vec::new(),
            is_eof: false,
            reader_dropped: false,
            history: Ghost(Seq::empty()),
            delivered: Ghost(Seq::empty()),
        }
    }

    pub fn is_eof(&self) -> (r: bool)
        ensures
            r == self.eof(),
    {
        self.is_eof
    }

    pub fn is_reader_dropped(&self) -> (r: bool)
        ensures
            r == self.reader_gone(),
    {
        self.reader_dropped
    }

    /// Appends one chunk, unless the reader is gone.
    pub fn push_bytes(&mut self, data: Vec<u8>)
        requires
            old(self).wf(),
        ensures
            final(self).wf(),
            final(self).eof() == old(self).eof(),
            final(self).reader_gone() == old(self).reader_gone(),
            final(self).delivered() == old(self).delivered(),
            old(self).reader_gone() ==> *final(self) == *old(self),
            !old(self).reader_gone() ==> final(self).chunks() == old(self).chunks().push(data)
                && final(self).history() == old(self).history().push(data),
    {
        if self.reader_dropped {
            return;
        }
        proof {
            self.history@ = self.history@.push(data);
        }
        self.buffer.push(data);
        assert(self.delivered@ + self.buffer@ =~= self.history@);
    }

    /// Appends chunks in order, under one critical section, unless the
    /// reader is gone.
    pub fn add_more_data(&mut self, data: Vec<Vec<u8>>)
        requires
            old(self).wf(),
        ensures
            final(self).wf(),
            final(self).eof() == old(self).eof(),
            final(self).reader_gone() == old(self).reader_gone(),
            final(self).delivered() == old(self).delivered(),
            old(self).reader_gone() ==> final(self).chunks() == old(self).chunks()
                && final(self).history() == old(self).history(),
            !old(self).reader_gone() ==> final(self).chunks() == old(self).chunks() + data@
                && final(self).history() == old(self).history() + data@,
    {
        if self.reader_dropped {
            return;
        }
        let mut data = data;
        let ghost d = data@;
        proof {
            self.history@ = self.history@ + d;
        }
        self.buffer.append(&mut data);
        assert(self.delivered@ + self.buffer@ =~= self.history@);
    }

    /// Marks the end of the stream, unless the reader is gone.
    pub fn mark_eof(&mut self)
        requires
            old(self).wf(),
        ensures
            final(self).wf(),
            final(self).eof() == (old(self).eof() || !old(self).reader_gone()),
            final(self).reader_gone() == old(self).reader_gone(),
            final(self).chunks() == old(self).chunks(),
            final(self).history() == old(self).history(),
            final(self).delivered() == old(self).delivered(),
    {
        if self.reader_dropped {
            return;
        }
        self.is_eof = true;
    }

    /// The reader leaves: what is buffered is dropped, and so is every
    /// later write.
    pub fn drop_reader(&mut self)
        requires
            old(self).wf(),
        ensures
            final(self).wf(),
            final(self).reader_gone(),
            final(self).chunks() == Seq::<Vec<u8>>::empty(),
            final(self).eof() == old(self).eof(),
            final(self).history() == old(self).history(),
            final(self).delivered() == old(self).delivered(),
    {
        self.buffer = Vec::new();
        self.reader_dropped = true;
    }

    /// Takes every buffered chunk, oldest first. `None` means the reader
    /// must wait: nothing is buffered and the stream has not ended. An
    /// empty result means the stream ended.
    pub fn poll_for_data(&mut self) -> (r: Option<Vec<Vec<u8>>>)
        requires
            old(self).wf(),
            !old(self).reader_gone(),
        ensures
            final(self).wf(),
            final(self).eof() == old(self).eof(),
            final(self).reader_gone() == old(self).reader_gone(),
            final(self).history() == old(self).history(),
            match r {
                Some(v) => {
                    &&& (old(self).chunks().len() > 0 || old(self).eof())
                    &&& v@ == old(self).chunks()
                    &&& final(self).chunks() == Seq::<Vec<u8>>::empty()
                    &&& final(self).delivered() == old(self).delivered() + v@
                },
                None => old(self).chunks().len() == 0 && !old(self).eof() && final(self).chunks()
                    == old(self).chunks() && final(self).delivered() == old(self).delivered(),
            },
    {
        if self.buffer.len() > 0 {
            let taken = self.buffer.split_off(0);
            proof {
                self.delivered@ = self.delivered@ + taken@;
            }
            assert(self.delivered@ + self.buffer@ =~= self.history@);
            return Some(taken);
        }
        if self.is_eof {
            return Some(Vec::new());
        }
        None
    }
}

/// What a reader of a queue receives is a prefix of what its writers
/// put in, in the order they put it in: chunks delivered plus chunks
/// still buffered are exactly the chunks written.
pub proof fn lemma_queue_fifo(q: &MpscBytesChannel)
    requires
        q.wf(),
        !q.reader_gone(),
    ensures
        q.delivered() + q.chunks() == q.history(),
        q.delivered().len() <= q.history().len(),
        forall|i: int| 0 <= i < q.delivered().len() ==> q.delivered()[i] == q.history()[i],
{
    assert forall|i: int| 0 <= i < q.delivered().len() implies q.delivered()[i]
        == q.history()[i] by {
        assert((q.delivered() + q.chunks())[i] == q.delivered()[i]);
    }
}

} // verus!
