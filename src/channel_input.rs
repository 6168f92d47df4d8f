//! The write half of a channel: bytes are buffered until the peer's
//! window allows them out, then framed as `CHANNEL_DATA` packets and put
//! on the write queue in the order they were written.
use vstd::prelude::*;

use crate::bytes_queue::{concat, lemma_concat_append, lemma_concat_push, MpscBytesChannel};
use crate::proxy_packet::{channel_eof_frame, data_transfer_header, packet_frame, Request};
use crate::window::AwaitableAtomicU64;

verus! {

/// The largest payload a data packet may carry here, so that its length
/// field fits a `u32`.
pub const MAX_DATA_LEN: u32 = 0xFFFF_FFF5;

/// A `CHANNEL_DATA` packet carrying `payload` on channel `id`.
pub open spec fn data_frame(id: u32, payload: Seq<u8>) -> Seq<u8> {
    packet_frame(
        Request::DataTransfer { recipient_channel: id, data_len: payload.len() as u32 },
        payload.len() as u32,
    ) + payload
}

/// The `CHANNEL_EOF` packet of channel `id`.
pub open spec fn eof_frame(id: u32) -> Seq<u8> {
    packet_frame(Request::ChannelEof { recipient_channel: id }, 0)
}

pub open spec fn min3(a: int, b: int, c: int) -> int {
    if a <= b && a <= c {
        a
    } else if b <= c {
        b
    } else {
        c
    }
}

/// How many bytes one flush sends: as many as the packet size, the window
/// and the buffered bytes all allow.
pub open spec fn flush_size(max_packet_size: u32, window: u64, pending_len: int) -> int {
    min3(
        if max_packet_size <= MAX_DATA_LEN {
            max_packet_size as int
        } else {
            MAX_DATA_LEN as int
        },
        window as int,
        pending_len,
    )
}

/// The payloads of `ps`, one after another.
pub open spec fn flat(ps: Seq<Seq<u8>>) -> Seq<u8>
    decreases ps.len(),
{
    if ps.len() == 0 {
        Seq::empty()
    } else {
        flat(ps.drop_last()) + ps.last()
    }
}

/// The `CHANNEL_DATA` packets of channel `id` carrying the payloads `ps`,
/// in order.
pub open spec fn data_frames(id: u32, ps: Seq<Seq<u8>>) -> Seq<u8>
    decreases ps.len(),
{
    if ps.len() == 0 {
        Seq::empty()
    } else {
        data_frames(id, ps.drop_last()) + data_frame(id, ps.last())
    }
}

pub proof fn lemma_data_frames_push(id: u32, ps: Seq<Seq<u8>>, x: Seq<u8>, k: int)
    requires
        0 <= k <= ps.len(),
    ensures
        flat(ps.push(x)) == flat(ps) + x,
        data_frames(id, ps.push(x)) == data_frames(id, ps) + data_frame(id, x),
        data_frames(id, ps.push(x).skip(k)) == data_frames(id, ps.skip(k)) + data_frame(id, x),
        ps.push(x).take(k) == ps.take(k),
{
    assert(ps.push(x).drop_last() =~= ps);
    assert(ps.push(x).skip(k) =~= ps.skip(k).push(x));
    assert(ps.skip(k).push(x).drop_last() =~= ps.skip(k));
    assert(ps.push(x).take(k) =~= ps.take(k));
}

/// The window at hand after taking a counter that holds `b` with `a` at
/// hand: the whole counter is taken unless the sum overflows a `u64`, in
/// which case it is left for later.
pub open spec fn took(a: u64, b: u64) -> u64 {
    if a + b <= u64::MAX {
        (a + b) as u64
    } else {
        a
    }
}

/// What the counter holds after that.
pub open spec fn counter_left(a: u64, b: u64) -> u64 {
    if a + b <= u64::MAX {
        0
    } else {
        b
    }
}

/// A write sends a packet at once when window is at hand and the pending
/// bytes fill a packet or the window.
pub open spec fn flush_due(max_packet_size: u32, window: u64, pending_len: int) -> bool {
    window > 0 && pending_len >= (if (max_packet_size as u64) < window {
        max_packet_size as int
    } else {
        window as int
    })
}

/// How many bytes a write of `bytes` sends at once, given the window at
/// hand after taking the new grants.
pub open spec fn sent_on_write(max_packet_size: u32, window: u64, pending_len: int) -> int {
    if flush_due(max_packet_size, window, pending_len) {
        flush_size(max_packet_size, window, pending_len)
    } else {
        0
    }
}

/// The parts of a write half and its queue that sending leaves alone.
pub open spec fn send_frame(a: ChannelInput, b: ChannelInput, qa: MpscBytesChannel, qb: MpscBytesChannel) -> bool {
    &&& b.channel_id() == a.channel_id()
    &&& b.max_packet_size() == a.max_packet_size()
    &&& qb.reader_gone() == qa.reader_gone()
    &&& qb.delivered() == qa.delivered()
    &&& qb.eof() == qa.eof()
    &&& qa.reader_gone() ==> qb.history() == qa.history() && qb.chunks() == qa.chunks()
}

/// What writing `bytes` does, when the channel's counter held `counter`:
/// the bytes are buffered, the whole counter is taken, and one data packet
/// of [`sent_on_write`] bytes goes on the queue when that is not 0.
pub open spec fn start_send_effect(
    a: ChannelInput,
    b: ChannelInput,
    bytes: Seq<u8>,
    counter: u64,
    qa: MpscBytesChannel,
    qb: MpscBytesChannel,
) -> bool {
    &&& send_frame(a, b, qa, qb)
    &&& !b.eof_sent()
    &&& b.submitted() == a.submitted() + bytes
    &&& if bytes.len() == 0 {
        &&& b.emitted() == a.emitted()
        &&& b.pending() == a.pending()
        &&& b.window() == a.window()
        &&& b.sent() == a.sent()
        &&& qb.history() == qa.history()
        &&& qb.chunks() == qa.chunks()
    } else {
        let w = took(a.window(), counter);
        let p = a.pending() + bytes;
        let k = sent_on_write(a.max_packet_size(), w, p.len() as int);
        &&& b.emitted() == a.emitted() + p.take(k)
        &&& b.pending() == p.skip(k)
        &&& b.window() == w - k
        &&& if k > 0 {
            &&& b.sent() == a.sent().push(p.take(k))
            &&& !qa.reader_gone() ==> concat(qb.history()) == concat(qa.history()) + data_frame(
                a.channel_id(),
                p.take(k),
            )
        } else {
            &&& b.sent() == a.sent()
            &&& qb.history() == qa.history()
            &&& qb.chunks() == qa.chunks()
        }
    }
}

/// What flushing does: data packets go on the queue, in order, carrying
/// the payloads the write half records as sent since; `r` tells whether
/// nothing is left pending, and otherwise the window at hand is empty.
pub open spec fn flush_effect(a: ChannelInput, b: ChannelInput, qa: MpscBytesChannel, qb: MpscBytesChannel, r: bool) -> bool {
    &&& send_frame(a, b, qa, qb)
    &&& !b.eof_sent()
    &&& b.submitted() == a.submitted()
    &&& b.sent().len() >= a.sent().len()
    &&& b.sent().take(a.sent().len() as int) == a.sent()
    &&& !qa.reader_gone() ==> concat(qb.history()) == concat(qa.history()) + data_frames(
        a.channel_id(),
        b.sent().skip(a.sent().len() as int),
    )
    &&& r ==> b.pending().len() == 0
    &&& !r ==> b.window() == 0
}

/// What dropping the write half does, when the channel's counter held
/// `counter`: with nothing pending the EOF goes out; otherwise the counter
/// is taken, one data packet of [`flush_size`] bytes goes out if that is
/// not 0, and the EOF follows exactly when that packet took everything.
pub open spec fn close_effect(
    a: ChannelInput,
    b: ChannelInput,
    counter: u64,
    qa: MpscBytesChannel,
    qb: MpscBytesChannel,
    r: bool,
) -> bool {
    let id = a.channel_id();
    &&& send_frame(a, b, qa, qb)
    &&& b.submitted() == a.submitted()
    &&& r == b.eof_sent()
    &&& if a.pending().len() == 0 {
        &&& r
        &&& b.sent() == a.sent()
        &&& b.emitted() == a.emitted()
        &&& b.window() == a.window()
        &&& !qa.reader_gone() ==> concat(qb.history()) == concat(qa.history()) + eof_frame(id)
    } else {
        let w = took(a.window(), counter);
        let p = a.pending();
        let k = flush_size(a.max_packet_size(), w, p.len() as int);
        &&& r == (k == p.len())
        &&& b.window() == w - k
        &&& b.emitted() == a.emitted() + p.take(k)
        &&& b.pending() == p.skip(k)
        &&& b.sent() == (if k > 0 {
            a.sent().push(p.take(k))
        } else {
            a.sent()
        })
        &&& !qa.reader_gone() ==> concat(qb.history()) == concat(qa.history()) + (if k > 0 {
            data_frame(id, p.take(k))
        } else {
            Seq::<u8>::empty()
        }) + (if r {
            eof_frame(id)
        } else {
            Seq::<u8>::empty()
        })
    }
}

pub struct ChannelInput {
    channel_id: u32,
    max_packet_size: u32,
    /// Window taken from the channel's counter and not used yet.
    curr_sender_win: u64,
    /// Bytes not sent yet, oldest chunk first.
    pending_bytes: Vec<Vec<u8>>,
    pending_len: usize,
    eof_sent: bool,
    /// Every byte of window taken from the counter.
    granted: Ghost<nat>,
    /// Every byte the user wrote.
    submitted: Ghost<Seq<u8>>,
    /// Every byte sent in a data packet.
    emitted: Ghost<Seq<u8>>,
    /// The payload of every data packet sent, in order.
    sent: Ghost<Seq<Seq<u8>>>,
}

impl ChannelInput {
    pub closed spec fn channel_id(&self) -> u32 {
        self.channel_id
    }

    pub closed spec fn max_packet_size(&self) -> u32 {
        self.max_packet_size
    }

    pub closed spec fn window(&self) -> u64 {
        self.curr_sender_win
    }

    pub closed spec fn pending(&self) -> Seq<u8> {
        concat(self.pending_bytes@)
    }

    pub closed spec fn eof_sent(&self) -> bool {
        self.eof_sent
    }

    pub closed spec fn granted(&self) -> nat {
        self.granted@
    }

    pub closed spec fn submitted(&self) -> Seq<u8> {
        self.submitted@
    }

    pub closed spec fn emitted(&self) -> Seq<u8> {
        self.emitted@
    }

    pub closed spec fn sent(&self) -> Seq<Seq<u8>> {
        self.sent@
    }

    /// Bytes leave in the order they were written, and never beyond the
    /// window taken.
    pub closed spec fn wf(&self) -> bool {
        &&& self.max_packet_size > 0
        &&& self.pending_len == concat(self.pending_bytes@).len()
        &&& self.submitted@ == self.emitted@ + concat(self.pending_bytes@)
        &&& self.emitted@.len() + self.curr_sender_win == self.granted@
        &&& flat(self.sent@) == self.emitted@
        &&& forall|i: int|
            0 <= i < self.sent@.len() ==> 0 < #[trigger] self.sent@[i].len() <= self.max_packet_size
    }

    /// What the write half has sent are packets of at most the peer's size,
    /// whose payloads together are the bytes sent.
    pub proof fn lemma_sent_packets(&self)
        requires
            self.wf(),
        ensures
            flat(self.sent()) == self.emitted(),
            forall|i: int| 0 <= i < self.sent().len() ==> 0 < #[trigger] self.sent()[i].len() <= self.max_packet_size(),
    {
    }

    /// The write half of channel `channel_id`, whose peer takes packets of
    /// at most `max_packet_size` bytes.
    pub fn new(channel_id: u32, max_packet_size: u32) -> (r: ChannelInput)
        requires
            max_packet_size > 0,
        ensures
            r.wf(),
            r.channel_id() == channel_id,
            r.max_packet_size() == max_packet_size,
            r.window() == 0,
            r.pending() == Seq::<u8>::empty(),
            !r.eof_sent(),
            r.granted() == 0,
            r.submitted() == Seq::<u8>::empty(),
            r.emitted() == Seq::<u8>::empty(),
            r.sent() == Seq::<Seq<u8>>::empty(),
    {
        ChannelInput {
            channel_id,
            max_packet_size,
            curr_sender_win: 0,
            pending_bytes: Vec::new(),
            pending_len: 0,
            eof_sent: false,
            granted: Ghost(0),
            submitted: Ghost(Seq::empty()),
            emitted: Ghost(Seq::empty()),
            sent: Ghost(Seq::empty()),
        }
    }

    pub fn channel_id_of(&self) -> (r: u32)
        ensures
            r == self.channel_id(),
    {
        self.channel_id
    }

    /// Bytes written and not sent yet.
    pub fn pending_len(&self) -> (r: usize)
        requires
            self.wf(),
        ensures
            r == self.pending().len(),
    {
        self.pending_len
    }

    /// Window at hand.
    pub fn curr_sender_win(&self) -> (r: u64)
        ensures
            r == self.window(),
    {
        self.curr_sender_win
    }

    pub fn is_eof_sent(&self) -> (r: bool)
        ensures
            r == self.eof_sent(),
    {
        self.eof_sent
    }

    /// Buffers `bytes` behind what is pending.
    pub fn add_pending_byte(&mut self, bytes: Vec<u8>)
        requires
            old(self).wf(),
            old(self).pending().len() + bytes@.len() <= usize::MAX,
        ensures
            final(self).wf(),
            final(self).pending() == old(self).pending() + bytes@,
            final(self).submitted() == old(self).submitted() + bytes@,
            final(self).emitted() == old(self).emitted(),
            final(self).sent() == old(self).sent(),
            final(self).window() == old(self).window(),
            final(self).granted() == old(self).granted(),
            final(self).channel_id() == old(self).channel_id(),
            final(self).max_packet_size() == old(self).max_packet_size(),
            final(self).eof_sent() == old(self).eof_sent(),
    {
        let ghost old_chunks = self.pending_bytes@;
        self.pending_len = self.pending_len + bytes.len();
        proof {
            self.submitted@ = self.submitted@ + bytes@;
            lemma_concat_push(old_chunks, bytes);
        }
        self.pending_bytes.push(bytes);
        assert(self.submitted@ =~= self.emitted@ + concat(self.pending_bytes@));
    }

    /// Takes whatever window the peer granted since the last time.
    pub fn update_curr_sender_win_size(&mut self, window: &mut AwaitableAtomicU64)
        requires
            old(self).wf(),
            old(window).wf(),
        ensures
            final(self).wf(),
            final(window).wf(),
            final(window).value() == counter_left(old(self).window(), old(window).value()),
            final(window).granted() == old(window).granted(),
            final(window).taken() - old(window).taken() == final(self).granted() - old(self).granted(),
            final(self).window() == took(old(self).window(), old(window).value()),
            final(self).pending() == old(self).pending(),
            final(self).submitted() == old(self).submitted(),
            final(self).emitted() == old(self).emitted(),
            final(self).sent() == old(self).sent(),
            final(self).channel_id() == old(self).channel_id(),
            final(self).max_packet_size() == old(self).max_packet_size(),
            final(self).eof_sent() == old(self).eof_sent(),
    {
        if window.peek() <= u64::MAX - self.curr_sender_win {
            let v = window.get();
            self.curr_sender_win = self.curr_sender_win + v;
            proof {
                self.granted@ = self.granted@ + v as nat;
            }
        }
    }

    /// Sends one data packet of [`flush_size`] bytes, taken from the front
    /// of what is pending, if that size is not 0.
    #[verifier::rlimit(100)]
    pub fn try_flush(&mut self, queue: &mut MpscBytesChannel)
        requires
            old(self).wf(),
            !old(self).eof_sent(),
            old(queue).wf(),
        ensures
            final(self).wf(),
            final(queue).wf(),
            ({
                let n = flush_size(
                    old(self).max_packet_size(),
                    old(self).window(),
                    old(self).pending().len() as int,
                );
                &&& final(self).emitted() == old(self).emitted() + old(self).pending().take(n)
                &&& final(self).pending() == old(self).pending().skip(n)
                &&& final(self).window() == old(self).window() - n
                &&& n > 0 ==> final(self).sent() == old(self).sent().push(old(self).pending().take(n))
                &&& n == 0 ==> final(self).sent() == old(self).sent()
                &&& n == 0 ==> final(queue).history() == old(queue).history() && final(queue).chunks() == old(queue).chunks()
                &&& n > 0 && !old(queue).reader_gone() ==> concat(final(queue).history())
                    == concat(old(queue).history()) + data_frame(
                    old(self).channel_id(),
                    old(self).pending().take(n),
                ) && concat(final(queue).chunks()) == concat(old(queue).chunks()) + data_frame(
                    old(self).channel_id(),
                    old(self).pending().take(n),
                )
            }),
            final(queue).eof() == old(queue).eof(),
            final(queue).reader_gone() == old(queue).reader_gone(),
            final(queue).delivered() == old(queue).delivered(),
            old(queue).reader_gone() ==> final(queue).chunks() == old(queue).chunks()
                && final(queue).history() == old(queue).history(),
            final(self).submitted() == old(self).submitted(),
            final(self).granted() == old(self).granted(),
            final(self).channel_id() == old(self).channel_id(),
            final(self).max_packet_size() == old(self).max_packet_size(),
            !final(self).eof_sent(),
    {
        let cap: u32 = if self.max_packet_size <= MAX_DATA_LEN {
            self.max_packet_size
        } else {
            MAX_DATA_LEN
        };
        let mut n: usize = cap as usize;
        if self.curr_sender_win < n as u64 {
            n = self.curr_sender_win as usize;
        }
        if self.pending_len < n {
            n = self.pending_len;
        }
        let ghost pend = concat(self.pending_bytes@);
        assert(n == flush_size(self.max_packet_size, self.curr_sender_win, pend.len() as int));
        if n == 0 {
            assert(pend.take(0) =~= Seq::<u8>::empty());
            assert(pend.skip(0) =~= pend);
            assert(self.emitted@ + pend.take(0) =~= self.emitted@);
            return;
        }
        let header = data_transfer_header(self.channel_id, n as u32);
        let mut rest: Vec<Vec<u8>> = self.pending_bytes.split_off(0);
        let ghost orig = rest@;
        assert(orig == old(self).pending_bytes@);
        let mut out: Vec<Vec<u8>> = Vec::new();
        out.push(header);
        let mut budget: usize = n;
        assert(out@.drop_first() =~= Seq::<Vec<u8>>::empty());
        assert(concat(Seq::<Vec<u8>>::empty()) == Seq::<u8>::empty());
        assert(concat(out@.drop_first()) + concat(rest@) =~= concat(orig));
        while rest.len() > 0 && rest[0].len() <= budget
            invariant
                concat(out@.drop_first()) + concat(rest@) == concat(orig),
                concat(out@.drop_first()).len() + budget == n,
                budget <= concat(rest@).len(),
                out@.len() >= 1,
                out@[0] == header,
            decreases rest@.len(),
        {
            let ghost before_rest = rest@;
            let ghost before_out = out@;
            let c = rest.remove(0);
            assert(rest@ =~= before_rest.drop_first());
            budget = budget - c.len();
            out.push(c);
            proof {
                assert(out@.drop_first() =~= before_out.drop_first().push(c));
                lemma_concat_push(before_out.drop_first(), c);
                assert(concat(before_rest) == c@ + concat(rest@));
                assert(concat(out@.drop_first()) + concat(rest@) =~= concat(before_out.drop_first())
                    + concat(before_rest));
            }
        }
        if budget > 0 {
            let ghost before_rest = rest@;
            let ghost before_out = out@;
            assert(rest@.len() > 0) by {
                if rest@.len() == 0 {
                    assert(concat(rest@) == Seq::<u8>::empty());
                }
            }
            let mut first = rest.remove(0);
            assert(rest@ =~= before_rest.drop_first());
            let ghost whole = first@;
            let tail = first.split_off(budget);
            assert(whole =~= first@ + tail@);
            out.push(first);
            rest.insert(0, tail);
            proof {
                assert(rest@.drop_first() =~= before_rest.drop_first());
                assert(concat(rest@) == tail@ + concat(before_rest.drop_first()));
                assert(concat(before_rest) == whole + concat(before_rest.drop_first()));
                assert(out@.drop_first() =~= before_out.drop_first().push(first));
                lemma_concat_push(before_out.drop_first(), first);
                assert(concat(out@.drop_first()) + concat(rest@) =~= concat(before_out.drop_first())
                    + concat(before_rest));
            }
            budget = 0;
        }
        let ghost payload = concat(out@.drop_first());
        assert(payload.len() == n);
        assert(payload =~= pend.take(n as int)) by {
            assert(pend == payload + concat(rest@));
        }
        assert(concat(rest@) =~= pend.skip(n as int)) by {
            assert(pend == payload + concat(rest@));
        }
        proof {
            assert(out@ =~= seq![header] + out@.drop_first());
            lemma_concat_append(seq![header], out@.drop_first());
            assert(seq![header].drop_first() =~= Seq::<Vec<u8>>::empty());
            assert(concat(seq![header]) =~= header@ + Seq::<u8>::empty());
            lemma_data_frames_push(self.channel_id, self.sent@, payload, 0);
            let ghost old_sent = self.sent@;
            self.emitted@ = self.emitted@ + payload;
            self.sent@ = self.sent@.push(payload);
            assert(0 < payload.len() <= self.max_packet_size);
            assert forall|i: int| 0 <= i < self.sent@.len() implies 0 < #[trigger] self.sent@[i].len()
                <= self.max_packet_size by {
                if i < old_sent.len() {
                    assert(self.sent@[i] == old_sent[i]);
                }
            }
        }
        self.pending_bytes = rest;
        self.pending_len = self.pending_len - n;
        self.curr_sender_win = self.curr_sender_win - n as u64;
        let ghost q_hist = queue.history();
        let ghost q_chunks = queue.chunks();
        let ghost sent = out@;
        queue.add_more_data(out);
        proof {
            assert(self.submitted@ =~= self.emitted@ + concat(self.pending_bytes@));
            if !queue.reader_gone() {
                lemma_concat_append(q_hist, sent);
                lemma_concat_append(q_chunks, sent);
                assert(concat(sent) =~= data_frame(self.channel_id, payload));
            }
        }
    }

    /// Waits for window: `false` when none is at hand and the peer has
    /// granted none, in which case the caller waits for a grant.
    pub fn poll_ready(&mut self, window: &mut AwaitableAtomicU64) -> (r: bool)
        requires
            old(self).wf(),
            old(window).wf(),
        ensures
            final(self).wf(),
            final(window).wf(),
            r == (old(self).window() != 0 || old(window).value() != 0),
            r ==> final(self).window() != 0,
            old(self).window() == 0 ==> final(self).window() == old(window).value()
                && final(window).value() == 0 && final(window).taken() == old(window).taken()
                + old(window).value() && final(self).granted() == old(self).granted() + old(window).value(),
            old(self).window() != 0 ==> final(self).window() == old(self).window() && *final(window) == *old(window) && final(self).granted() == old(self).granted(),
            final(window).granted() == old(window).granted(),
            final(self).pending() == old(self).pending(),
            final(self).submitted() == old(self).submitted(),
            final(self).emitted() == old(self).emitted(),
            final(self).sent() == old(self).sent(),
            final(self).channel_id() == old(self).channel_id(),
            final(self).max_packet_size() == old(self).max_packet_size(),
            final(self).eof_sent() == old(self).eof_sent(),
    {
        if self.curr_sender_win == 0 {
            match window.get_non_zero() {
                Some(v) => {
                    self.curr_sender_win = v;
                    proof {
                        self.granted@ = self.granted@ + v as nat;
                    }
                },
                None => {
                    return false;
                },
            }
        }
        true
    }

    /// Buffers `bytes` (nothing happens for none), takes new window, and
    /// sends a packet when the window at hand is not empty and the pending
    /// bytes fill a packet or the window.
    pub fn start_send(
        &mut self,
        bytes: Vec<u8>,
        window: &mut AwaitableAtomicU64,
        queue: &mut MpscBytesChannel,
    )
        requires
            old(self).wf(),
            old(window).wf(),
            old(queue).wf(),
            !old(self).eof_sent(),
            old(self).pending().len() + bytes@.len() <= usize::MAX,
        ensures
            final(self).wf(),
            final(window).wf(),
            final(queue).wf(),
            start_send_effect(*old(self), *final(self), bytes@, old(window).value(), *old(queue), *final(queue)),
            final(window).granted() == old(window).granted(),
            final(window).taken() - old(window).taken() == final(self).granted() - old(self).granted(),
            bytes@.len() > 0 ==> final(window).value() == counter_left(old(self).window(), old(window).value()),
            bytes@.len() == 0 ==> *final(window) == *old(window),
    {
        if bytes.len() > 0 {
            self.add_pending_byte(bytes);
            self.update_curr_sender_win_size(window);
            let cap: u64 = if (self.max_packet_size as u64) < self.curr_sender_win {
                self.max_packet_size as u64
            } else {
                self.curr_sender_win
            };
            if self.curr_sender_win > 0 && self.pending_len as u64 >= cap {
                self.try_flush(queue);
            } else {
                let ghost p = self.pending();
                assert(p.take(0) =~= Seq::<u8>::empty());
                assert(p.skip(0) =~= p);
                assert(self.emitted@ + p.take(0) =~= self.emitted@);
            }
        }
    }

    /// Sends everything pending. `false` when it ran out of window: the
    /// caller waits for a grant and calls again.
    pub fn poll_flush(&mut self, window: &mut AwaitableAtomicU64, queue: &mut MpscBytesChannel) -> (r:
        bool)
        requires
            old(self).wf(),
            old(window).wf(),
            old(queue).wf(),
            !old(self).eof_sent(),
        ensures
            final(self).wf(),
            final(window).wf(),
            final(queue).wf(),
            flush_effect(*old(self), *final(self), *old(queue), *final(queue), r),
            !r ==> final(window).value() == 0,
            final(window).granted() == old(window).granted(),
            final(window).taken() - old(window).taken() == final(self).granted() - old(self).granted(),
    {
        let ghost sent0 = self.sent();
        let ghost hist0 = queue.history();
        while self.pending_len > 0
            invariant
                self.wf(),
                self.sent().len() >= sent0.len(),
                self.sent().take(sent0.len() as int) == sent0,
                !queue.reader_gone() ==> concat(queue.history()) == concat(hist0) + data_frames(
                    self.channel_id(),
                    self.sent().skip(sent0.len() as int),
                ),
                queue.reader_gone() ==> queue.history() == hist0 && queue.chunks() == old(queue).chunks(),
                sent0 == old(self).sent(),
                hist0 == old(queue).history(),
                window.wf(),
                queue.wf(),
                !self.eof_sent(),
                self.submitted() == old(self).submitted(),
                window.granted() == old(window).granted(),
                window.taken() - old(window).taken() == self.granted() - old(self).granted(),
                queue.reader_gone() == old(queue).reader_gone(),
                queue.delivered() == old(queue).delivered(),
                queue.eof() == old(queue).eof(),
                self.channel_id() == old(self).channel_id(),
                self.max_packet_size() == old(self).max_packet_size(),
            decreases self.pending_len,
        {
            if self.curr_sender_win == 0 {
                if !self.poll_ready(window) {
                    return false;
                }
            } else {
                self.update_curr_sender_win_size(window);
            }
            let ghost s_before = self.sent();
            let ghost h_before = queue.history();
            self.try_flush(queue);
            proof {
                if self.sent() != s_before {
                    let x = self.sent().last();
                    assert(self.sent() == s_before.push(x));
                    lemma_data_frames_push(self.channel_id(), s_before, x, sent0.len() as int);
                    assert(s_before.push(x).take(sent0.len() as int) == s_before.take(sent0.len() as int));
                }
            }
        }
        assert(self.sent().skip(sent0.len() as int) =~= self.sent().skip(sent0.len() as int));
        true
    }

    /// Puts the `CHANNEL_EOF` packet on the queue; it is sent once.
    pub fn send_eof_packet(&mut self, queue: &mut MpscBytesChannel)
        requires
            old(self).wf(),
            !old(self).eof_sent(),
            old(queue).wf(),
        ensures
            final(self).wf(),
            final(self).eof_sent(),
            final(queue).wf(),
            !old(queue).reader_gone() ==> concat(final(queue).history()) == concat(
                old(queue).history(),
            ) + eof_frame(old(self).channel_id()),
            old(queue).reader_gone() ==> final(queue).history() == old(queue).history()
                && final(queue).chunks() == old(queue).chunks(),
            final(queue).reader_gone() == old(queue).reader_gone(),
            final(queue).delivered() == old(queue).delivered(),
            final(queue).eof() == old(queue).eof(),
            final(self).pending() == old(self).pending(),
            final(self).submitted() == old(self).submitted(),
            final(self).emitted() == old(self).emitted(),
            final(self).sent() == old(self).sent(),
            final(self).window() == old(self).window(),
            final(self).granted() == old(self).granted(),
            final(self).channel_id() == old(self).channel_id(),
            final(self).max_packet_size() == old(self).max_packet_size(),
    {
        let frame = channel_eof_frame(self.channel_id);
        let ghost h = queue.history();
        queue.push_bytes(frame);
        proof {
            if !queue.reader_gone() {
                lemma_concat_push(h, frame);
            }
        }
        self.eof_sent = true;
    }

    /// What dropping the write half does. With nothing pending, or once a
    /// last packet has sent everything, the EOF goes out and `true` comes
    /// back. Otherwise `false`: bytes are still pending for want of
    /// window, and a background task must finish them with
    /// [`Self::poll_flush`], then send the EOF.
    pub fn close_on_drop(&mut self, window: &mut AwaitableAtomicU64, queue: &mut MpscBytesChannel) -> (r:
        bool)
        requires
            old(self).wf(),
            old(window).wf(),
            old(queue).wf(),
            !old(self).eof_sent(),
        ensures
            final(self).wf(),
            final(window).wf(),
            final(queue).wf(),
            close_effect(*old(self), *final(self), old(window).value(), *old(queue), *final(queue), r),
            r == (final(self).pending().len() == 0),
            final(window).granted() == old(window).granted(),
            final(window).taken() - old(window).taken() == final(self).granted() - old(self).granted(),
            old(self).pending().len() > 0 ==> final(window).value() == counter_left(old(self).window(), old(window).value()),
    {
        if self.pending_len == 0 {
            self.send_eof_packet(queue);
            return true;
        }
        self.update_curr_sender_win_size(window);
        let ghost h0 = queue.history();
        let ghost p = self.pending();
        let ghost w = self.window();
        self.try_flush(queue);
        let ghost h1 = queue.history();
        if self.pending_len == 0 {
            self.send_eof_packet(queue);
            proof {
                if !queue.reader_gone() {
                    let k = p.len() as int;
                    assert(concat(queue.history()) == concat(h1) + eof_frame(self.channel_id()));
                    assert(concat(queue.history()) =~= concat(h0) + (if k > 0 {
                        data_frame(self.channel_id(), p.take(k))
                    } else {
                        Seq::<u8>::empty()
                    }) + eof_frame(self.channel_id()));
                }
            }
            true
        } else {
            proof {
                if !queue.reader_gone() {
                    let k = flush_size(self.max_packet_size(), w, p.len() as int);
                    assert(concat(queue.history()) =~= concat(h0) + (if k > 0 {
                        data_frame(self.channel_id(), p.take(k))
                    } else {
                        Seq::<u8>::empty()
                    }) + Seq::<u8>::empty());
                }
            }
            false
        }
    }
}

/// Window non-negativity: the bytes a channel's write half has sent never
/// exceed the window the peer granted, when the write half is the only
/// taker of that channel's window. In fact no window is lost: sent bytes,
/// the window at hand and what the counter still holds add up to the
/// grants.
pub proof fn lemma_window_respected(input: &ChannelInput, window: &AwaitableAtomicU64)
    requires
        input.wf(),
        window.wf(),
        input.granted() == window.taken(),
    ensures
        input.emitted().len() <= window.granted(),
        input.emitted().len() + input.window() + window.value() == window.granted(),
{
    window.lemma_taken_within_granted();
}

/// Per-channel FIFO: what the write half has sent, followed by what it
/// still holds, is exactly what was written to it, in order; so what was
/// sent is a prefix of what was written.
pub proof fn lemma_input_fifo(input: &ChannelInput)
    requires
        input.wf(),
    ensures
        input.emitted() + input.pending() == input.submitted(),
        input.emitted() == input.submitted().take(input.emitted().len() as int),
{
    assert(input.emitted() =~= input.submitted().take(input.emitted().len() as int));
}

/// At most one EOF, and nothing after it: when dropping the write half
/// sends its EOF, the EOF is the last packet put on the queue, and from
/// then on every sending function of the write half (each requires that
/// no EOF was sent) can no longer be called.
pub proof fn lemma_eof_last(
    a: ChannelInput,
    b: ChannelInput,
    counter: u64,
    qa: MpscBytesChannel,
    qb: MpscBytesChannel,
)
    requires
        close_effect(a, b, counter, qa, qb, true),
        !qa.reader_gone(),
    ensures
        b.eof_sent(),
        concat(qb.history()).len() >= eof_frame(a.channel_id()).len(),
        concat(qb.history()).subrange(
            concat(qb.history()).len() - eof_frame(a.channel_id()).len(),
            concat(qb.history()).len() as int,
        ) == eof_frame(a.channel_id()),
{
    let h = concat(qb.history());
    let e = eof_frame(a.channel_id());
    if a.pending().len() == 0 {
        assert(h == concat(qa.history()) + e);
    } else {
        let w = took(a.window(), counter);
        let k = flush_size(a.max_packet_size(), w, a.pending().len() as int);
        let d = if k > 0 {
            data_frame(a.channel_id(), a.pending().take(k))
        } else {
            Seq::<u8>::empty()
        };
        assert(h == concat(qa.history()) + d + e);
    }
    assert(h.subrange(h.len() - e.len(), h.len() as int) =~= e);
}

} // verus!
