//! The proxy client's shared state and the read task's routing of every
//! inbound packet: channel table, per-channel data, the read task's own
//! entries keyed by the peer's channel ids, and the write queue.
use vstd::prelude::*;

use crate::bytes_queue::{concat, lemma_concat_push, MpscBytesChannel};
use crate::channel_input::{close_effect, flush_effect, start_send_effect, ChannelInput};
use crate::channel_output::ChannelOutput;
use crate::channel_state::{ChannelState, OpenChannelRes, ProcessStatus, State};
use crate::pending_requests::{expected_replies, Completion, PendingRequests, PendingState, PendingTracker};
use crate::proxy_error::Error;
use crate::proxy_packet::{
    channel_close_frame, packet_body, packet_frame, request_valid, window_adjust_frame, OpenChannel, Request,
};
use crate::proxy_response::{ChannelRequest, ChannelResponse, ExtendedDataType, Response};
use crate::registry::{ChannelRegistry, REGISTRY_CAPACITY};
use crate::window::{consume_receiver_window, receiver_window_after, AwaitableAtomicU64};

verus! {

/// Everything about one channel that its users and the read task share.
pub struct ChannelData {
    pub state: ChannelState,
    pub pending_requests: PendingRequests,
    /// How many read halves (stdout, stderr) are alive: 0 to 2.
    pub receivers_count: u8,
    pub rx: Option<MpscBytesChannel>,
    pub stderr: Option<MpscBytesChannel>,
    pub sender_window_size: AwaitableAtomicU64,
    /// `CHANNEL_CLOSE` has been sent.
    pub close_sent: bool,
}

impl ChannelData {
    pub open spec fn wf(&self) -> bool {
        &&& self.sender_window_size.wf()
        &&& self.pending_requests.wf()
        &&& (self.rx matches Some(q) ==> q.wf())
        &&& (self.stderr matches Some(q) ==> q.wf())
    }
}

/// The read task's record of an open channel, keyed by the id the peer
/// gave it.
#[derive(Debug, Clone, Copy, PartialEq, Eq)]
pub struct ReadTaskChannelEntry {
    pub sender_channel: u32,
    /// The slot of the channel's data, which is this client's id for it.
    pub slot: u32,
    /// The window this client advertises; refilled when it reaches 0.
    pub receiver_win_size: u32,
    pub extend_window_size: u32,
    pub extend_window_size_packet: [u8; 14],
    pub pending_requests: PendingTracker,
    pub rx_attached: bool,
    pub stderr_attached: bool,
}

pub struct ProxyCore {
    registry: ChannelRegistry<ChannelData>,
    entries: Vec<ReadTaskChannelEntry>,
    write_queue: MpscBytesChannel,
}

/// Some entry of `s` is keyed `key`.
pub open spec fn has_key(s: Seq<ReadTaskChannelEntry>, key: u32) -> bool {
    exists|i: int| 0 <= i < s.len() && s[i].sender_channel == key
}


/// The index of the entry keyed `key` (keys are unique).
pub open spec fn key_index(s: Seq<ReadTaskChannelEntry>, key: u32) -> int {
    choose|i: int| 0 <= i < s.len() && s[i].sender_channel == key
}

/// Bytes counted against the receive window: the length, or `u32::MAX`
/// for a longer chunk.
pub open spec fn window_count(len: nat) -> u32 {
    if len <= u32::MAX {
        len as u32
    } else {
        u32::MAX
    }
}

/// What taking `len` bytes of data for entry `i` does (from `a` to `b`):
/// its receive window shrinks, and a window grant is queued when it ran
/// out while a reader is left.
pub open spec fn data_routed(a: ProxyCore, b: ProxyCore, i: int, d: Vec<u8>, is_rx: bool, r: Result<(), Error>) -> bool {
    let e = a.entries()[i];
    if !a.channels().contains_key(e.slot) {
        &&& r == Err::<(), Error>(Error::InvalidRecipientChannel(e.slot))
        &&& b.channels() == a.channels()
        &&& b.entries() == a.entries()
        &&& b.queue() == a.queue()
    } else {
        let (w, emit) = receiver_window_after(
            e.receiver_win_size,
            window_count(d@.len()),
            a.channels()[e.slot].receivers_count,
            e.extend_window_size,
        );
        &&& r is Ok
        &&& b.entries() == a.entries().update(i, ReadTaskChannelEntry { receiver_win_size: w, ..e })
        &&& b.channels().dom() == a.channels().dom()
        &&& b.queue().reader_gone() == a.queue().reader_gone()
        &&& b.queue().eof() == a.queue().eof()
        &&& emit && !a.queue().reader_gone() ==> concat(b.queue().history()) == concat(a.queue().history())
            + adjust_frame(e.slot, e.extend_window_size)
        &&& !emit ==> b.queue() == a.queue()
        &&& queue_fed(
            a.channels()[e.slot],
            b.channels()[e.slot],
            if is_rx {
                e.rx_attached
            } else {
                e.stderr_attached
            },
            !is_rx,
            d,
        )
    }
}

/// The chosen inbound queue of a channel takes chunk `d` when it is
/// attached and its reader is there; otherwise it is left as it was.
pub open spec fn queue_fed(x: ChannelData, y: ChannelData, attached: bool, is_stderr: bool, d: Vec<u8>) -> bool {
    let qx = chosen_queue(x, is_stderr);
    let qy = chosen_queue(y, is_stderr);
    if attached && qx is Some && !qx->Some_0.reader_gone() {
        &&& qy is Some
        &&& qy->Some_0.history() == qx->Some_0.history().push(d)
        &&& qy->Some_0.chunks() == qx->Some_0.chunks().push(d)
        &&& !qy->Some_0.reader_gone()
        &&& qy->Some_0.eof() == qx->Some_0.eof()
    } else {
        qy == qx
    }
}

/// The attached inbound queues of entry `e`'s channel are marked ended
/// (those whose reader is gone take no mark).
pub open spec fn eof_marked(b: ProxyCore, e: ReadTaskChannelEntry) -> bool {
    &&& e.rx_attached && b.channels()[e.slot].rx is Some && !b.channels()[e.slot].rx->Some_0.reader_gone()
        ==> b.channels()[e.slot].rx->Some_0.eof()
    &&& e.stderr_attached && b.channels()[e.slot].stderr is Some
        && !b.channels()[e.slot].stderr->Some_0.reader_gone() ==> b.channels()[e.slot].stderr->Some_0.eof()
}

/// What a window grant of `n` bytes for the channel at `slot` does.
pub open spec fn grant_routed(a: ProxyCore, b: ProxyCore, slot: u32, c: u32, n: u32, r: Result<(), Error>) -> bool {
    &&& b.entries() == a.entries()
    &&& b.queue() == a.queue()
    &&& b.channels().dom() == a.channels().dom()
    &&& if !a.channels().contains_key(slot) {
        r == Err::<(), Error>(Error::InvalidRecipientChannel(slot))
    } else {
        let v = a.channels()[slot].sender_window_size.value();
        &&& (r is Ok <==> v + n <= u64::MAX)
        &&& r is Ok ==> b.channels()[slot].sender_window_size.value() == v + n
        &&& r is Err ==> r == Err::<(), Error>(Error::WindowOverflow(c))
    }
}

/// What an exit report `status` for the channel at `slot` does: a
/// confirmed channel records it; any other state is an error.
pub open spec fn exit_routed(a: ProxyCore, b: ProxyCore, slot: u32, status: ProcessStatus, r: Result<(), Error>) -> bool {
    &&& b.entries() == a.entries()
    &&& b.queue() == a.queue()
    &&& b.channels().dom() == a.channels().dom()
    &&& if !a.channels().contains_key(slot) {
        r == Err::<(), Error>(Error::InvalidRecipientChannel(slot))
    } else if a.channels()[slot].state@ is OpenChannelRequestConfirmed {
        r is Ok && b.channels()[slot].state@ == crate::channel_state::state_after_exit(status)
    } else {
        r matches Err(Error::UnexpectedChannelState { .. })
    }
}

/// What releasing the last handle of channel `slot` does (from `a` to
/// `b`): `r` tells whether a `CHANNEL_CLOSE` was queued.
pub open spec fn released(a: ProxyCore, b: ProxyCore, slot: u32, r: bool) -> bool {
    &&& b.entries() == a.entries()
    &&& r == (a.channels().contains_key(slot) && !a.channels()[slot].close_sent)
    &&& r && !a.queue().reader_gone() ==> concat(b.queue().history()) == concat(a.queue().history())
        + packet_frame(Request::ChannelClose { recipient_channel: slot }, 0)
    &&& !r ==> b.queue() == a.queue()
    &&& b.queue().reader_gone() == a.queue().reader_gone()
    &&& b.queue().eof() == a.queue().eof()
    &&& b.channels().contains_key(slot) ==> b.channels()[slot].close_sent
    &&& forall|k: u32| k != slot ==> #[trigger] b.channels().contains_key(k) == a.channels().contains_key(k)
}

/// At most one `CHANNEL_CLOSE` per channel: once released, releasing the
/// channel again queues nothing.
pub proof fn lemma_close_at_most_once(a: ProxyCore, b: ProxyCore, c: ProxyCore, slot: u32, r1: bool, r2: bool)
    requires
        released(a, b, slot, r1),
        released(b, c, slot, r2),
    ensures
        !r2,
        c.queue() == b.queue(),
{
}

/// What one poll of the write task does (from `a` to `b`).
pub open spec fn write_polled(a: ProxyCore, b: ProxyCore, r: Option<Vec<Vec<u8>>>) -> bool {
    &&& b.channels() == a.channels()
    &&& b.entries() == a.entries()
    &&& !b.queue().reader_gone()
    &&& b.queue().history() == a.queue().history()
    &&& b.queue().eof() == a.queue().eof()
    &&& match r {
        Some(v) => v@ == a.queue().chunks() && b.queue().chunks() == Seq::<Vec<u8>>::empty()
            && b.queue().delivered() == a.queue().delivered() + v@
            && (v@.len() == 0 ==> a.queue().eof()),
        None => a.queue().chunks().len() == 0 && !a.queue().eof(),
    }
}

/// Graceful shutdown: once the client is shut down, the write task never
/// waits again. Each poll hands over everything queued, and a poll that
/// finds nothing left tells it to end.
pub proof fn lemma_shutdown_drains(a: ProxyCore, b: ProxyCore, r: Option<Vec<Vec<u8>>>)
    requires
        a.queue().eof(),
        write_polled(a, b, r),
    ensures
        r is Some,
        r->Some_0@ == a.queue().chunks(),
        r->Some_0@.len() == 0 <==> a.queue().chunks().len() == 0,
        b.queue().eof(),
{
}

/// What a reply (`success` or failure) to a channel request of entry `i`
/// does: it counts against the batch, and the last reply of the batch
/// tells the owner whether all succeeded.
pub open spec fn reply_routed(a: ProxyCore, b: ProxyCore, i: int, success: bool, r: Result<(), Error>) -> bool {
    let e = a.entries()[i];
    &&& b.queue() == a.queue()
    &&& b.channels().dom() == a.channels().dom()
    &&& if !a.channels().contains_key(e.slot) {
        r == Err::<(), Error>(Error::InvalidRecipientChannel(e.slot)) && b.entries() == a.entries()
    } else {
        let owner = a.channels()[e.slot].pending_requests@;
        let t = e.pending_requests;
        if (t.pending matches Some(n) && (n == 0 || !(owner is Waiting))) {
            r == Err::<(), Error>(Error::UnexpectedRequestResponse)
        } else {
            match expected_replies(t, owner) {
                None => r == Err::<(), Error>(Error::UnexpectedRequestResponse),
                Some(n) => {
                    let failed = (t.pending is Some && t.has_failed) || !success;
                    &&& r is Ok
                    &&& b.entries().len() == a.entries().len()
                    &&& if n == 1 {
                        &&& b.entries()[i].pending_requests.pending is None
                        &&& b.channels()[e.slot].pending_requests@ == PendingState::Done(
                            if failed {
                                Completion::Failed
                            } else {
                                Completion::Success
                            },
                        )
                    } else {
                        &&& b.entries()[i].pending_requests.pending == Some((n - 1) as usize)
                        &&& b.entries()[i].pending_requests.has_failed == failed
                        &&& b.channels()[e.slot].pending_requests@ == owner
                    }
                },
            }
        }
    }
}

/// The window-adjust packet of channel `slot` granting `extend` bytes.
pub open spec fn adjust_frame(slot: u32, extend: u32) -> Seq<u8> {
    packet_frame(Request::ChannelAdjustWindow { recipient_channel: slot, bytes_to_add: extend }, 0)
}

/// A channel's data is well formed, and while its open request is pending
/// it keeps the window-adjust packet of its own slot.
pub open spec fn slot_ok(slot: u32, d: ChannelData) -> bool {
    &&& d.wf()
    &&& d.state@ is OpenChannelRequested ==> d.state@->OpenChannelRequested_0.extend_window_size_packet@
        == adjust_frame(slot, d.state@->OpenChannelRequested_0.extend_window_size)
}

/// The read task's entry keeps the window-adjust packet of its channel's
/// slot and increment.
pub open spec fn entry_ok(e: ReadTaskChannelEntry) -> bool {
    e.extend_window_size_packet@ == adjust_frame(e.slot, e.extend_window_size)
}

/// The read task's new entry for a channel confirmed from data `d`: it
/// starts with the receive window, increment and window-adjust packet
/// given at the open request, the channel's read halves attached, and no
/// request pending.
pub open spec fn confirmed_entry(d: ChannelData, e: ReadTaskChannelEntry) -> bool {
    let inner = d.state@->OpenChannelRequested_0;
    &&& e.receiver_win_size == inner.init_receiver_win_size
    &&& e.extend_window_size == inner.extend_window_size
    &&& e.extend_window_size_packet == inner.extend_window_size_packet
    &&& e.rx_attached == d.rx is Some
    &&& e.stderr_attached == d.stderr is Some
    &&& e.pending_requests.pending is None
}

/// The parts of a channel's data other than its state and send window
/// are unchanged.
pub open spec fn channel_kept(x: ChannelData, y: ChannelData) -> bool {
    &&& y.receivers_count == x.receivers_count
    &&& y.rx == x.rx
    &&& y.stderr == x.stderr
    &&& y.pending_requests@ == x.pending_requests@
    &&& y.close_sent == x.close_sent
}

/// The stdout (or, with `is_stderr`, the stderr) queue of a channel.
pub open spec fn chosen_queue(d: ChannelData, is_stderr: bool) -> Option<MpscBytesChannel> {
    if is_stderr {
        d.stderr
    } else {
        d.rx
    }
}

/// The chosen queue exists and its reader is still there.
pub open spec fn readable(d: ChannelData, is_stderr: bool) -> bool {
    chosen_queue(d, is_stderr) is Some && !chosen_queue(d, is_stderr)->Some_0.reader_gone()
}

/// The chosen queue, if there is one, has lost its reader: it is empty
/// and takes no more writes.
pub open spec fn reader_dropped(d: ChannelData, is_stderr: bool) -> bool {
    chosen_queue(d, is_stderr) is Some ==> chosen_queue(d, is_stderr)->Some_0.reader_gone()
        && chosen_queue(d, is_stderr)->Some_0.chunks().len() == 0
}

/// The packet needs the read task's entry for its channel.
pub open spec fn routed_by_entry(cr: ChannelResponse) -> bool {
    match cr {
        ChannelResponse::OpenConfirmation(_) => false,
        ChannelResponse::OpenFailure(_) => false,
        ChannelResponse::ExtendedData { data_type, .. } => data_type == ExtendedDataType::Stderr,
        ChannelResponse::Request(q) => !(q is Unknown),
        _ => true,
    }
}

/// What routing `resp` does to the core (from `a` to `b`) and returns.
pub open spec fn packet_routed(a: ProxyCore, b: ProxyCore, resp: Response, r: Result<(), Error>) -> bool {
    match resp {
        Response::ChannelResponse { channel_response: cr, recipient_channel: c } => {
            &&& (cr is OpenConfirmation || cr is OpenFailure) && !a.channels().contains_key(c) ==> r
                == Err::<(), Error>(Error::InvalidRecipientChannel(c)) && b.channels() == a.channels()
                && b.entries() == a.entries()
            &&& routed_by_entry(cr) && !has_key(a.entries(), c) ==> r == Err::<(), Error>(
                Error::InvalidSenderChannel(c),
            ) && b.channels() == a.channels() && b.entries() == a.entries() && b.queue() == a.queue()
            &&& match cr {
                ChannelResponse::OpenConfirmation(conf) => (a.channels().contains_key(c)
                    && a.channels()[c].state@ is OpenChannelRequested
                    && a.channels()[c].sender_window_size.value() + conf.init_win_size <= u64::MAX
                    && !has_key(a.entries(), conf.sender_channel) ==> r is Ok) && (r is Ok ==> {
                    &&& a.channels().contains_key(c)
                    &&& a.channels()[c].state@ is OpenChannelRequested
                    &&& b.channels()[c].state@ == (State::OpenChannelRequestConfirmed {
                        max_packet_size: conf.max_packet_size,
                    })
                    &&& b.channels()[c].sender_window_size.value() == a.channels()[c].sender_window_size.value()
                        + conf.init_win_size
                    &&& !has_key(a.entries(), conf.sender_channel)
                    &&& b.entries().len() == a.entries().len() + 1
                    &&& b.entries().drop_last() == a.entries()
                    &&& b.entries().last().sender_channel == conf.sender_channel
                    &&& b.entries().last().slot == c
                    &&& confirmed_entry(a.channels()[c], b.entries().last())
                    &&& channel_kept(a.channels()[c], b.channels()[c])
                    &&& b.channels().dom() == a.channels().dom()
                    &&& b.queue() == a.queue()
                }),
                ChannelResponse::OpenFailure(f) => a.channels().contains_key(c) ==> b.entries() == a.entries()
                    && b.queue() == a.queue() && b.channels().dom() == a.channels().dom()
                    && if a.channels()[c].state@ is OpenChannelRequested {
                    r is Ok && b.channels()[c].state@ == State::OpenChannelRequestFailed(f)
                } else {
                    r matches Err(Error::UnexpectedChannelState { .. })
                },
                ChannelResponse::Close => has_key(a.entries(), c) ==> r is Ok && !has_key(b.entries(), c)
                    && b.entries().len() + 1 == a.entries().len()
                    && (b.channels().contains_key(a.entries()[key_index(a.entries(), c)].slot)
                        ==> eof_marked(b, a.entries()[key_index(a.entries(), c)])),
                ChannelResponse::Eof => has_key(a.entries(), c) ==> r is Ok && b.queue() == a.queue()
                    && b.entries() == a.entries().update(
                    key_index(a.entries(), c),
                    ReadTaskChannelEntry { rx_attached: false, stderr_attached: false, ..a.entries()[key_index(a.entries(), c)] },
                ) && (a.channels().contains_key(a.entries()[key_index(a.entries(), c)].slot)
                    ==> eof_marked(b, a.entries()[key_index(a.entries(), c)])),
                ChannelResponse::RequestSuccess => has_key(a.entries(), c) ==> reply_routed(a, b, key_index(a.entries(), c), true, r),
                ChannelResponse::RequestFailure => has_key(a.entries(), c) ==> reply_routed(a, b, key_index(a.entries(), c), false, r),
                ChannelResponse::Request(q) => match q {
                    ChannelRequest::Unknown => (r matches Err(Error::UnexpectedChannelState { .. }))
                        && b.channels() == a.channels(),
                    ChannelRequest::StatusCode(code) => has_key(a.entries(), c) ==> exit_routed(
                        a,
                        b,
                        a.entries()[key_index(a.entries(), c)].slot,
                        ProcessStatus::ProcessExited(code),
                        r,
                    ),
                    ChannelRequest::KilledBySignal(sig) => has_key(a.entries(), c) ==> exit_routed(
                        a,
                        b,
                        a.entries()[key_index(a.entries(), c)].slot,
                        ProcessStatus::ProcessKilled(sig),
                        r,
                    ),
                },
                ChannelResponse::BytesAdjust { bytes_to_add } => has_key(a.entries(), c) ==> grant_routed(
                    a,
                    b,
                    a.entries()[key_index(a.entries(), c)].slot,
                    c,
                    bytes_to_add,
                    r,
                ),
                ChannelResponse::ExtendedData { data_type, data } => if data_type == ExtendedDataType::Unknown {
                    r is Ok && b.channels() == a.channels() && b.entries() == a.entries() && b.queue() == a.queue()
                } else {
                    has_key(a.entries(), c) ==> data_routed(a, b, key_index(a.entries(), c), data, false, r)
                },
                ChannelResponse::Data(d) => has_key(a.entries(), c) ==> data_routed(
                    a,
                    b,
                    key_index(a.entries(), c),
                    d,
                    true,
                    r,
                ),
                _ => true,
            }
        },
        _ => (r matches Err(Error::UnexpectedChannelState { .. })) && b.channels() == a.channels()
            && b.entries() == a.entries() && b.queue() == a.queue(),
    }
}

/// The window-adjust packet of channel `slot` granting `extend` bytes, as
/// the array kept for the whole life of the channel.
fn window_adjust_template(slot: u32, extend: u32) -> (r: [u8; 14])
    ensures
        r@ == packet_frame(Request::ChannelAdjustWindow { recipient_channel: slot, bytes_to_add: extend }, 0),
{
    let v = window_adjust_frame(slot, extend);
    assert(v@.len() == 14);
    let r: [u8; 14] = [v[0], v[1], v[2], v[3], v[4], v[5], v[6], v[7], v[8], v[9], v[10], v[11], v[12], v[13]];
    assert(r@ =~= v@);
    r
}

fn copy_packet(p: &[u8; 14]) -> (r: Vec<u8>)
    ensures
        r@ == p@,
{
    let mut r: Vec<u8> = Vec::new();
    crate::wire::push_raw(&mut r, p.as_slice());
    r
}

impl ProxyCore {
    pub closed spec fn channels(&self) -> Map<u32, ChannelData> {
        self.registry.view()
    }

    pub closed spec fn entries(&self) -> Seq<ReadTaskChannelEntry> {
        self.entries@
    }

    pub closed spec fn queue(&self) -> MpscBytesChannel {
        self.write_queue
    }

    pub closed spec fn wf(&self) -> bool {
        &&& self.registry.wf()
        &&& self.write_queue.wf()
        &&& forall|k: u32| #[trigger] self.registry.view().contains_key(k) ==> slot_ok(k, self.registry.view()[k])
        &&& forall|i: int, j: int|
            0 <= i < j < self.entries@.len() ==> #[trigger] self.entries@[i].sender_channel
                != #[trigger] self.entries@[j].sender_channel
        &&& forall|i: int| 0 <= i < self.entries@.len() ==> entry_ok(#[trigger] self.entries@[i])
    }

    pub fn new() -> (r: ProxyCore)
        ensures
            r.wf(),
            r.channels() == Map::<u32, ChannelData>::empty(),
            r.entries() == Seq::<ReadTaskChannelEntry>::empty(),
            !r.queue().reader_gone(),
            !r.queue().eof(),
            r.queue().history() == Seq::<Vec<u8>>::empty(),
    {
        ProxyCore {
            registry: ChannelRegistry::new(),
            entries: Vec::new(),
            write_queue: MpscBytesChannel::new(),
        }
    }

    fn find_entry(&self, key: u32) -> (r: Option<usize>)
        ensures
            match r {
                Some(i) => i < self.entries@.len() && self.entries@[i as int].sender_channel == key,
                None => !has_key(self.entries@, key),
            },
    {
        let mut i: usize = 0;
        while i < self.entries.len()
            invariant
                i <= self.entries@.len(),
                forall|j: int| 0 <= j < i ==> self.entries@[j].sender_channel != key,
            decreases self.entries@.len() - i,
        {
            if self.entries[i].sender_channel == key {
                return Some(i);
            }
            i += 1;
        }
        None
    }

    /// With unique keys, the entry found for `key` is the one
    /// [`key_index`] names.
    proof fn lemma_key_index(&self, i: int, key: u32)
        requires
            self.wf(),
            0 <= i < self.entries@.len(),
            self.entries@[i].sender_channel == key,
        ensures
            key_index(self.entries@, key) == i,
    {
        let j = key_index(self.entries@, key);
        assert(0 <= j < self.entries@.len() && self.entries@[j].sender_channel == key);
        if j < i {
            assert(self.entries@[j].sender_channel != self.entries@[i].sender_channel);
        } else if i < j {
            assert(self.entries@[i].sender_channel != self.entries@[j].sender_channel);
        }
    }

    /// Whether some entry of the read task points at `slot`.
    fn slot_in_use(&self, slot: u32) -> (r: bool)
        ensures
            r == exists|i: int| 0 <= i < self.entries@.len() && self.entries@[i].slot == slot,
    {
        let mut i: usize = 0;
        while i < self.entries.len()
            invariant
                i <= self.entries@.len(),
                forall|j: int| 0 <= j < i ==> self.entries@[j].slot != slot,
            decreases self.entries@.len() - i,
        {
            if self.entries[i].slot == slot {
                return true;
            }
            i += 1;
        }
        false
    }

    /// Sends `CHANNEL_OPEN` for a new channel and returns its slot. Its
    /// data starts in `OpenChannelRequested`, with an empty send window
    /// and the read halves asked for.
    pub fn open_channel(
        &mut self,
        channel: OpenChannel,
        init_receiver_win_size: u32,
        max_packet_size: u32,
        extend_window_size: u32,
        with_rx: bool,
        with_stderr: bool,
    ) -> (r: Result<u32, Error>)
        requires
            old(self).wf(),
            request_valid(
                Request::OpenChannel {
                    sender_channel: 0,
                    initial_window_size: init_receiver_win_size,
                    max_packet_size,
                    channel,
                },
            ),
        ensures
            final(self).wf(),
            final(self).entries() == old(self).entries(),
            match r {
                Ok(slot) => {
                    &&& !old(self).channels().contains_key(slot)
                    &&& final(self).channels().contains_key(slot)
                    &&& final(self).channels().remove(slot) == old(self).channels()
                    &&& final(self).channels()[slot].state@ is OpenChannelRequested
                    &&& final(self).channels()[slot].state@->OpenChannelRequested_0.init_receiver_win_size
                        == init_receiver_win_size
                    &&& final(self).channels()[slot].state@->OpenChannelRequested_0.extend_window_size
                        == extend_window_size
                    &&& final(self).channels()[slot].state@->OpenChannelRequested_0.extend_window_size_packet@
                        == packet_frame(Request::ChannelAdjustWindow { recipient_channel: slot, bytes_to_add: extend_window_size }, 0)
                    &&& final(self).channels()[slot].sender_window_size.value() == 0
                    &&& !final(self).channels()[slot].close_sent
                    &&& final(self).channels()[slot].pending_requests@ == crate::pending_requests::PendingState::NotStarted
                    &&& final(self).channels()[slot].rx is Some == with_rx
                    &&& final(self).channels()[slot].stderr is Some == with_stderr
                    &&& final(self).channels()[slot].receivers_count == (if with_rx { 1u8 } else { 0u8 }) + (if with_stderr { 1u8 } else { 0u8 })
                    &&& !old(self).queue().reader_gone() ==> concat(final(self).queue().history())
                        == concat(old(self).queue().history()) + packet_frame(
                        Request::OpenChannel {
                            sender_channel: slot,
                            initial_window_size: init_receiver_win_size,
                            max_packet_size,
                            channel,
                        },
                        0,
                    )
                },
                Err(Error::NoFreeSlot) => final(self).channels() == old(self).channels()
                    && forall|k: u32| (k as int) < REGISTRY_CAPACITY ==> old(self).channels().contains_key(k),
                Err(e) => e == Error::FormatError(crate::wire::FormatError::TooLong) && final(self).channels() == old(self).channels()
                    && packet_body(
                    Request::OpenChannel {
                        sender_channel: 0,
                        initial_window_size: init_receiver_win_size,
                        max_packet_size,
                        channel,
                    },
                ).len() > u32::MAX,
            },
    {
        let data = ChannelData {
            state: ChannelState::new(init_receiver_win_size, [0; 14], extend_window_size),
            pending_requests: PendingRequests::new(),
            receivers_count: (if with_rx { 1u8 } else { 0u8 }) + (if with_stderr { 1u8 } else { 0u8 }),
            rx: if with_rx { Some(MpscBytesChannel::new()) } else { None },
            stderr: if with_stderr { Some(MpscBytesChannel::new()) } else { None },
            sender_window_size: AwaitableAtomicU64::new(),
            close_sent: false,
        };
        let slot = match self.registry.insert(data) {
            Ok(slot) => slot,
            Err(_) => return Err(Error::NoFreeSlot),
        };
        let ghost inserted = self.registry.view();
        let mut data = self.registry.remove(slot).unwrap();
        data.state = ChannelState::new(
            init_receiver_win_size,
            window_adjust_template(slot, extend_window_size),
            extend_window_size,
        );
        self.registry.put_back(slot, data);
        proof {
            assert(self.registry.view().remove(slot) =~= old(self).registry.view());
            assert forall|k: u32| #[trigger] self.registry.view().contains_key(k) implies slot_ok(k, self.registry.view()[k]) by {
                if k != slot {
                    assert(old(self).registry.view().contains_key(k));
                }
            }
        }
        let req = Request::OpenChannel {
            sender_channel: slot,
            initial_window_size: init_receiver_win_size,
            max_packet_size,
            channel,
        };
        let frame = match req.serialize_with_header(0) {
            Ok(f) => f,
            Err(_) => {
                self.registry.remove(slot);
                assert(self.registry.view() =~= old(self).registry.view());
                assert(packet_body(req).len() == packet_body(
                    Request::OpenChannel {
                        sender_channel: 0,
                        initial_window_size: init_receiver_win_size,
                        max_packet_size,
                        channel,
                    },
                ).len());
                return Err(Error::FormatError(crate::wire::FormatError::TooLong));
            },
        };
        let ghost h = self.write_queue.history();
        self.write_queue.push_bytes(frame);
        proof {
            if !self.write_queue.reader_gone() {
                lemma_concat_push(h, frame);
            }
            assert(self.registry.view().remove(slot) =~= old(self).registry.view());
        }
        Ok(slot)
    }

    /// The opener's wait for the answer to its open request: `Ok(None)`
    /// while it is pending, the peer's packet size once confirmed. On a
    /// refusal the slot is freed and the refusal returned.
    pub fn poll_open_result(&mut self, slot: u32) -> (r: Result<Option<u32>, Error>)
        requires
            old(self).wf(),
        ensures
            final(self).wf(),
            final(self).entries() == old(self).entries(),
            !old(self).channels().contains_key(slot) ==> r == Err::<Option<u32>, Error>(
                Error::InvalidRecipientChannel(slot),
            ) && final(self).channels() == old(self).channels(),
            old(self).channels().contains_key(slot) ==> match old(self).channels()[slot].state@ {
                State::OpenChannelRequested(_) => r == Ok::<Option<u32>, Error>(None),
                State::OpenChannelRequestConfirmed { max_packet_size } => r == Ok::<
                    Option<u32>,
                    Error,
                >(Some(max_packet_size)),
                State::OpenChannelRequestFailed(f) => r == Err::<Option<u32>, Error>(
                    Error::ChannelOpenFailure(f),
                ) && !final(self).channels().contains_key(slot) && final(self).channels()
                    == old(self).channels().remove(slot),
                _ => r matches Err(Error::UnexpectedChannelState { .. }),
            },
            old(self).channels().contains_key(slot) && !(old(self).channels()[slot].state@ is OpenChannelRequestFailed)
                ==> final(self).channels().dom() == old(self).channels().dom(),
            final(self).queue() == old(self).queue(),
    {
        let mut data = match self.registry.remove(slot) {
            Some(d) => d,
            None => {
                assert(self.registry.view() =~= old(self).registry.view());
                return Err(Error::InvalidRecipientChannel(slot));
            },
        };
        let ok_phase = match &data.state.state_ref() {
            State::OpenChannelRequested(_) => true,
            State::OpenChannelRequestConfirmed { .. } => true,
            State::OpenChannelRequestFailed(_) => true,
            _ => false,
        };
        if !ok_phase {
            let name = crate::channel_state::state_name(data.state.state_ref());
            self.registry.put_back(slot, data);
            assert(self.registry.view().dom() =~= old(self).registry.view().dom());
            return Err(
                Error::UnexpectedChannelState {
                    expected_state: "OpenChannelRequested",
                    actual_state: name,
                },
            );
        }
        match data.state.poll_confirmation() {
            None => {
                self.registry.put_back(slot, data);
                assert(self.registry.view().dom() =~= old(self).registry.view().dom());
                Ok(None)
            },
            Some(OpenChannelRes::Confirmed { max_packet_size }) => {
                self.registry.put_back(slot, data);
                assert(self.registry.view().dom() =~= old(self).registry.view().dom());
                Ok(Some(max_packet_size))
            },
            Some(OpenChannelRes::Failed(f)) => Err(Error::ChannelOpenFailure(f)),
        }
    }

    /// Data arrived for the entry at `idx`: it goes to the channel's
    /// stdout (`is_rx`) or stderr queue if that is attached, the receive
    /// window shrinks by its length, and a window grant is queued when the
    /// window ran out while a reader is left.
    fn handle_incoming_data(&mut self, idx: usize, bytes: Vec<u8>, is_rx: bool) -> (r: Result<
        (),
        Error,
    >)
        requires
            old(self).wf(),
            idx < old(self).entries().len(),
        ensures
            final(self).wf(),
            data_routed(*old(self), *final(self), idx as int, bytes, is_rx, r),
    {
        let mut e = self.entries[idx];
        let mut data = match self.registry.remove(e.slot) {
            Some(d) => d,
            None => {
                assert(self.registry.view() =~= old(self).registry.view());
                return Err(Error::InvalidRecipientChannel(e.slot));
            },
        };
        let cnt: u32 = if bytes.len() <= 0xFFFF_FFFF {
            bytes.len() as u32
        } else {
            0xFFFF_FFFF
        };
        let receivers = data.receivers_count;
        let attached = if is_rx {
            e.rx_attached
        } else {
            e.stderr_attached
        };
        let ghost d0 = data;
        let ghost bv = bytes;
        if attached {
            if is_rx {
                match &mut data.rx {
                    Some(q) => q.push_bytes(bytes),
                    None => {},
                }
            } else {
                match &mut data.stderr {
                    Some(q) => q.push_bytes(bytes),
                    None => {},
                }
            }
        }
        assert(queue_fed(d0, data, attached, !is_rx, bv));
        let (w, emit) = consume_receiver_window(
            e.receiver_win_size,
            cnt,
            receivers,
            e.extend_window_size,
        );
        e.receiver_win_size = w;
        self.entries.set(idx, e);
        if emit {
            let packet = copy_packet(&e.extend_window_size_packet);
            let ghost h = self.write_queue.history();
            self.write_queue.push_bytes(packet);
            proof {
                if !self.write_queue.reader_gone() {
                    lemma_concat_push(h, packet);
                }
            }
        }
        self.registry.put_back(e.slot, data);
        proof {
            assert(self.registry.view().dom() =~= old(self).registry.view().dom());
            assert forall|k: u32| #[trigger] self.registry.view().contains_key(k) implies slot_ok(k, self.registry.view()[k]) by {
                if k != e.slot {
                    assert(old(self).registry.view().contains_key(k));
                }
            }
            assert forall|i: int, j: int|
                0 <= i < j < self.entries@.len() implies #[trigger] self.entries@[i].sender_channel
                    != #[trigger] self.entries@[j].sender_channel by {
                assert(old(self).entries@[i].sender_channel != old(self).entries@[j].sender_channel);
            }
        }
        Ok(())
    }

    /// Marks the attached inbound queues of entry `e`'s channel as ended.
    fn mark_eof(&mut self, e: ReadTaskChannelEntry)
        requires
            old(self).wf(),
        ensures
            final(self).wf(),
            final(self).channels().dom() == old(self).channels().dom(),
            final(self).entries() == old(self).entries(),
            final(self).queue() == old(self).queue(),
            old(self).channels().contains_key(e.slot) ==> eof_marked(*final(self), e),
    {
        let mut data = match self.registry.remove(e.slot) {
            Some(d) => d,
            None => {
                assert(self.registry.view() =~= old(self).registry.view());
                return;
            },
        };
        if e.rx_attached {
            match &mut data.rx {
                Some(q) => q.mark_eof(),
                None => {},
            }
        }
        if e.stderr_attached {
            match &mut data.stderr {
                Some(q) => q.mark_eof(),
                None => {},
            }
        }
        self.registry.put_back(e.slot, data);
        proof {
            assert(self.registry.view().dom() =~= old(self).registry.view().dom());
            assert forall|k: u32| #[trigger] self.registry.view().contains_key(k) implies slot_ok(k, self.registry.view()[k]) by {
                if k != e.slot {
                    assert(old(self).registry.view().contains_key(k));
                }
            }
        }
    }

    /// Routes one inbound packet; see each arm. An error is a fault of the
    /// peer and ends the connection.
    pub fn handle_packet(&mut self, resp: Response) -> (r: Result<(), Error>)
        requires
            old(self).wf(),
        ensures
            final(self).wf(),
            packet_routed(*old(self), *final(self), resp, r),
    {
        let (channel_response, c) = match resp {
            Response::ChannelResponse { channel_response, recipient_channel } => (channel_response, recipient_channel),
            Response::GlobalRequestFailure => {
                return Err(Error::UnexpectedChannelState { expected_state: "ChannelResponse", actual_state: "GlobalRequestFailure" });
            },
            Response::GlobalRequestSuccess => {
                return Err(Error::UnexpectedChannelState { expected_state: "ChannelResponse", actual_state: "GlobalRequestSuccess" });
            },
            Response::OpenChannelRequest => {
                return Err(Error::UnexpectedChannelState { expected_state: "ChannelResponse", actual_state: "OpenChannelRequest" });
            },
        };
        match channel_response {
            ChannelResponse::OpenConfirmation(conf) => self.on_open_confirmation(c, conf),
            ChannelResponse::OpenFailure(f) => {
                let mut data = match self.registry.remove(c) {
                    Some(d) => d,
                    None => {
                        assert(self.registry.view() =~= old(self).registry.view());
                        return Err(Error::InvalidRecipientChannel(c));
                    },
                };
                let res = data.state.set_channel_open_res(OpenChannelRes::Failed(f));
                self.registry.put_back(c, data);
                proof { self.lemma_put_back_wf(old(self).registry.view(), c); }
                match res {
                    Ok(_) => Ok(()),
                    Err(e) => Err(e),
                }
            },
            ChannelResponse::Close => {
                let i = match self.find_entry(c) {
                    Some(i) => i,
                    None => return Err(Error::InvalidSenderChannel(c)),
                };
                let ghost before = self.entries@;
                let e = self.entries.remove(i);
                proof {
                    assert forall|a: int, b: int|
                        0 <= a < b < self.entries@.len() implies #[trigger] self.entries@[a].sender_channel
                            != #[trigger] self.entries@[b].sender_channel by {
                        let a2 = if a < i { a } else { a + 1 };
                        let b2 = if b < i { b } else { b + 1 };
                        assert(before[a2].sender_channel != before[b2].sender_channel);
                    }
                    assert forall|j: int| 0 <= j < self.entries@.len() implies self.entries@[j].sender_channel != c by {
                        let j2 = if j < i { j } else { j + 1 };
                        if j2 != i {
                            if j2 < i {
                                assert(before[j2].sender_channel != before[i as int].sender_channel);
                            } else {
                                assert(before[i as int].sender_channel != before[j2].sender_channel);
                            }
                        }
                    }
                }
                self.mark_eof(e);
                self.free_if_closed(e.slot);
                Ok(())
            },
            ChannelResponse::BytesAdjust { bytes_to_add } => {
                let i = match self.find_entry(c) {
                    Some(i) => i,
                    None => return Err(Error::InvalidSenderChannel(c)),
                };
                proof {
                    self.lemma_key_index(i as int, c);
                }
                let slot = self.entries[i].slot;
                let mut data = match self.registry.remove(slot) {
                    Some(d) => d,
                    None => {
                        assert(self.registry.view() =~= old(self).registry.view());
                        return Err(Error::InvalidRecipientChannel(slot));
                    },
                };
                let ok = data.sender_window_size.add(bytes_to_add as u64);
                self.registry.put_back(slot, data);
                proof { self.lemma_put_back_wf(old(self).registry.view(), slot); }
                if ok {
                    Ok(())
                } else {
                    Err(Error::WindowOverflow(c))
                }
            },
            ChannelResponse::Data(bytes) => {
                let i = match self.find_entry(c) {
                    Some(i) => i,
                    None => return Err(Error::InvalidSenderChannel(c)),
                };
                proof {
                    self.lemma_key_index(i as int, c);
                }
                self.handle_incoming_data(i, bytes, true)
            },
            ChannelResponse::ExtendedData { data_type, data } => {
                match data_type {
                    ExtendedDataType::Stderr => {
                        let i = match self.find_entry(c) {
                            Some(i) => i,
                            None => return Err(Error::InvalidSenderChannel(c)),
                        };
                        proof {
                            self.lemma_key_index(i as int, c);
                        }
                        self.handle_incoming_data(i, data, false)
                    },
                    ExtendedDataType::Unknown => Ok(()),
                }
            },
            ChannelResponse::Eof => {
                let i = match self.find_entry(c) {
                    Some(i) => i,
                    None => return Err(Error::InvalidSenderChannel(c)),
                };
                let e = self.entries[i];
                self.mark_eof(e);
                let cleared = ReadTaskChannelEntry { rx_attached: false, stderr_attached: false, ..e };
                let ghost before = self.entries@;
                self.entries.set(i, cleared);
                proof {
                    assert forall|a: int, b: int|
                        0 <= a < b < self.entries@.len() implies #[trigger] self.entries@[a].sender_channel
                            != #[trigger] self.entries@[b].sender_channel by {
                        assert(before[a].sender_channel != before[b].sender_channel);
                    }
                }
                Ok(())
            },
            ChannelResponse::RequestSuccess => self.on_request_response(c, true),
            ChannelResponse::RequestFailure => self.on_request_response(c, false),
            ChannelResponse::Request(request) => {
                let status = match request {
                    ChannelRequest::StatusCode(code) => ProcessStatus::ProcessExited(code),
                    ChannelRequest::KilledBySignal(sig) => ProcessStatus::ProcessKilled(sig),
                    ChannelRequest::Unknown => {
                        return Err(
                            Error::UnexpectedChannelState {
                                expected_state: "ChannelResponse::Request(StatusCode | KilledBySignal)",
                                actual_state: "ChannelResponse::Request(Unknown)",
                            },
                        );
                    },
                };
                let i = match self.find_entry(c) {
                    Some(i) => i,
                    None => return Err(Error::InvalidSenderChannel(c)),
                };
                proof {
                    self.lemma_key_index(i as int, c);
                }
                let slot = self.entries[i].slot;
                let mut data = match self.registry.remove(slot) {
                    Some(d) => d,
                    None => {
                        assert(self.registry.view() =~= old(self).registry.view());
                        return Err(Error::InvalidRecipientChannel(slot));
                    },
                };
                let res = data.state.set_channel_process_status(status);
                self.registry.put_back(slot, data);
                proof { self.lemma_put_back_wf(old(self).registry.view(), slot); }
                res
            },
        }
    }

    /// After a slot's data was taken out and put back changed but still
    /// well formed, the table is well formed and holds the same slots.
    proof fn lemma_put_back_wf(&self, before: Map<u32, ChannelData>, slot: u32)
        requires
            before.contains_key(slot),
            self.registry.view() == before.remove(slot).insert(slot, self.registry.view()[slot]),
            slot_ok(slot, self.registry.view()[slot]),
            forall|k: u32| #[trigger] before.contains_key(k) ==> slot_ok(k, before[k]),
        ensures
            self.registry.view().dom() == before.dom(),
            forall|k: u32| #[trigger] self.registry.view().contains_key(k) ==> slot_ok(k, self.registry.view()[k]),
    {
        assert(self.registry.view().dom() =~= before.dom());
        assert forall|k: u32| #[trigger] self.registry.view().contains_key(k) implies slot_ok(k, self.registry.view()[k]) by {
            if k != slot {
                assert(before.contains_key(k));
            }
        }
    }

    /// Frees the slot once `CHANNEL_CLOSE` went both ways: this client sent
    /// it, and no entry of the read task points at the slot any more.
    fn free_if_closed(&mut self, slot: u32)
        requires
            old(self).wf(),
        ensures
            final(self).wf(),
            final(self).entries() == old(self).entries(),
            final(self).queue() == old(self).queue(),
            final(self).channels() == old(self).channels() || final(self).channels() == old(self).channels().remove(slot),
    {
        match self.registry.get(slot) {
            Some(d) => {
                if d.close_sent && !self.slot_in_use(slot) {
                    self.registry.remove(slot);
                }
            },
            None => {},
        }
    }

    fn on_open_confirmation(&mut self, c: u32, conf: crate::proxy_response::OpenConfirmation) -> (r: Result<(), Error>)
        requires
            old(self).wf(),
        ensures
            final(self).wf(),
            !old(self).channels().contains_key(c) ==> r == Err::<(), Error>(Error::InvalidRecipientChannel(c))
                && final(self).channels() == old(self).channels() && final(self).entries() == old(self).entries(),
            old(self).channels().contains_key(c)
                && old(self).channels()[c].state@ is OpenChannelRequested
                && old(self).channels()[c].sender_window_size.value() + conf.init_win_size <= u64::MAX
                && !has_key(old(self).entries(), conf.sender_channel) ==> r is Ok,
            (r is Ok) ==> {
                &&& old(self).channels().contains_key(c)
                &&& old(self).channels()[c].state@ is OpenChannelRequested
                &&& final(self).channels()[c].state@ == (State::OpenChannelRequestConfirmed { max_packet_size: conf.max_packet_size })
                &&& final(self).channels()[c].sender_window_size.value() == old(self).channels()[c].sender_window_size.value() + conf.init_win_size
                &&& !has_key(old(self).entries(), conf.sender_channel)
                &&& final(self).entries().len() == old(self).entries().len() + 1
                &&& final(self).entries().drop_last() == old(self).entries()
                &&& final(self).entries().last().sender_channel == conf.sender_channel
                &&& final(self).entries().last().slot == c
                &&& confirmed_entry(old(self).channels()[c], final(self).entries().last())
                &&& channel_kept(old(self).channels()[c], final(self).channels()[c])
                &&& final(self).channels().dom() == old(self).channels().dom()
                &&& final(self).queue() == old(self).queue()
            },
    {
        let mut data = match self.registry.remove(c) {
            Some(d) => d,
            None => {
                assert(self.registry.view() =~= old(self).registry.view());
                return Err(Error::InvalidRecipientChannel(c));
            },
        };
        if !data.sender_window_size.add(conf.init_win_size as u64) {
            self.registry.put_back(c, data);
            proof { self.lemma_put_back_wf(old(self).registry.view(), c); }
            return Err(Error::WindowOverflow(c));
        }
        let inner = match data.state.set_channel_open_res(OpenChannelRes::Confirmed { max_packet_size: conf.max_packet_size }) {
            Ok(inner) => inner,
            Err(e) => {
                self.registry.put_back(c, data);
                proof { self.lemma_put_back_wf(old(self).registry.view(), c); }
                return Err(e);
            },
        };
        let rx_attached = data.rx.is_some();
        let stderr_attached = data.stderr.is_some();
        self.registry.put_back(c, data);
        proof { self.lemma_put_back_wf(old(self).registry.view(), c); }
        if self.find_entry(conf.sender_channel).is_some() {
            return Err(Error::DuplicateSenderChannel(conf.sender_channel));
        }
        let entry = ReadTaskChannelEntry {
            sender_channel: conf.sender_channel,
            slot: c,
            receiver_win_size: inner.init_receiver_win_size,
            extend_window_size: inner.extend_window_size,
            extend_window_size_packet: inner.extend_window_size_packet,
            pending_requests: PendingTracker::new(),
            rx_attached,
            stderr_attached,
        };
        let ghost before = self.entries@;
        self.entries.push(entry);
        proof {
            assert(self.entries@.drop_last() =~= before);
            assert forall|a: int, b: int|
                0 <= a < b < self.entries@.len() implies #[trigger] self.entries@[a].sender_channel
                    != #[trigger] self.entries@[b].sender_channel by {
                if b < before.len() {
                    assert(before[a].sender_channel != before[b].sender_channel);
                }
            }
        }
        Ok(())
    }

    fn on_request_response(&mut self, c: u32, success: bool) -> (r: Result<(), Error>)
        requires
            old(self).wf(),
        ensures
            final(self).wf(),
            !has_key(old(self).entries(), c) ==> r == Err::<(), Error>(Error::InvalidSenderChannel(c))
                && final(self).channels() == old(self).channels() && final(self).entries() == old(self).entries()
                && final(self).queue() == old(self).queue(),
            has_key(old(self).entries(), c) ==> reply_routed(*old(self), *final(self), key_index(old(self).entries(), c), success, r),
    {
        let i = match self.find_entry(c) {
            Some(i) => i,
            None => return Err(Error::InvalidSenderChannel(c)),
        };
        proof {
            self.lemma_key_index(i as int, c);
        }
        let mut e = self.entries[i];
        let mut data = match self.registry.remove(e.slot) {
            Some(d) => d,
            None => {
                assert(self.registry.view() =~= old(self).registry.view());
                return Err(Error::InvalidRecipientChannel(e.slot));
            },
        };
        let consistent = match e.pending_requests.pending {
            Some(n) => n > 0 && data.pending_requests.retrieve_pending_requests().is_some(),
            None => true,
        };
        let res = if consistent {
            e.pending_requests.handle_request_response(&mut data.pending_requests, success)
        } else {
            Err(Error::UnexpectedRequestResponse)
        };
        self.registry.put_back(e.slot, data);
        proof { self.lemma_put_back_wf(old(self).registry.view(), e.slot); }
        let ghost before = self.entries@;
        self.entries.set(i, e);
        proof {
            assert forall|a: int, b: int|
                0 <= a < b < self.entries@.len() implies #[trigger] self.entries@[a].sender_channel
                    != #[trigger] self.entries@[b].sender_channel by {
                assert(before[a].sender_channel != before[b].sender_channel);
            }
        }
        res
    }

    /// The last handle to channel `slot` is gone: `CHANNEL_CLOSE` is queued,
    /// once in the channel's life; the slot is freed when the peer has
    /// closed too.
    pub fn release_channel(&mut self, slot: u32) -> (r: bool)
        requires
            old(self).wf(),
        ensures
            final(self).wf(),
            final(self).entries() == old(self).entries(),
            released(*old(self), *final(self), slot, r),
    {
        let mut data = match self.registry.remove(slot) {
            Some(d) => d,
            None => {
                assert(self.registry.view() =~= old(self).registry.view());
                return false;
            },
        };
        if data.close_sent {
            self.registry.put_back(slot, data);
            proof { self.lemma_put_back_wf(old(self).registry.view(), slot); }
            assert(self.registry.view() =~= old(self).registry.view());
            return false;
        }
        data.close_sent = true;
        self.registry.put_back(slot, data);
        proof { self.lemma_put_back_wf(old(self).registry.view(), slot); }
        let frame = channel_close_frame(slot);
        let ghost h = self.write_queue.history();
        self.write_queue.push_bytes(frame);
        proof {
            if !self.write_queue.reader_gone() {
                lemma_concat_push(h, frame);
            }
        }
        self.free_if_closed(slot);
        true
    }

    /// Takes channel `slot`'s data out, or fails with
    /// `InvalidRecipientChannel`.
    fn take_channel(&mut self, slot: u32) -> (r: Result<ChannelData, Error>)
        requires
            old(self).wf(),
        ensures
            final(self).registry.wf(),
            final(self).write_queue == old(self).write_queue,
            final(self).entries == old(self).entries,
            final(self).registry.view() == old(self).registry.view().remove(slot),
            match r {
                Ok(d) => old(self).registry.view().contains_key(slot) && d == old(self).registry.view()[slot]
                    && slot_ok(slot, d) && (slot as int) < REGISTRY_CAPACITY,
                Err(e) => e == Error::InvalidRecipientChannel(slot) && !old(self).registry.view().contains_key(slot),
            },
    {
        match self.registry.remove(slot) {
            Some(d) => Ok(d),
            None => Err(Error::InvalidRecipientChannel(slot)),
        }
    }

    /// Writes `bytes` on the channel of `input`; see
    /// [`ChannelInput::start_send`].
    pub fn start_send(&mut self, input: &mut ChannelInput, bytes: Vec<u8>) -> (r: Result<(), Error>)
        requires
            old(self).wf(),
            old(input).wf(),
            !old(input).eof_sent(),
            old(input).pending().len() + bytes@.len() <= usize::MAX,
        ensures
            final(self).wf(),
            final(input).wf(),
            !final(input).eof_sent(),
            final(self).channels().dom() == old(self).channels().dom(),
            final(self).entries() == old(self).entries(),
            r is Ok <==> old(self).channels().contains_key(old(input).channel_id()),
            r is Ok ==> start_send_effect(
                *old(input),
                *final(input),
                bytes@,
                old(self).channels()[old(input).channel_id()].sender_window_size.value(),
                old(self).queue(),
                final(self).queue(),
            ),
            r is Ok && bytes@.len() > 0 ==> final(self).channels()[old(input).channel_id()].sender_window_size.value()
                == crate::channel_input::counter_left(
                old(input).window(),
                old(self).channels()[old(input).channel_id()].sender_window_size.value(),
            ),
            r is Err ==> *final(input) == *old(input) && final(self).queue() == old(self).queue(),
            r is Ok ==> channel_kept(
                old(self).channels()[old(input).channel_id()],
                final(self).channels()[old(input).channel_id()],
            ) && final(self).channels()[old(input).channel_id()].state@ == old(self).channels()[old(input).channel_id()].state@,
    {
        let slot = input.channel_id_of();
        let mut data = match self.take_channel(slot) {
            Ok(d) => d,
            Err(e) => {
                assert(self.registry.view() =~= old(self).registry.view());
                return Err(e);
            },
        };
        input.start_send(bytes, &mut data.sender_window_size, &mut self.write_queue);
        self.registry.put_back(slot, data);
        proof { self.lemma_put_back_wf(old(self).registry.view(), slot); }
        Ok(())
    }

    /// Flushes the channel of `input`; `Ok(false)` means it waits for
    /// window. See [`ChannelInput::poll_flush`].
    pub fn poll_flush(&mut self, input: &mut ChannelInput) -> (r: Result<bool, Error>)
        requires
            old(self).wf(),
            old(input).wf(),
            !old(input).eof_sent(),
        ensures
            final(self).wf(),
            final(input).wf(),
            !final(input).eof_sent(),
            final(self).channels().dom() == old(self).channels().dom(),
            final(self).entries() == old(self).entries(),
            final(input).submitted() == old(input).submitted(),
            r is Ok <==> old(self).channels().contains_key(old(input).channel_id()),
            r matches Ok(done) ==> flush_effect(*old(input), *final(input), old(self).queue(), final(self).queue(), done),
            r == Ok::<bool, Error>(false) ==> final(input).window() == 0
                && final(self).channels()[old(input).channel_id()].sender_window_size.value() == 0,
            r is Err ==> *final(input) == *old(input) && final(self).queue() == old(self).queue(),
            r is Ok ==> channel_kept(
                old(self).channels()[old(input).channel_id()],
                final(self).channels()[old(input).channel_id()],
            ) && final(self).channels()[old(input).channel_id()].state@ == old(self).channels()[old(input).channel_id()].state@,
    {
        let slot = input.channel_id_of();
        let mut data = match self.take_channel(slot) {
            Ok(d) => d,
            Err(e) => {
                assert(self.registry.view() =~= old(self).registry.view());
                return Err(e);
            },
        };
        let done = input.poll_flush(&mut data.sender_window_size, &mut self.write_queue);
        self.registry.put_back(slot, data);
        proof { self.lemma_put_back_wf(old(self).registry.view(), slot); }
        Ok(done)
    }

    /// Drops the write half `input`; `Ok(true)` when its EOF went out,
    /// `Ok(false)` when bytes wait for window and must be finished in the
    /// background. See [`ChannelInput::close_on_drop`].
    pub fn close_input(&mut self, input: &mut ChannelInput) -> (r: Result<bool, Error>)
        requires
            old(self).wf(),
            old(input).wf(),
            !old(input).eof_sent(),
        ensures
            final(self).wf(),
            final(input).wf(),
            final(self).channels().dom() == old(self).channels().dom(),
            final(self).entries() == old(self).entries(),
            final(input).submitted() == old(input).submitted(),
            r is Ok <==> old(self).channels().contains_key(old(input).channel_id()),
            r matches Ok(sent) ==> sent == (final(input).pending().len() == 0) && close_effect(
                *old(input),
                *final(input),
                old(self).channels()[old(input).channel_id()].sender_window_size.value(),
                old(self).queue(),
                final(self).queue(),
                sent,
            ),
            r is Err ==> *final(input) == *old(input) && final(self).queue() == old(self).queue(),
            r is Ok ==> channel_kept(
                old(self).channels()[old(input).channel_id()],
                final(self).channels()[old(input).channel_id()],
            ) && final(self).channels()[old(input).channel_id()].state@ == old(self).channels()[old(input).channel_id()].state@,
    {
        let slot = input.channel_id_of();
        let mut data = match self.take_channel(slot) {
            Ok(d) => d,
            Err(e) => {
                assert(self.registry.view() =~= old(self).registry.view());
                return Err(e);
            },
        };
        let done = input.close_on_drop(&mut data.sender_window_size, &mut self.write_queue);
        self.registry.put_back(slot, data);
        proof { self.lemma_put_back_wf(old(self).registry.view(), slot); }
        Ok(done)
    }

    /// Sends the EOF of `input` (after a background flush finished).
    pub fn send_eof(&mut self, input: &mut ChannelInput)
        requires
            old(self).wf(),
            old(input).wf(),
            !old(input).eof_sent(),
        ensures
            final(self).wf(),
            final(input).wf(),
            final(input).eof_sent(),
            final(input).submitted() == old(input).submitted(),
            final(input).emitted() == old(input).emitted(),
            final(self).channels() == old(self).channels(),
            final(self).entries() == old(self).entries(),
            !old(self).queue().reader_gone() ==> concat(final(self).queue().history()) == concat(
                old(self).queue().history(),
            ) + crate::channel_input::eof_frame(old(input).channel_id()),
    {
        input.send_eof_packet(&mut self.write_queue);
    }

    /// Queues a packet of this client (a channel or global request).
    pub fn send_request(&mut self, req: &Request) -> (r: Result<(), Error>)
        requires
            old(self).wf(),
            request_valid(*req),
        ensures
            final(self).wf(),
            final(self).channels() == old(self).channels(),
            final(self).entries() == old(self).entries(),
            final(self).queue().reader_gone() == old(self).queue().reader_gone(),
            match r {
                Ok(()) => !old(self).queue().reader_gone() ==> concat(final(self).queue().history())
                    == concat(old(self).queue().history()) + packet_frame(*req, 0),
                Err(e) => e == Error::FormatError(crate::wire::FormatError::TooLong) && final(self).queue() == old(self).queue()
                    && packet_body(*req).len() > u32::MAX,
            },
    {
        let frame = match req.serialize_with_header(0) {
            Ok(f) => f,
            Err(e) => return Err(Error::FormatError(e)),
        };
        let ghost h = self.write_queue.history();
        self.write_queue.push_bytes(frame);
        proof {
            if !self.write_queue.reader_gone() {
                lemma_concat_push(h, frame);
            }
        }
        Ok(())
    }

    /// Reads from channel `slot`'s stdout (or stderr); `Ok(false)` means
    /// the reader waits. See [`ChannelOutput::poll_for_data`].
    pub fn poll_read(&mut self, slot: u32, is_stderr: bool, output: &mut ChannelOutput) -> (r: Result<bool, Error>)
        requires
            old(self).wf(),
            old(output).wf(),
        ensures
            final(self).wf(),
            final(output).wf(),
            final(self).channels().dom() == old(self).channels().dom(),
            final(self).entries() == old(self).entries(),
            final(self).queue() == old(self).queue(),
            final(output).consumed() == old(output).consumed(),
            final(output).received().take(old(output).received().len() as int) == old(output).received(),
            !old(self).channels().contains_key(slot) ==> r == Err::<bool, Error>(Error::InvalidRecipientChannel(slot)),
            r == Ok::<bool, Error>(true) ==> final(output).eof() || final(output).has_chunks(),
            r is Err ==> *final(output) == *old(output),
            r is Ok && !old(output).has_chunks() && !old(output).eof() ==> final(output).received()
                == old(output).received() + concat(chosen_queue(old(self).channels()[slot], is_stderr)->Some_0.chunks()),
            r is Ok <==> old(self).channels().contains_key(slot) && readable(old(self).channels()[slot], is_stderr),
            r is Ok ==> r == Ok::<bool, Error>(
                old(output).has_chunks() || old(output).eof()
                    || chosen_queue(old(self).channels()[slot], is_stderr)->Some_0.chunks().len() > 0
                    || chosen_queue(old(self).channels()[slot], is_stderr)->Some_0.eof(),
            ),
    {
        let mut data = match self.take_channel(slot) {
            Ok(d) => d,
            Err(e) => {
                assert(self.registry.view() =~= old(self).registry.view());
                assert(output.received().take(output.received().len() as int) =~= output.received());
                return Err(e);
            },
        };
        let q = if is_stderr { &mut data.stderr } else { &mut data.rx };
        let res = match q {
            Some(ch) => {
                if ch.is_reader_dropped() {
                    Err(Error::InvalidRecipientChannel(slot))
                } else {
                    Ok(output.poll_for_data(ch))
                }
            },
            None => Err(Error::InvalidRecipientChannel(slot)),
        };
        self.registry.put_back(slot, data);
        proof {
            self.lemma_put_back_wf(old(self).registry.view(), slot);
            assert(output.received().take(old(output).received().len() as int) =~= old(output).received()) by {
                if res is Err {
                    assert(output.received().take(output.received().len() as int) =~= output.received());
                }
            }
        }
        res
    }

    /// A read half of channel `slot` is dropped: one reader fewer (never
    /// below 0), and what its queue would receive is dropped.
    pub fn drop_output(&mut self, slot: u32, is_stderr: bool) -> (r: Result<(), Error>)
        requires
            old(self).wf(),
        ensures
            final(self).wf(),
            final(self).channels().dom() == old(self).channels().dom(),
            final(self).entries() == old(self).entries(),
            final(self).queue() == old(self).queue(),
            r is Ok <==> old(self).channels().contains_key(slot),
            r is Ok ==> final(self).channels()[slot].receivers_count == (if old(self).channels()[slot].receivers_count > 0 {
                (old(self).channels()[slot].receivers_count - 1) as u8
            } else {
                0u8
            }),
            r is Ok ==> reader_dropped(final(self).channels()[slot], is_stderr)
                && (chosen_queue(final(self).channels()[slot], is_stderr) is Some
                    == chosen_queue(old(self).channels()[slot], is_stderr) is Some)
                && chosen_queue(final(self).channels()[slot], !is_stderr) == chosen_queue(old(self).channels()[slot], !is_stderr),
    {
        let mut data = match self.take_channel(slot) {
            Ok(d) => d,
            Err(e) => {
                assert(self.registry.view() =~= old(self).registry.view());
                return Err(e);
            },
        };
        if data.receivers_count > 0 {
            data.receivers_count = data.receivers_count - 1;
        }
        if is_stderr {
            match &mut data.stderr {
                Some(q) => q.drop_reader(),
                None => {},
            }
        } else {
            match &mut data.rx {
                Some(q) => q.drop_reader(),
                None => {},
            }
        }
        self.registry.put_back(slot, data);
        proof { self.lemma_put_back_wf(old(self).registry.view(), slot); }
        Ok(())
    }

    /// Starts a batch of `requests` channel requests on channel `slot`;
    /// `Ok(false)` while the previous batch is unanswered.
    pub fn start_new_requests(&mut self, slot: u32, requests: usize) -> (r: Result<bool, Error>)
        requires
            old(self).wf(),
            requests > 0,
        ensures
            final(self).wf(),
            final(self).channels().dom() == old(self).channels().dom(),
            final(self).entries() == old(self).entries(),
            final(self).queue() == old(self).queue(),
            r is Ok <==> old(self).channels().contains_key(slot),
            r matches Ok(started) ==> started == !(old(self).channels()[slot].pending_requests@ is Waiting),
            r == Ok::<bool, Error>(true) ==> final(self).channels()[slot].pending_requests@
                == (crate::pending_requests::PendingState::Waiting { pending_requests: requests }),
            r == Ok::<bool, Error>(false) ==> final(self).channels()[slot].pending_requests@
                == old(self).channels()[slot].pending_requests@,
    {
        let mut data = match self.take_channel(slot) {
            Ok(d) => d,
            Err(e) => {
                assert(self.registry.view() =~= old(self).registry.view());
                return Err(e);
            },
        };
        let started = data.pending_requests.start_new_requests(requests);
        self.registry.put_back(slot, data);
        proof { self.lemma_put_back_wf(old(self).registry.view(), slot); }
        Ok(started)
    }

    /// The outcome of channel `slot`'s batch of requests, `Ok(None)` while
    /// replies are missing.
    pub fn poll_requests(&self, slot: u32) -> (r: Result<Option<crate::pending_requests::Completion>, Error>)
        requires
            self.wf(),
        ensures
            !self.channels().contains_key(slot) ==> r == Err::<Option<crate::pending_requests::Completion>, Error>(Error::InvalidRecipientChannel(slot)),
            self.channels().contains_key(slot) ==> match self.channels()[slot].pending_requests@ {
                crate::pending_requests::PendingState::Done(c) => r == Ok::<Option<crate::pending_requests::Completion>, Error>(Some(c)),
                crate::pending_requests::PendingState::Waiting { .. } => r == Ok::<Option<crate::pending_requests::Completion>, Error>(None),
                crate::pending_requests::PendingState::NotStarted => r matches Err(Error::UnexpectedRequestResponse),
            },
    {
        match self.registry.get(slot) {
            Some(d) => match d.pending_requests.retrieve_pending_requests() {
                Some(_) => Ok(None),
                None => {
                    if d.pending_requests.is_not_started() {
                        Err(Error::UnexpectedRequestResponse)
                    } else {
                        Ok(d.pending_requests.poll_completion())
                    }
                },
            },
            None => Err(Error::InvalidRecipientChannel(slot)),
        }
    }

    /// The owner's wait for the end of channel `slot`'s process: `Ok(None)`
    /// while it runs; the status is handed over once.
    pub fn poll_process_exit(&mut self, slot: u32) -> (r: Result<Option<ProcessStatus>, Error>)
        requires
            old(self).wf(),
        ensures
            final(self).wf(),
            final(self).channels().dom() == old(self).channels().dom(),
            final(self).entries() == old(self).entries(),
            final(self).queue() == old(self).queue(),
            !old(self).channels().contains_key(slot) ==> r == Err::<Option<ProcessStatus>, Error>(Error::InvalidRecipientChannel(slot)),
            old(self).channels().contains_key(slot) ==> match old(self).channels()[slot].state@ {
                State::OpenChannelRequestConfirmed { .. } => r == Ok::<Option<ProcessStatus>, Error>(None),
                State::ProcessExited(c) => r == Ok::<Option<ProcessStatus>, Error>(Some(ProcessStatus::ProcessExited(c)))
                    && final(self).channels()[slot].state@ == State::Consumed,
                State::ProcessKilled(s) => r == Ok::<Option<ProcessStatus>, Error>(Some(ProcessStatus::ProcessKilled(s)))
                    && final(self).channels()[slot].state@ == State::Consumed,
                _ => r matches Err(Error::UnexpectedChannelState { .. }),
            },
    {
        let mut data = match self.take_channel(slot) {
            Ok(d) => d,
            Err(e) => {
                assert(self.registry.view() =~= old(self).registry.view());
                return Err(e);
            },
        };
        let ok_phase = match data.state.state_ref() {
            State::OpenChannelRequestConfirmed { .. } => true,
            State::ProcessExited(_) => true,
            State::ProcessKilled(_) => true,
            _ => false,
        };
        let res = if ok_phase {
            Ok(data.state.poll_process_exit())
        } else {
            Err(Error::UnexpectedChannelState {
                expected_state: "OpenChannelRequestConfirmed",
                actual_state: crate::channel_state::state_name(data.state.state_ref()),
            })
        };
        self.registry.put_back(slot, data);
        proof { self.lemma_put_back_wf(old(self).registry.view(), slot); }
        res
    }

    /// The write task takes every queued chunk, oldest first. `None`: it
    /// waits; an empty result: the client is shutting down and everything
    /// was written, so the task ends.
    pub fn poll_write_queue(&mut self) -> (r: Option<Vec<Vec<u8>>>)
        requires
            old(self).wf(),
            !old(self).queue().reader_gone(),
        ensures
            final(self).wf(),
            write_polled(*old(self), *final(self), r),
    {
        self.write_queue.poll_for_data()
    }

    /// The client handle is dropped: the write task drains the queue and
    /// ends.
    pub fn shutdown(&mut self)
        requires
            old(self).wf(),
        ensures
            final(self).wf(),
            final(self).channels() == old(self).channels(),
            final(self).entries() == old(self).entries(),
            final(self).queue().eof() == (old(self).queue().eof() || !old(self).queue().reader_gone()),
            final(self).queue().history() == old(self).queue().history(),
            final(self).queue().chunks() == old(self).queue().chunks(),
    {
        self.write_queue.mark_eof();
    }
}

} // verus!
