//! Flow-control windows: the send window granted by the peer, and the
//! receive window this client advertises.
use vstd::prelude::*;

verus! {

/// The send window of a channel: grants are added by the read task, and
/// the channel's writer takes all of it at once.
pub struct AwaitableAtomicU64 {
    value: u64,
    /// Every byte of window granted so far.
    granted: Ghost<nat>,
    /// Every byte of window taken so far.
    taken: Ghost<nat>,
}

impl AwaitableAtomicU64 {
    pub closed spec fn value(&self) -> u64 {
        self.value
    }

    pub closed spec fn granted(&self) -> nat {
        self.granted@
    }

    pub closed spec fn taken(&self) -> nat {
        self.taken@
    }

    /// What is in the counter is what was granted and not yet taken.
    pub closed spec fn wf(&self) -> bool {
        self.value + self.taken@ == self.granted@
    }

    /// No more is taken than was granted.
    pub proof fn lemma_taken_within_granted(&self)
        requires
            self.wf(),
        ensures
            self.taken() + self.value() == self.granted(),
            self.taken() <= self.granted(),
    {
    }

    /// An empty window.
    pub fn new() -> (r: AwaitableAtomicU64)
        ensures
            r.wf(),
            r.value() == 0,
            r.granted() == 0,
            r.taken() == 0,
    {
        AwaitableAtomicU64 { value: 0, granted: Ghost(0), taken: Ghost(0) }
    }

    /// Grants `val` more bytes; `false`, and nothing changed, when the
    /// counter would overflow (a fault of the peer).
    pub fn add(&mut self, val: u64) -> (r: bool)
        requires
            old(self).wf(),
        ensures
            final(self).wf(),
            r == (old(self).value() + val <= u64::MAX),
            r ==> final(self).value() == old(self).value() + val && final(self).granted()
                == old(self).granted() + val,
            !r ==> final(self).value() == old(self).value() && final(self).granted()
                == old(self).granted(),
            final(self).taken() == old(self).taken(),
    {
        if val > u64::MAX - self.value {
            return false;
        }
        self.value = self.value + val;
        proof {
            self.granted@ = self.granted@ + val as nat;
        }
        true
    }

    /// The window granted and not taken yet.
    pub fn peek(&self) -> (r: u64)
        ensures
            r == self.value(),
    {
        self.value
    }

    /// Takes the whole window: returns it and leaves 0.
    pub fn get(&mut self) -> (r: u64)
        requires
            old(self).wf(),
        ensures
            final(self).wf(),
            r == old(self).value(),
            final(self).value() == 0,
            final(self).granted() == old(self).granted(),
            final(self).taken() == old(self).taken() + r,
    {
        let r = self.value;
        self.value = 0;
        proof {
            self.taken@ = self.taken@ + r as nat;
        }
        r
    }

    /// Takes the whole window if it is not empty; `None` means the writer
    /// must wait for a grant.
    pub fn get_non_zero(&mut self) -> (r: Option<u64>)
        requires
            old(self).wf(),
        ensures
            final(self).wf(),
            final(self).value() == 0,
            final(self).granted() == old(self).granted(),
            final(self).taken() == old(self).taken() + old(self).value(),
            match r {
                Some(v) => v == old(self).value() && v != 0,
                None => old(self).value() == 0,
            },
    {
        let v = self.get();
        if v == 0 {
            None
        } else {
            Some(v)
        }
    }
}

/// The receive window after `cnt` more bytes arrived, and whether a
/// window grant of `extend` bytes must be sent: the window is consumed
/// (down to 0 at least), and once it is 0 while some reader is left, it
/// is refilled to `extend` by that grant.
pub open spec fn receiver_window_after(win: u32, cnt: u32, receivers: u8, extend: u32) -> (
    u32,
    bool,
) {
    let left = if cnt >= win {
        0u32
    } else {
        (win - cnt) as u32
    };
    if left == 0 && receivers != 0 {
        (extend, true)
    } else {
        (left, false)
    }
}

/// Accounts for `cnt` inbound bytes; see [`receiver_window_after`].
pub fn consume_receiver_window(win: u32, cnt: u32, receivers: u8, extend: u32) -> (r: (
    u32,
    bool,
))
    ensures
        r == receiver_window_after(win, cnt, receivers, extend),
{
    let left = win.saturating_sub(cnt);
    if left == 0 && receivers != 0 {
        (extend, true)
    } else {
        (left, false)
    }
}

} // verus!
