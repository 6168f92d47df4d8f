//! Correlation of channel requests with the peer's replies. The peer
//! answers the requests of a channel in order, so a count is enough.
use vstd::prelude::*;

use crate::proxy_error::Error;

verus! {

#[derive(Debug, Clone, Copy, PartialEq, Eq)]
pub enum Completion {
    /// Every request succeeded.
    Success,
    /// Some request failed.
    Failed,
}

#[derive(Debug, Clone, Copy, PartialEq, Eq)]
pub enum PendingState {
    NotStarted,
    Waiting { pending_requests: usize },
    Done(Completion),
}

/// The owner's side: how many requests of the batch are unanswered.
#[derive(Debug)]
pub struct PendingRequests {
    inner: PendingState,
}

impl View for PendingRequests {
    type V = PendingState;

    closed spec fn view(&self) -> PendingState {
        self.inner
    }
}

impl PendingRequests {
    /// A batch of requests always counts at least one.
    pub open spec fn wf(&self) -> bool {
        self@ matches PendingState::Waiting { pending_requests } ==> pending_requests > 0
    }

    pub fn new() -> (r: PendingRequests)
        ensures
            r@ == PendingState::NotStarted,
            r.wf(),
    {
        PendingRequests { inner: PendingState::NotStarted }
    }

    /// Starts a batch of `requests` requests, before they are flushed.
    /// `false`, and nothing changed, while the previous batch is still
    /// waiting: the owner must wait for it first.
    pub fn start_new_requests(&mut self, requests: usize) -> (r: bool)
        requires
            requests > 0,
            old(self).wf(),
        ensures
            final(self).wf(),
            r == !(old(self)@ is Waiting),
            r ==> final(self)@ == (PendingState::Waiting { pending_requests: requests }),
            !r ==> final(self)@ == old(self)@,
    {
        match self.inner {
            PendingState::Waiting { .. } => false,
            _ => {
                self.inner = PendingState::Waiting { pending_requests: requests };
                true
            },
        }
    }

    pub fn is_not_started(&self) -> (r: bool)
        ensures
            r == (self@ is NotStarted),
    {
        match self.inner {
            PendingState::NotStarted => true,
            _ => false,
        }
    }

    /// The outcome of the batch, or `None` while replies are missing.
    pub fn poll_completion(&self) -> (r: Option<Completion>)
        requires
            !(self@ is NotStarted),
        ensures
            match self@ {
                PendingState::Done(c) => r == Some(c),
                _ => r is None,
            },
    {
        match self.inner {
            PendingState::Done(c) => Some(c),
            _ => None,
        }
    }

    /// The size of the batch waited on, if one is.
    pub fn retrieve_pending_requests(&self) -> (r: Option<usize>)
        ensures
            match self@ {
                PendingState::Waiting { pending_requests } => r == Some(pending_requests),
                _ => r is None,
            },
    {
        match self.inner {
            PendingState::Waiting { pending_requests } => Some(pending_requests),
            _ => None,
        }
    }

    /// Reports the outcome of the batch waited on.
    pub fn report_request_completion(&mut self, completion: Completion)
        requires
            old(self)@ is Waiting,
        ensures
            final(self)@ == PendingState::Done(completion),
            final(self).wf(),
    {
        self.inner = PendingState::Done(completion);
    }
}

/// The read task's side: the replies still expected in the batch, and
/// whether one of them was a failure.
#[derive(Debug, Clone, Copy, PartialEq, Eq)]
pub struct PendingTracker {
    pub pending: Option<usize>,
    pub has_failed: bool,
}

/// How many replies are expected once a reply arrives: what the tracker
/// holds, or else the size of the owner's batch.
pub open spec fn expected_replies(t: PendingTracker, owner: PendingState) -> Option<usize> {
    match t.pending {
        Some(n) => Some(n),
        None => match owner {
            PendingState::Waiting { pending_requests } => Some(pending_requests),
            _ => None,
        },
    }
}

impl PendingTracker {
    pub fn new() -> (r: PendingTracker)
        ensures
            r.pending is None,
            !r.has_failed,
    {
        PendingTracker { pending: None, has_failed: false }
    }

    /// The tracker counts replies of the batch the owner waits on.
    pub open spec fn tracks(&self, owner: &PendingRequests) -> bool {
        &&& owner.wf()
        &&& (self.pending matches Some(n) ==> n > 0 && owner@ is Waiting)
    }

    /// Takes one reply (`success` tells which). When it is the last of
    /// the batch, the owner learns the outcome: `Failed` if any reply of
    /// the batch was a failure.
    pub fn handle_request_response(&mut self, owner: &mut PendingRequests, success: bool) -> (r:
        Result<(), Error>)
        requires
            old(self).tracks(old(owner)),
        ensures
            final(self).tracks(final(owner)),
            match expected_replies(*old(self), old(owner)@) {
                None => r == Err::<(), Error>(Error::UnexpectedRequestResponse) && *final(self)
                    == *old(self) && final(owner)@ == old(owner)@,
                Some(n) => {
                    let failed = (old(self).pending is Some && old(self).has_failed) || !success;
                    &&& r is Ok
                    &&& if n == 1 {
                        &&& final(self).pending is None
                        &&& final(owner)@ == PendingState::Done(
                            if failed {
                                Completion::Failed
                            } else {
                                Completion::Success
                            },
                        )
                    } else {
                        &&& final(self).pending == Some((n - 1) as usize)
                        &&& final(self).has_failed == failed
                        &&& final(owner)@ == old(owner)@
                    }
                },
            },
    {
        let n = match self.pending {
            Some(n) => n,
            None => match owner.retrieve_pending_requests() {
                Some(n) => {
                    self.has_failed = false;
                    n
                },
                None => return Err(Error::UnexpectedRequestResponse),
            },
        };
        self.has_failed = self.has_failed || !success;
        if n == 1 {
            self.pending = None;
            let completion = if self.has_failed {
                Completion::Failed
            } else {
                Completion::Success
            };
            owner.report_request_completion(completion);
        } else {
            self.pending = Some(n - 1);
        }
        Ok(())
    }
}

} // verus!
