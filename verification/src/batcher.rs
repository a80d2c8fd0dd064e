//! Time/size-bounded request batching.
//!
//! Arriving requests accumulate in a window that opens with its first member
//! and closes on whichever comes first: the member count reaching the
//! configured maximum, or the configured timeout elapsing since the window
//! opened. A closing window always hands its members over in arrival order;
//! a non-empty partial batch is flushed, never discarded. The clock is
//! supplied by the caller as a millisecond reading, so closure on timeout is
//! driven by the caller polling.

use vstd::prelude::*;

use crate::models::{InferenceRequest, RequestModel};

verus! {

/// Groups individually submitted requests into bounded batches before they
/// enter routing.
pub struct Batcher {
    batch_size: usize,
    batch_timeout_ms: u64,
    pending: Vec<InferenceRequest>,
    window_start_ms: u64,
}

impl Batcher {
    /// The members of the currently open window, in arrival order.
    pub closed spec fn spec_pending(&self) -> Seq<RequestModel> {
        self.pending.deep_view()
    }

    /// The configured maximum batch size.
    pub closed spec fn spec_batch_size(&self) -> int {
        self.batch_size as int
    }

    /// The configured window timeout in milliseconds.
    pub closed spec fn spec_timeout_ms(&self) -> u64 {
        self.batch_timeout_ms
    }

    /// The clock reading at which the open window was started.
    pub closed spec fn spec_window_start(&self) -> u64 {
        self.window_start_ms
    }

    /// A window is open and its timeout has elapsed at the given clock
    /// reading.
    pub open spec fn window_expired(&self, now_ms: u64) -> bool {
        &&& self.spec_pending().len() > 0
        &&& now_ms >= self.spec_window_start()
        &&& now_ms - self.spec_window_start() >= self.spec_timeout_ms()
    }

    /// A window never reaches the configured maximum without closing.
    pub open spec fn wf(&self) -> bool {
        &&& self.spec_batch_size() >= 1
        &&& self.spec_pending().len() < self.spec_batch_size()
    }

    /// A batcher with the given bounds and no open window.
    pub fn with_limits(batch_size: usize, batch_timeout_ms: u64) -> (r: Self)
        requires
            batch_size >= 1,
        ensures
            r.wf(),
            r.spec_batch_size() == batch_size,
            r.spec_timeout_ms() == batch_timeout_ms,
            r.spec_pending() == Seq::<RequestModel>::empty(),
    {
        let r = Self { batch_size, batch_timeout_ms, pending: Vec::new(), window_start_ms: 0 };
        proof {
            assert(r.spec_pending() =~= Seq::<RequestModel>::empty());
        }
        r
    }

    /// A batcher with the default bounds: at most ten requests per batch, a
    /// window of fifty milliseconds.
    pub fn new() -> (r: Self)
        ensures
            r.wf(),
            r.spec_batch_size() == 10,
            r.spec_timeout_ms() == 50,
            r.spec_pending() == Seq::<RequestModel>::empty(),
    {
        Self::with_limits(10, 50)
    }

    /// Accepts one arriving request at the given clock reading.
    ///
    /// An expired window is flushed first and the request starts the next
    /// window. Otherwise the request joins the open window (opening one at
    /// `now_ms` if none is), and the window closes at once when it reaches
    /// the maximum size. A returned batch always holds between one and the
    /// maximum number of requests, in arrival order.
    pub fn add_request(&mut self, request: InferenceRequest, now_ms: u64) -> (r: Option<
        Vec<InferenceRequest>,
    >)
        requires
            old(self).wf(),
        ensures
            final(self).wf(),
            final(self).spec_batch_size() == old(self).spec_batch_size(),
            final(self).spec_timeout_ms() == old(self).spec_timeout_ms(),
            r is Some <==> (old(self).window_expired(now_ms) || old(self).spec_pending().len()
                + 1 == old(self).spec_batch_size()),
            match r {
                Some(batch) => {
                    &&& 1 <= batch.deep_view().len() <= old(self).spec_batch_size()
                    &&& if old(self).window_expired(now_ms) {
                        &&& batch.deep_view() == old(self).spec_pending()
                        &&& final(self).spec_pending() == seq![request@]
                        &&& final(self).spec_window_start() == now_ms
                    } else {
                        &&& batch.deep_view() == old(self).spec_pending().push(request@)
                        &&& final(self).spec_pending() == Seq::<RequestModel>::empty()
                    }
                },
                None => {
                    &&& final(self).spec_pending() == old(self).spec_pending().push(request@)
                    &&& final(self).spec_window_start() == (
                    if old(self).spec_pending().len() == 0 {
                        now_ms
                    } else {
                        old(self).spec_window_start()
                    })
                },
            },
    {
        if self.pending.len() > 0 && now_ms >= self.window_start_ms && now_ms
            - self.window_start_ms >= self.batch_timeout_ms {
            let flushed = self.pending.split_off(0);
            proof {
                assert(flushed@ =~= old(self).pending@);
            }
            self.pending.push(request);
            self.window_start_ms = now_ms;
            proof {
                assert(flushed.deep_view() =~= old(self).spec_pending());
                assert(self.spec_pending() =~= seq![request@]);
            }
            return Some(flushed);
        }
        if self.pending.len() == 0 {
            self.window_start_ms = now_ms;
        }
        self.pending.push(request);
        proof {
            assert(self.spec_pending() =~= old(self).spec_pending().push(request@));
        }
        if self.pending.len() == self.batch_size {
            let batch = self.pending.split_off(0);
            proof {
                assert(batch.deep_view() =~= old(self).spec_pending().push(request@));
                assert(self.spec_pending() =~= Seq::<RequestModel>::empty());
            }
            return Some(batch);
        }
        None
    }

    /// Closes the open window if its timeout has elapsed at the given clock
    /// reading, handing over the partial batch in arrival order; otherwise
    /// changes nothing.
    pub fn poll(&mut self, now_ms: u64) -> (r: Option<Vec<InferenceRequest>>)
        requires
            old(self).wf(),
        ensures
            final(self).wf(),
            final(self).spec_batch_size() == old(self).spec_batch_size(),
            final(self).spec_timeout_ms() == old(self).spec_timeout_ms(),
            r is Some <==> old(self).window_expired(now_ms),
            match r {
                Some(batch) => {
                    &&& batch.deep_view() == old(self).spec_pending()
                    &&& 1 <= batch.deep_view().len() <= old(self).spec_batch_size()
                    &&& final(self).spec_pending() == Seq::<RequestModel>::empty()
                },
                None => *final(self) == *old(self),
            },
    {
        if self.pending.len() > 0 && now_ms >= self.window_start_ms && now_ms
            - self.window_start_ms >= self.batch_timeout_ms {
            let batch = self.pending.split_off(0);
            proof {
                assert(batch@ =~= old(self).pending@);
                assert(batch.deep_view() =~= old(self).spec_pending());
                assert(self.spec_pending() =~= Seq::<RequestModel>::empty());
            }
            return Some(batch);
        }
        None
    }
}

} // verus!
