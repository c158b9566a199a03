//! Injecting a fixed number of suspensions before every delivered item.

use vstd::prelude::*;

use crate::poll_stream::{PollOutcome, PullStream};

verus! {

/// The countdown at the heart of the pending-injection adapter: it is
/// charged to `pendings` at construction and after every delivered item,
/// and pays out one forced suspension per poll until it reaches zero.
///
/// This is the decision-free core of the adapter; a driver that polls an
/// upstream source itself can consult it one poll at a time.
#[derive(Debug)]
pub struct Countdown {
    remaining: usize,
    pendings: usize,
}

impl Countdown {
    #[verifier::type_invariant]
    pub closed spec fn inv(&self) -> bool {
        self.remaining <= self.pendings
    }

    /// The configured number of suspensions injected before each item.
    pub closed spec fn spec_pendings(&self) -> usize {
        self.pendings
    }

    /// How many forced suspensions are still owed before the next item.
    pub closed spec fn spec_countdown(&self) -> usize {
        self.remaining
    }

    pub fn new(pendings: usize) -> (r: Self)
        ensures
            r.spec_pendings() == pendings,
            r.spec_countdown() == pendings,
    {
        Countdown { remaining: pendings, pendings }
    }

    /// One poll arrives: report whether a suspension must be injected now
    /// (and count it off), or whether the upstream may be polled this turn.
    pub fn step(&mut self) -> (inject: bool)
        ensures
            final(self).spec_pendings() == old(self).spec_pendings(),
            inject == (old(self).spec_countdown() > 0),
            inject ==> final(self).spec_countdown() == old(self).spec_countdown() - 1,
            !inject ==> final(self).spec_countdown() == 0,
    {
        proof {
            use_type_invariant(&*self);
        }
        if self.remaining > 0 {
            self.remaining = self.remaining - 1;
            true
        } else {
            false
        }
    }

    /// An item was delivered: owe the full number of suspensions again.
    pub fn reset(&mut self)
        ensures
            final(self).spec_pendings() == old(self).spec_pendings(),
            final(self).spec_countdown() == old(self).spec_pendings(),
    {
        self.remaining = self.pendings;
    }
}

/// Makes the consumer of a stream observe a fixed number of suspensions
/// before every delivered item (including the first); after each delivery
/// the pattern repeats for the next item.  During an injected suspension the
/// upstream is not polled at all, so it makes no progress of its own.
/// Upstream exhaustion passes through at once, with no injected delay, and
/// the countdown is then never recharged: the adapter is terminal.
#[derive(Debug)]
pub struct AddPendings<S> where S: PullStream {
    stream: S,
    countdown: Countdown,
}

impl<S> AddPendings<S> where S: PullStream {
    /// The configured number of suspensions injected before each item.
    pub closed spec fn spec_pendings(&self) -> usize {
        self.countdown.spec_pendings()
    }

    /// How many forced suspensions are still owed before the next item.
    pub closed spec fn spec_countdown(&self) -> usize {
        self.countdown.spec_countdown()
    }

    /// The wrapped upstream stream, whole: a contract that promises it
    /// unchanged promises that it was not even polled.
    pub closed spec fn spec_upstream(&self) -> S {
        self.stream
    }

    pub fn new(stream: S, pendings: usize) -> (r: Self)
        ensures
            r.spec_can_suspend() == (pendings > 0 || stream.spec_can_suspend()),
            r.spec_remaining() == stream.spec_remaining(),
            r.spec_upstream() == stream,
            r.spec_pendings() == pendings,
            r.spec_countdown() == pendings,
    {
        AddPendings { stream, countdown: Countdown::new(pendings) }
    }

    /// Delay count, as one statement over a whole run: draining a fresh
    /// adapter whose upstream has every element at hand delivers exactly the
    /// upstream's items, and the consumer observes exactly `pendings`
    /// suspensions immediately before every delivered item — including the
    /// first — and, the last delivery having recharged the countdown, before
    /// the terminal signal as well.
    ///
    /// Returns the delivered items, paired with the number of suspensions
    /// observed before each delivery and before exhaustion.
    pub fn drain_with_delays(&mut self) -> (r: (Vec<S::Item>, Vec<usize>))
        requires
            !old(self).spec_upstream().spec_can_suspend(),
            old(self).spec_countdown() == old(self).spec_pendings(),
        ensures
            r.0.deep_view() == old(self).spec_remaining(),
            r.1@.len() == r.0@.len() + 1,
            forall|i: int| 0 <= i < r.1@.len() ==> r.1@[i] == old(self).spec_pendings(),
            final(self).spec_remaining().len() == 0,
    {
        let mut items: Vec<S::Item> = Vec::new();
        let mut delays: Vec<usize> = Vec::new();
        let mut current: usize = 0;
        loop
            invariant
                !self.spec_upstream().spec_can_suspend(),
                self.spec_pendings() == old(self).spec_pendings(),
                self.spec_countdown() <= self.spec_pendings(),
                current == old(self).spec_pendings() - self.spec_countdown(),
                items.deep_view() + self.spec_remaining() == old(self).spec_remaining(),
                delays@.len() == items@.len(),
                forall|i: int| 0 <= i < delays@.len() ==> delays@[i] == old(
                    self,
                ).spec_pendings(),
            decreases self.spec_remaining().len(), self.spec_countdown(),
        {
            let ghost pre_items = items.deep_view();
            match self.poll_next() {
                PollOutcome::Suspended => {
                    current = current + 1;
                },
                PollOutcome::Produced(t) => {
                    delays.push(current);
                    current = 0;
                    items.push(t);
                    proof {
                        assert(items.deep_view() =~= pre_items.push(t.deep_view()));
                        assert(items.deep_view() + self.spec_remaining() =~= old(
                            self,
                        ).spec_remaining());
                    }
                },
                PollOutcome::Finished => {
                    delays.push(current);
                    proof {
                        assert(items.deep_view() + self.spec_remaining() =~= items.deep_view());
                    }
                    return (items, delays);
                },
            }
        }
    }
}

impl<S> PullStream for AddPendings<S> where S: PullStream {
    type Item = S::Item;

    /// Delay changes nothing about which items will come: the model is the
    /// upstream's.
    closed spec fn spec_remaining(&self) -> Seq<<S::Item as DeepView>::V> {
        self.stream.spec_remaining()
    }

    /// With a positive configuration the adapter suspends by itself; with
    /// none it suspends only where its upstream does.
    closed spec fn spec_can_suspend(&self) -> bool {
        self.countdown.spec_pendings() > 0 || self.stream.spec_can_suspend()
    }

    /// While the countdown is positive, suspend without touching the
    /// upstream and count one suspension off; at zero, poll the upstream and
    /// pass its outcome through, recharging the countdown exactly when an
    /// item is delivered.
    fn poll_next(&mut self) -> (r: PollOutcome<S::Item>)
        ensures
            final(self).spec_pendings() == old(self).spec_pendings(),
            final(self).spec_countdown() <= final(self).spec_pendings(),
            old(self).spec_countdown() > 0 ==> r is Suspended && final(self).spec_countdown()
                == old(self).spec_countdown() - 1 && final(self).spec_upstream() == old(
                self,
            ).spec_upstream(),
            r is Produced ==> old(self).spec_countdown() == 0 && final(self).spec_countdown()
                == old(self).spec_pendings(),
            final(self).spec_upstream().spec_can_suspend() == old(
                self,
            ).spec_upstream().spec_can_suspend(),
            old(self).spec_countdown() == 0 && !(r is Produced) ==> final(self).spec_countdown()
                == 0,
            old(self).spec_countdown() == 0 && r is Suspended ==> old(
                self,
            ).spec_upstream().spec_can_suspend(),
            r is Finished ==> old(self).spec_countdown() == 0,
    {
        proof {
            use_type_invariant(&self.countdown);
        }
        let inject = self.countdown.step();
        if inject {
            PollOutcome::Suspended
        } else {
            match self.stream.poll_next() {
                PollOutcome::Suspended => PollOutcome::Suspended,
                PollOutcome::Finished => PollOutcome::Finished,
                PollOutcome::Produced(t) => {
                    self.countdown.reset();
                    PollOutcome::Produced(t)
                },
            }
        }
    }
}

} // verus!
