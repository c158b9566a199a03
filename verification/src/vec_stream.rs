//! A stream that yields the elements of a vector in order.

use vstd::prelude::*;

use crate::poll_stream::{PollOutcome, PullStream};

verus! {

/// A finite stream backed by a vector; it yields the elements in order,
/// never suspends, and reports exhaustion once all elements are gone.
#[derive(Debug)]
pub struct VecStream<T> {
    items: Vec<T>,
}

impl<T: DeepView> VecStream<T> {
    pub fn new(items: Vec<T>) -> (r: Self)
        ensures
            r.spec_remaining() == items.deep_view(),
            !r.spec_can_suspend(),
    {
        VecStream { items }
    }
}

impl<T: DeepView> PullStream for VecStream<T> {
    type Item = T;

    closed spec fn spec_remaining(&self) -> Seq<<T as DeepView>::V> {
        self.items.deep_view()
    }

    /// A vector stream has every element at hand.
    closed spec fn spec_can_suspend(&self) -> bool {
        false
    }

    fn poll_next(&mut self) -> (r: PollOutcome<T>) {
        if self.items.len() == 0 {
            PollOutcome::Finished
        } else {
            let t = self.items.remove(0);
            proof {
                assert(self.items.deep_view() =~= old(self).items.deep_view().drop_first()) by {
                    assert forall|i: int| 0 <= i < self.items@.len() implies self.items.deep_view()[i]
                        == old(self).items.deep_view().drop_first()[i] by {
                        assert(self.items@[i] == old(self).items@[i + 1]);
                    }
                }
            }
            PollOutcome::Produced(t)
        }
    }
}

} // verus!
