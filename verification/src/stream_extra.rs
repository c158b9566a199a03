//! Chainable combinators over any lazy pull-based stream.

use vstd::prelude::*;

use crate::add_pendings::AddPendings;
use crate::poll_stream::{PullStream, Separator};
use crate::split::{split_batches, Split};

verus! {

/// An extension trait for [`PullStream`] that exposes the adapters of this
/// crate as chainable combinator methods, so that consumers can write fluent
/// pipelines such as `source.split(sep).add_pendings(n)`.
pub trait StreamExtra: PullStream + Sized {
    /// Splits this stream's items at separator items.  The returned stream
    /// delivers, in order, the runs of non-separator items between
    /// separators, each as one vector; separators are consumed, never
    /// delivered.  A run may be empty, as between two consecutive
    /// separators; a final non-empty run is delivered once this stream is
    /// exhausted.
    fn split<P: Separator<Self::Item>>(self, is_separator: P) -> (r: Split<Self, P>)
        ensures
            r.spec_can_suspend() == self.spec_can_suspend(),
            r.spec_upstream_items() == self.spec_remaining(),
            forall|v: <Self::Item as DeepView>::V| #[trigger] r.spec_separator()(v)
                == is_separator.spec_is_separator(v),
            r.spec_buffer() == Seq::<<Self::Item as DeepView>::V>::empty(),
            r.spec_remaining() == split_batches(
                self.spec_remaining(),
                r.spec_separator(),
                Seq::<<Self::Item as DeepView>::V>::empty(),
            ),
    {
        Split::new(self, is_separator)
    }

    /// Makes the consumer observe `pendings` suspensions before every item
    /// this stream delivers, including the first; the pattern repeats after
    /// each delivery.  With `pendings == 0` the stream passes through
    /// unchanged.
    fn add_pendings(self, pendings: usize) -> (r: AddPendings<Self>)
        ensures
            r.spec_can_suspend() == (pendings > 0 || self.spec_can_suspend()),
            r.spec_remaining() == self.spec_remaining(),
            r.spec_upstream() == self,
            r.spec_pendings() == pendings,
            r.spec_countdown() == pendings,
    {
        AddPendings::new(self, pendings)
    }
}

impl<T> StreamExtra for T where T: PullStream {

}

} // verus!
