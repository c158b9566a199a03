//! The lazy pull-based sequence abstraction that the adapters wrap.

use vstd::prelude::*;

verus! {

/// Outcome of one attempt to pull the next element from a lazy sequence.
#[derive(Debug)]
pub enum PollOutcome<T> {
    /// The element is not ready yet; the driver must poll again later.
    Suspended,
    /// The next element of the sequence.
    Produced(T),
    /// The sequence is exhausted; no further element will ever come.
    Finished,
}

/// A lazy pull-based sequence.
///
/// `spec_remaining` is the mathematical model of a stream: the sequence of
/// element values (deep views) it has yet to produce.  `poll_next` is the
/// single operation of the abstraction.  Its contract ties every outcome to
/// the model: a suspension leaves the model unchanged, a produced element is
/// the head of the model, and exhaustion is only reported once the model is
/// empty and is then permanent at the model level.
pub trait PullStream {
    type Item: DeepView;

    /// The elements this stream has yet to produce, as mathematical values.
    spec fn spec_remaining(&self) -> Seq<<Self::Item as DeepView>::V>;

    /// Whether this stream may ever report a suspension.  A stream for which
    /// this is false — such as one backed by a vector — answers every poll
    /// with an element or with exhaustion, and so do adapters over it that
    /// inject no suspensions of their own.
    spec fn spec_can_suspend(&self) -> bool;

    fn poll_next(&mut self) -> (r: PollOutcome<Self::Item>)
        ensures
            final(self).spec_can_suspend() == old(self).spec_can_suspend(),
            r is Suspended ==> old(self).spec_can_suspend(),
            match r {
                PollOutcome::Suspended => final(self).spec_remaining()
                    == old(self).spec_remaining(),
                PollOutcome::Produced(t) => old(self).spec_remaining().len() > 0
                    && t.deep_view() == old(self).spec_remaining()[0]
                    && final(self).spec_remaining() == old(self).spec_remaining().drop_first(),
                PollOutcome::Finished => old(self).spec_remaining().len() == 0
                    && final(self).spec_remaining() == old(self).spec_remaining(),
            },
    ;
}

/// A separator predicate over a stream's items.
///
/// The predicate is invoked with a read-only reference and must be a pure
/// function of the item's value: `spec_is_separator` is its meaning, and the
/// executable `is_separator` agrees with it.
pub trait Separator<T: DeepView> {
    /// Whether an item with value `v` is a separator.
    spec fn spec_is_separator(&self, v: <T as DeepView>::V) -> bool;

    fn is_separator(&self, t: &T) -> (r: bool)
        ensures
            r == self.spec_is_separator(t.deep_view()),
    ;
}

/// Drains a stream that has every element at hand — one that never
/// suspends — and returns all its remaining elements, in order.
///
/// Applied to a splitter over such a stream, this yields exactly the
/// batches that `split_batches` names, so the batch-reconstruction and
/// batch-count laws speak about the vector it returns.
pub fn collect_remaining<S: PullStream>(s: &mut S) -> (r: Vec<S::Item>)
    requires
        !old(s).spec_can_suspend(),
    ensures
        r.deep_view() == old(s).spec_remaining(),
        final(s).spec_remaining().len() == 0,
{
    let mut items: Vec<S::Item> = Vec::new();
    loop
        invariant
            !s.spec_can_suspend(),
            items.deep_view() + s.spec_remaining() == old(s).spec_remaining(),
        decreases s.spec_remaining().len(),
    {
        let ghost pre_items = items.deep_view();
        match s.poll_next() {
            PollOutcome::Suspended => {
                proof {
                    assert(false);
                }
            },
            PollOutcome::Produced(t) => {
                items.push(t);
                proof {
                    assert(items.deep_view() =~= pre_items.push(t.deep_view()));
                    assert(items.deep_view() + s.spec_remaining() =~= old(s).spec_remaining());
                }
            },
            PollOutcome::Finished => {
                proof {
                    assert(items.deep_view() + s.spec_remaining() =~= items.deep_view());
                }
                return items;
            },
        }
    }
}

/// A separator predicate that marks every item equal to a given number.
pub struct EqSeparator {
    value: u64,
}

impl EqSeparator {
    pub closed spec fn spec_value(&self) -> u64 {
        self.value
    }

    pub fn new(value: u64) -> (r: Self)
        ensures
            r.spec_value() == value,
    {
        EqSeparator { value }
    }
}

impl Separator<u64> for EqSeparator {
    open spec fn spec_is_separator(&self, v: u64) -> bool {
        v == self.spec_value()
    }

    fn is_separator(&self, t: &u64) -> (r: bool) {
        *t == self.value
    }
}

/// A separator predicate that marks every item equal to a given string.
pub struct StrSeparator {
    value: String,
}

impl StrSeparator {
    pub closed spec fn spec_value(&self) -> Seq<char> {
        self.value@
    }

    pub fn new(value: String) -> (r: Self)
        ensures
            r.spec_value() == value@,
    {
        StrSeparator { value }
    }
}

impl Separator<String> for StrSeparator {
    open spec fn spec_is_separator(&self, v: Seq<char>) -> bool {
        v == self.spec_value()
    }

    fn is_separator(&self, t: &String) -> (r: bool) {
        self.value == *t
    }
}

} // verus!
