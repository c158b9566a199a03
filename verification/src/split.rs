//! Splitting a stream of items into separator-delimited batches.

use vstd::prelude::*;

use crate::poll_stream::{PollOutcome, PullStream, Separator};

verus! {

/// The batches that a splitter will deliver, given the items `upstream` has
/// yet to produce, the separator predicate `sep`, and the items `buf` already
/// buffered since the last delivered batch.
///
/// Each separator ends the current batch (a batch may be empty, as between
/// two consecutive separators); once the upstream is exhausted, a final
/// non-empty buffer is delivered as one last batch, while an empty buffer
/// ends the output with no extra batch.
pub open spec fn split_batches<A>(upstream: Seq<A>, sep: spec_fn(A) -> bool, buf: Seq<A>) -> Seq<
    Seq<A>,
>
    decreases upstream.len(),
{
    if upstream.len() == 0 {
        if buf.len() == 0 {
            Seq::empty()
        } else {
            seq![buf]
        }
    } else if sep(upstream[0]) {
        seq![buf] + split_batches(upstream.drop_first(), sep, Seq::empty())
    } else {
        split_batches(upstream.drop_first(), sep, buf.push(upstream[0]))
    }
}

/// The items of `s` that are not separators, in order.
pub open spec fn data_items<A>(s: Seq<A>, sep: spec_fn(A) -> bool) -> Seq<A>
    decreases s.len(),
{
    if s.len() == 0 {
        Seq::empty()
    } else if sep(s[0]) {
        data_items(s.drop_first(), sep)
    } else {
        seq![s[0]] + data_items(s.drop_first(), sep)
    }
}

/// The number of separators among the items of `s`.
pub open spec fn separator_count<A>(s: Seq<A>, sep: spec_fn(A) -> bool) -> nat
    decreases s.len(),
{
    if s.len() == 0 {
        0nat
    } else if sep(s[0]) {
        1nat + separator_count(s.drop_first(), sep)
    } else {
        separator_count(s.drop_first(), sep)
    }
}

/// The run of data items after the last separator of `s` — the splitter's
/// buffer at upstream exhaustion — starting from a buffer `buf`.
pub open spec fn trailing_run<A>(s: Seq<A>, sep: spec_fn(A) -> bool, buf: Seq<A>) -> Seq<A>
    decreases s.len(),
{
    if s.len() == 0 {
        buf
    } else if sep(s[0]) {
        trailing_run(s.drop_first(), sep, Seq::empty())
    } else {
        trailing_run(s.drop_first(), sep, buf.push(s[0]))
    }
}

/// The items of all batches of `bs`, concatenated in order.
pub open spec fn concat_batches<A>(bs: Seq<Seq<A>>) -> Seq<A>
    decreases bs.len(),
{
    if bs.len() == 0 {
        Seq::empty()
    } else {
        bs[0] + concat_batches(bs.drop_first())
    }
}

/// The batches of `bs` joined back into one sequence, with the value `c`
/// inserted between consecutive batches.
pub open spec fn rejoin_batches<A>(bs: Seq<Seq<A>>, c: A) -> Seq<A>
    decreases bs.len(),
{
    if bs.len() == 0 {
        Seq::empty()
    } else if bs.len() == 1 {
        bs[0]
    } else {
        bs[0] + seq![c] + rejoin_batches(bs.drop_first(), c)
    }
}

/// `s` with every separator replaced by the value `c`.
pub open spec fn mask_separators<A>(s: Seq<A>, sep: spec_fn(A) -> bool, c: A) -> Seq<A>
    decreases s.len(),
{
    if s.len() == 0 {
        Seq::empty()
    } else if sep(s[0]) {
        seq![c] + mask_separators(s.drop_first(), sep, c)
    } else {
        seq![s[0]] + mask_separators(s.drop_first(), sep, c)
    }
}

/// Batch reconstruction, data half: concatenating all batches that the
/// splitter delivers yields exactly the non-separator items, in order —
/// nothing is lost and nothing is added.
pub proof fn lemma_split_concat<A>(upstream: Seq<A>, sep: spec_fn(A) -> bool, buf: Seq<A>)
    ensures
        concat_batches(split_batches(upstream, sep, buf)) =~= buf + data_items(upstream, sep),
    decreases upstream.len(),
{
    if upstream.len() == 0 {
        if buf.len() == 0 {
            assert(concat_batches(split_batches(upstream, sep, buf)) =~= buf + data_items(
                upstream,
                sep,
            ));
        } else {
            assert(split_batches(upstream, sep, buf) == seq![buf]);
            assert(seq![buf].drop_first() =~= Seq::<Seq<A>>::empty());
            assert(concat_batches(Seq::<Seq<A>>::empty()) == Seq::<A>::empty());
            assert(concat_batches(seq![buf]) =~= buf + data_items(upstream, sep));
        }
    } else if sep(upstream[0]) {
        lemma_split_concat(upstream.drop_first(), sep, Seq::empty());
        let rest = split_batches(upstream.drop_first(), sep, Seq::empty());
        assert((seq![buf] + rest).drop_first() =~= rest);
        assert(concat_batches(seq![buf] + rest) =~= buf + concat_batches(rest));
        assert(concat_batches(split_batches(upstream, sep, buf)) =~= buf + data_items(
            upstream,
            sep,
        ));
    } else {
        lemma_split_concat(upstream.drop_first(), sep, buf.push(upstream[0]));
        assert(buf.push(upstream[0]) + data_items(upstream.drop_first(), sep) =~= buf + data_items(
            upstream,
            sep,
        ));
    }
}

/// Batch count: the splitter delivers exactly one batch per separator, plus
/// one final batch exactly when a non-empty trailing run is left in the
/// buffer at upstream exhaustion.
pub proof fn lemma_split_count<A>(upstream: Seq<A>, sep: spec_fn(A) -> bool, buf: Seq<A>)
    ensures
        split_batches(upstream, sep, buf).len() == separator_count(upstream, sep) + (
        if trailing_run(upstream, sep, buf).len() > 0 {
            1nat
        } else {
            0nat
        }),
    decreases upstream.len(),
{
    if upstream.len() == 0 {
    } else if sep(upstream[0]) {
        lemma_split_count(upstream.drop_first(), sep, Seq::empty());
    } else {
        lemma_split_count(upstream.drop_first(), sep, buf.push(upstream[0]));
    }
}

/// A sequence that does not end with a separator leaves a non-empty buffer
/// behind once it is drained.
proof fn lemma_trailing_nonempty<A>(upstream: Seq<A>, sep: spec_fn(A) -> bool, buf: Seq<A>)
    requires
        upstream.len() > 0,
        !sep(upstream.last()),
    ensures
        trailing_run(upstream, sep, buf).len() > 0,
    decreases upstream.len(),
{
    if upstream.len() == 1 {
        assert(upstream[0] == upstream.last());
        assert(upstream.drop_first() =~= Seq::<A>::empty());
        assert(trailing_run(Seq::<A>::empty(), sep, buf.push(upstream[0])) == buf.push(
            upstream[0],
        ));
    } else {
        assert(upstream.drop_first().last() == upstream.last());
        if sep(upstream[0]) {
            lemma_trailing_nonempty(upstream.drop_first(), sep, Seq::empty());
        } else {
            lemma_trailing_nonempty(upstream.drop_first(), sep, buf.push(upstream[0]));
        }
    }
}

/// Batch reconstruction, round trip: as long as the input does not end with
/// a separator, re-inserting one separator value between consecutive
/// delivered batches reproduces the whole input — up to separator identity,
/// i.e. with every separator item standing as the chosen value `c`.
///
/// An input that ends with a separator (such as one lone separator) loses
/// that trailing separator in the round trip, so it is left out here.
pub proof fn lemma_split_rejoin<A>(upstream: Seq<A>, sep: spec_fn(A) -> bool, buf: Seq<A>, c: A)
    requires
        upstream.len() > 0 ==> !sep(upstream.last()),
    ensures
        rejoin_batches(split_batches(upstream, sep, buf), c) =~= buf + mask_separators(
            upstream,
            sep,
            c,
        ),
    decreases upstream.len(),
{
    if upstream.len() == 0 {
        if buf.len() == 0 {
        } else {
            assert(split_batches(upstream, sep, buf) == seq![buf]);
        }
    } else if sep(upstream[0]) {
        assert(upstream.len() >= 2) by {
            if upstream.len() == 1 {
                assert(upstream[0] == upstream.last());
            }
        }
        assert(upstream.drop_first().last() == upstream.last());
        lemma_split_rejoin(upstream.drop_first(), sep, Seq::empty(), c);
        let rest = split_batches(upstream.drop_first(), sep, Seq::<A>::empty());
        assert(rest.len() >= 1) by {
            lemma_trailing_nonempty(upstream.drop_first(), sep, Seq::empty());
            lemma_split_count(upstream.drop_first(), sep, Seq::empty());
        }
        assert((seq![buf] + rest).drop_first() =~= rest);
        assert((seq![buf] + rest).len() >= 2);
        assert(rejoin_batches(seq![buf] + rest, c) =~= buf + seq![c] + rejoin_batches(rest, c));
    } else {
        if upstream.len() >= 2 {
            assert(upstream.drop_first().last() == upstream.last());
        }
        lemma_split_rejoin(upstream.drop_first(), sep, buf.push(upstream[0]), c);
        assert(buf.push(upstream[0]) + mask_separators(upstream.drop_first(), sep, c) =~= buf
            + mask_separators(upstream, sep, c));
    }
}

/// The accumulation buffer of a splitter, with its two transitions: append a
/// data item, or give the buffered run away as one batch.
///
/// This is the decision-free core of the splitter; a driver that polls an
/// upstream source itself can feed it one event at a time.
#[derive(Debug)]
pub struct Batcher<T> {
    items: Vec<T>,
}

impl<T> Batcher<T> {
    /// The buffered items.
    pub closed spec fn spec_buffer(&self) -> Seq<T> {
        self.items@
    }

    pub fn new() -> (r: Self)
        ensures
            r.spec_buffer() == Seq::<T>::empty(),
    {
        Batcher { items: Vec::new() }
    }

    pub fn is_empty(&self) -> (r: bool)
        ensures
            r == (self.spec_buffer().len() == 0),
    {
        self.items.len() == 0
    }

    /// Append a non-separator item to the current batch.
    pub fn push_item(&mut self, t: T)
        ensures
            final(self).spec_buffer() == old(self).spec_buffer().push(t),
    {
        self.items.push(t);
    }

    /// Hand the buffered run out as one batch (possibly empty) and start the
    /// next batch empty.
    pub fn take_batch(&mut self) -> (r: Vec<T>)
        ensures
            r@ == old(self).spec_buffer(),
            final(self).spec_buffer() == Seq::<T>::empty(),
    {
        let mut xs: Vec<T> = Vec::new();
        core::mem::swap(&mut self.items, &mut xs);
        xs
    }

    /// On upstream exhaustion: deliver a final non-empty buffer as one last
    /// batch, or report that nothing is left.
    pub fn flush(&mut self) -> (r: Option<Vec<T>>)
        ensures
            match r {
                Option::None => old(self).spec_buffer().len() == 0 && final(self).spec_buffer()
                    == old(self).spec_buffer(),
                Option::Some(xs) => old(self).spec_buffer().len() > 0 && xs@ == old(
                    self,
                ).spec_buffer() && final(self).spec_buffer() == Seq::<T>::empty(),
            },
    {
        if self.is_empty() {
            Option::None
        } else {
            Option::Some(self.take_batch())
        }
    }
}

/// Splits an upstream stream of items at separator items: the output stream
/// delivers, in order, the runs of non-separator items between separators,
/// each as one vector.  Separators are consumed, never delivered.
#[derive(Debug)]
pub struct Split<S, P> where S: PullStream, P: Separator<S::Item> {
    stream: S,
    is_separator: P,
    items: Batcher<S::Item>,
}

impl<S, P> Split<S, P> where S: PullStream, P: Separator<S::Item> {
    /// The separator predicate, as a mathematical predicate on item values.
    pub closed spec fn spec_separator(&self) -> spec_fn(<S::Item as DeepView>::V) -> bool {
        |v: <S::Item as DeepView>::V| self.is_separator.spec_is_separator(v)
    }

    /// The items buffered since the last delivered batch, as mathematical
    /// values.
    pub closed spec fn spec_buffer(&self) -> Seq<<S::Item as DeepView>::V> {
        self.items.spec_buffer().map_values(|t: S::Item| t.deep_view())
    }

    /// The items the wrapped upstream has yet to produce.
    pub closed spec fn spec_upstream_items(&self) -> Seq<<S::Item as DeepView>::V> {
        self.stream.spec_remaining()
    }

    pub fn new(stream: S, is_separator: P) -> (r: Self)
        ensures
            r.spec_can_suspend() == stream.spec_can_suspend(),
            r.spec_upstream_items() == stream.spec_remaining(),
            forall|v: <S::Item as DeepView>::V| #[trigger] r.spec_separator()(v)
                == is_separator.spec_is_separator(v),
            r.spec_buffer() == Seq::<<S::Item as DeepView>::V>::empty(),
            r.spec_remaining() == split_batches(
                stream.spec_remaining(),
                r.spec_separator(),
                Seq::<<S::Item as DeepView>::V>::empty(),
            ),
    {
        Split { stream, is_separator, items: Batcher::new() }
    }
}

impl<S, P> PullStream for Split<S, P> where S: PullStream, P: Separator<S::Item> {
    type Item = Vec<S::Item>;

    /// The batches still to be delivered: what `split_batches` says of the
    /// upstream's remaining items and the current buffer.
    closed spec fn spec_remaining(&self) -> Seq<Seq<<S::Item as DeepView>::V>> {
        split_batches(self.stream.spec_remaining(), self.spec_separator(), self.spec_buffer())
    }

    /// The splitter suspends only where its upstream does.
    closed spec fn spec_can_suspend(&self) -> bool {
        self.stream.spec_can_suspend()
    }

    /// Drains the upstream until a batch boundary, an upstream suspension, or
    /// upstream exhaustion is reached.  A suspension is propagated without
    /// touching the buffer; exhaustion with a non-empty buffer delivers that
    /// buffer as one final batch.
    fn poll_next(&mut self) -> (r: PollOutcome<Vec<S::Item>>)
        ensures
            final(self).spec_separator() == old(self).spec_separator(),
            r is Finished ==> final(self).spec_upstream_items().len() == 0
                && final(self).spec_buffer().len() == 0,
    {
        loop
            invariant
                self.is_separator == old(self).is_separator,
                self.spec_remaining() == old(self).spec_remaining(),
                self.spec_can_suspend() == old(self).spec_can_suspend(),
            decreases self.stream.spec_remaining().len(),
        {
            let ghost pre = *self;
            match self.stream.poll_next() {
                PollOutcome::Suspended => {
                    return PollOutcome::Suspended;
                },
                PollOutcome::Finished => {
                    if self.items.is_empty() {
                        return PollOutcome::Finished;
                    } else {
                        let xs = self.items.take_batch();
                        proof {
                            assert(xs.deep_view() =~= pre.spec_buffer());
                            assert(self.spec_buffer() =~= Seq::<
                                <S::Item as DeepView>::V,
                            >::empty());
                            assert(pre.spec_remaining() =~= seq![xs.deep_view()]);
                            assert(self.spec_remaining() =~= pre.spec_remaining().drop_first());
                        }
                        return PollOutcome::Produced(xs);
                    }
                },
                PollOutcome::Produced(t) => {
                    if self.is_separator.is_separator(&t) {
                        let xs = self.items.take_batch();
                        proof {
                            assert(xs.deep_view() =~= pre.spec_buffer());
                            assert(self.spec_buffer() =~= Seq::<
                                <S::Item as DeepView>::V,
                            >::empty());
                            assert(pre.spec_remaining() == seq![xs.deep_view()] + split_batches(
                                self.stream.spec_remaining(),
                                self.spec_separator(),
                                Seq::<<S::Item as DeepView>::V>::empty(),
                            ));
                            assert(pre.spec_remaining()[0] == xs.deep_view());
                            assert(self.spec_remaining() =~= pre.spec_remaining().drop_first());
                        }
                        return PollOutcome::Produced(xs);
                    } else {
                        self.items.push_item(t);
                        proof {
                            assert(self.spec_buffer() =~= pre.spec_buffer().push(t.deep_view()));
                            assert(self.spec_remaining() == pre.spec_remaining());
                        }
                    }
                },
            }
        }
    }
}

} // verus!
