use stream_extra::poll_stream::{
    collect_remaining, EqSeparator, PollOutcome, PullStream, Separator, StrSeparator,
};
use stream_extra::stream_extra::StreamExtra;
use stream_extra::vec_stream::VecStream;

/// Polls `s` until it reports exhaustion, returning the delivered items and
/// the number of suspensions observed before each delivery and before the
/// terminal signal.
fn drain<S: PullStream>(s: &mut S) -> (Vec<S::Item>, Vec<usize>) {
    let mut items = Vec::new();
    let mut suspensions = Vec::new();
    let mut current: usize = 0;
    loop {
        match s.poll_next() {
            PollOutcome::Suspended => {
                current += 1;
                assert!(current <= 1000, "stream suspends without end");
            }
            PollOutcome::Produced(t) => {
                items.push(t);
                suspensions.push(current);
                current = 0;
            }
            PollOutcome::Finished => {
                suspensions.push(current);
                return (items, suspensions);
            }
        }
    }
}

fn is_separator(s: &str) -> bool {
    s == "\n"
}

#[test]
fn split_() {
    let src = vec!["1234", "4567", "\n", "1020", "\n", "\n"];
    assert!(is_separator(src[2]));
    let owned: Vec<String> = src.iter().map(|s| s.to_string()).collect();
    let mut stream = VecStream::new(owned).split(StrSeparator::new("\n".to_string()));
    let (xs, _) = drain(&mut stream);
    assert_eq!(3, xs.len());

    let src = vec!["1234", "4567", "\n", "1020", "\n", "\n"];
    let owned: Vec<String> = src.iter().map(|s| s.to_string()).collect();
    let mut stream = VecStream::new(owned).split(StrSeparator::new("\n".to_string()));
    let (all, _) = drain(&mut stream);
    let xs: Vec<Vec<String>> = all.into_iter().filter(|xs| !xs.is_empty()).collect();
    assert_eq!(2, xs.len());
}

#[test]
fn add_pendings_() {
    let src = vec![1, 2, 3];
    let mut stream = VecStream::new(src).add_pendings(1);
    let (xs, suspensions) = drain(&mut stream);
    assert_eq!(vec![1, 2, 3], xs);
    // one injected suspension before each item, and one more before the
    // upstream is seen to be exhausted, since the last delivery recharged
    // the countdown
    assert_eq!(vec![1, 1, 1, 1], suspensions);
}

#[test]
fn split_count_example() {
    let mut stream = VecStream::new(vec![1u64, 2, 0, 3, 4, 0]).split(EqSeparator::new(0));
    let (xs, _) = drain(&mut stream);
    assert_eq!(vec![vec![1u64, 2], vec![3, 4]], xs);
}

#[test]
fn split_trailing_flush() {
    let mut stream = VecStream::new(vec![1u64, 2, 0, 3]).split(EqSeparator::new(0));
    let (xs, _) = drain(&mut stream);
    assert_eq!(vec![vec![1u64, 2], vec![3]], xs);
}

#[test]
fn split_empty_input() {
    let mut stream = VecStream::new(Vec::<u64>::new()).split(EqSeparator::new(0));
    assert!(matches!(stream.poll_next(), PollOutcome::Finished));
    assert!(matches!(stream.poll_next(), PollOutcome::Finished));
}

#[test]
fn split_consecutive_separators() {
    let mut stream = VecStream::new(vec![0u64, 0]).split(EqSeparator::new(0));
    let (xs, _) = drain(&mut stream);
    assert_eq!(vec![Vec::<u64>::new(), Vec::<u64>::new()], xs);
}

#[test]
fn split_never_suspends_over_vec() {
    let mut stream = VecStream::new(vec![9u64, 0, 9]).split(EqSeparator::new(0));
    let (xs, suspensions) = drain(&mut stream);
    assert_eq!(vec![vec![9u64], vec![9]], xs);
    assert_eq!(vec![0, 0, 0], suspensions);
}

#[test]
fn pendings_delay_count() {
    let mut stream = VecStream::new(vec![10u64, 20]).add_pendings(2);
    assert!(matches!(stream.poll_next(), PollOutcome::Suspended));
    assert!(matches!(stream.poll_next(), PollOutcome::Suspended));
    assert!(matches!(stream.poll_next(), PollOutcome::Produced(10)));
    assert!(matches!(stream.poll_next(), PollOutcome::Suspended));
    assert!(matches!(stream.poll_next(), PollOutcome::Suspended));
    assert!(matches!(stream.poll_next(), PollOutcome::Produced(20)));
    // The countdown was recharged by the last delivery, so it still runs off
    // before the upstream is consulted one final time.
    assert!(matches!(stream.poll_next(), PollOutcome::Suspended));
    assert!(matches!(stream.poll_next(), PollOutcome::Suspended));
    assert!(matches!(stream.poll_next(), PollOutcome::Finished));
}

#[test]
fn pendings_zero_passthrough() {
    let mut stream = VecStream::new(vec![1u64, 2, 3]).add_pendings(0);
    let (xs, suspensions) = drain(&mut stream);
    assert_eq!(vec![1u64, 2, 3], xs);
    assert_eq!(vec![0, 0, 0, 0], suspensions);
}

#[test]
fn pendings_exhaustion_is_terminal() {
    let mut stream = VecStream::new(Vec::<u64>::new()).add_pendings(3);
    assert!(matches!(stream.poll_next(), PollOutcome::Suspended));
    assert!(matches!(stream.poll_next(), PollOutcome::Suspended));
    assert!(matches!(stream.poll_next(), PollOutcome::Suspended));
    assert!(matches!(stream.poll_next(), PollOutcome::Finished));
    // The countdown is not recharged by exhaustion: the terminal signal
    // repeats with no injected delay before it.
    assert!(matches!(stream.poll_next(), PollOutcome::Finished));
    assert!(matches!(stream.poll_next(), PollOutcome::Finished));
}

#[test]
fn chained_pipeline() {
    let mut stream = VecStream::new(vec![1u64, 2, 0, 3]).split(EqSeparator::new(0)).add_pendings(1);
    assert!(matches!(stream.poll_next(), PollOutcome::Suspended));
    match stream.poll_next() {
        PollOutcome::Produced(b) => assert_eq!(vec![1u64, 2], b),
        _ => panic!("expected a batch"),
    }
    assert!(matches!(stream.poll_next(), PollOutcome::Suspended));
    match stream.poll_next() {
        PollOutcome::Produced(b) => assert_eq!(vec![3u64], b),
        _ => panic!("expected a batch"),
    }
    assert!(matches!(stream.poll_next(), PollOutcome::Suspended));
    assert!(matches!(stream.poll_next(), PollOutcome::Finished));
}

#[test]
fn collect_remaining_gathers_batches() {
    let mut stream = VecStream::new(vec![1u64, 2, 0, 3]).split(EqSeparator::new(0));
    let batches = collect_remaining(&mut stream);
    assert_eq!(vec![vec![1u64, 2], vec![3]], batches);
    assert!(matches!(stream.poll_next(), PollOutcome::Finished));
}

#[test]
fn drain_with_delays_counts_suspensions() {
    let mut stream = VecStream::new(vec![1u64, 2, 3]).add_pendings(2);
    let (items, delays) = stream.drain_with_delays();
    assert_eq!(vec![1u64, 2, 3], items);
    assert_eq!(vec![2usize, 2, 2, 2], delays);
}

#[test]
fn split_round_trip_reconstruction() {
    // the input does not end with a separator, so re-inserting the
    // separator between consecutive batches reproduces it exactly
    let input = vec![5u64, 6, 0, 7];
    let mut stream = VecStream::new(input.clone()).split(EqSeparator::new(0));
    let (batches, _) = drain(&mut stream);
    let mut rejoined: Vec<u64> = Vec::new();
    for (i, batch) in batches.iter().enumerate() {
        if i > 0 {
            rejoined.push(0);
        }
        rejoined.extend_from_slice(batch);
    }
    assert_eq!(input, rejoined);
}

#[test]
fn split_concatenation_keeps_all_data_items() {
    // even with a trailing separator, the batches hold exactly the
    // non-separator items, in order
    let input = vec![1u64, 0, 2, 0];
    let mut stream = VecStream::new(input.clone()).split(EqSeparator::new(0));
    let (batches, _) = drain(&mut stream);
    let concatenated: Vec<u64> = batches.into_iter().flatten().collect();
    let data: Vec<u64> = input.into_iter().filter(|x| *x != 0).collect();
    assert_eq!(data, concatenated);
}

#[test]
fn batcher_transitions() {
    let mut b = stream_extra::split::Batcher::new();
    assert!(b.is_empty());
    assert!(b.flush().is_none());
    b.push_item(1u64);
    b.push_item(2u64);
    assert!(!b.is_empty());
    assert_eq!(vec![1u64, 2], b.take_batch());
    assert!(b.is_empty());
    b.push_item(3u64);
    assert_eq!(Some(vec![3u64]), b.flush());
    assert!(b.flush().is_none());
}

#[test]
fn countdown_transitions() {
    let mut c = stream_extra::add_pendings::Countdown::new(2);
    assert!(c.step());
    assert!(c.step());
    assert!(!c.step());
    assert!(!c.step());
    c.reset();
    assert!(c.step());
    assert!(c.step());
    assert!(!c.step());
}

#[test]
fn separators_compare_by_value() {
    let sep = EqSeparator::new(7);
    assert!(sep.is_separator(&7));
    assert!(!sep.is_separator(&8));

    let sep = StrSeparator::new("\n".to_string());
    assert!(sep.is_separator(&"\n".to_string()));
    assert!(!sep.is_separator(&"x".to_string()));
}
