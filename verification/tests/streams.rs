use imp::streams::{
    CancelStep, PendingIo, PipeOptions, QueuingStrategy, ReadStep, StreamCore, StreamState,
};

fn fresh() -> StreamCore<&'static str, u32> {
    StreamCore::new(QueuingStrategy::default(), true)
}

#[test]
fn pending_io_counts_and_never_goes_negative() {
    let mut io = PendingIo::new();
    assert!(io.is_empty());
    io.increment();
    io.increment();
    assert_eq!(io.count(), 2);
    io.decrement();
    io.decrement();
    io.decrement();
    assert_eq!(io.count(), 0);
    assert!(io.is_empty());
    assert_eq!(PendingIo::default().count(), 0);
}

#[test]
fn strategies_measure_chunks() {
    let count = QueuingStrategy::from_js_object(None, false);
    assert_eq!(count, QueuingStrategy::Count { high_water_mark: 1 });
    assert_eq!(count.chunk_size(Some(10)), 1);
    let bytes = QueuingStrategy::from_js_object(Some(16), true);
    assert_eq!(bytes, QueuingStrategy::ByteLength { high_water_mark: 16 });
    assert_eq!(bytes.high_water_mark(), 16);
    assert_eq!(bytes.chunk_size(Some(10)), 10);
    assert_eq!(bytes.chunk_size(None), 1);
    assert_eq!(QueuingStrategy::default().high_water_mark(), 1);
}

#[test]
fn pipe_options_default_to_false() {
    let o = PipeOptions::from_js_object(Some(true), None, Some(false));
    assert!(o.prevent_close && !o.prevent_abort && !o.prevent_cancel);
    let d = PipeOptions::default();
    assert!(!d.prevent_close && !d.prevent_abort && !d.prevent_cancel);
}

#[test]
fn chunks_come_out_in_order() {
    let mut s = fresh();
    let mut io = PendingIo::new();
    assert!(s.enqueue("a", 1).is_none());
    assert!(s.enqueue("b", 1).is_none());
    assert!(matches!(s.read(&mut io, 1), ReadStep::Chunk("a")));
    assert!(matches!(s.read(&mut io, 1), ReadStep::Chunk("b")));
    assert!(io.is_empty());
}

#[test]
fn an_empty_readable_stream_asks_for_one_pull() {
    let mut s = fresh();
    let mut io = PendingIo::new();
    assert!(matches!(s.read(&mut io, 0), ReadStep::Wait { pull: true }));
    assert_eq!(io.count(), 1);
    assert!(matches!(s.read(&mut io, 0), ReadStep::Wait { pull: false }));
    assert_eq!(io.count(), 1);
    let rejected = s.finish_pull(&mut io, false);
    assert!(rejected.is_empty());
    assert_eq!(io.count(), 0);
    assert!(matches!(s.read(&mut io, 0), ReadStep::Wait { pull: true }));
}

#[test]
fn a_waiting_read_gets_the_next_chunk() {
    let mut s = fresh();
    s.push_read(7);
    s.push_read(8);
    assert_eq!(s.enqueue("x", 1), Some((7, "x")));
    assert_eq!(s.enqueue("y", 1), Some((8, "y")));
    assert_eq!(s.enqueue("z", 1), None);
    assert_eq!(s.queue_size(), 3);
}

#[test]
fn backpressure_follows_the_desired_size() {
    let mut s: StreamCore<&str, u32> = StreamCore::new(QueuingStrategy::Count { high_water_mark: 1 }, true);
    let mut io = PendingIo::new();
    assert_eq!(s.desired_size(), Some(1));
    s.enqueue("a", 1);
    s.enqueue("b", 1);
    assert_eq!(s.desired_size(), Some(-1));
    assert!(matches!(s.read(&mut io, 1), ReadStep::Chunk("a")));
    assert!(matches!(s.read(&mut io, 1), ReadStep::Chunk("b")));
    assert_eq!(s.desired_size(), Some(1));
    s.close();
    assert_eq!(s.desired_size(), None);
}

#[test]
fn closed_and_errored_streams() {
    let mut s = fresh();
    let mut io = PendingIo::new();
    s.push_read(1);
    s.enqueue("late", 1);
    s.push_read(2);
    let done = s.close();
    assert_eq!(done.into_iter().collect::<Vec<_>>(), vec![2]);
    assert_eq!(s.state(), StreamState::Closed);
    assert!(matches!(s.read(&mut io, 0), ReadStep::Done));
    let mut e = fresh();
    e.push_read(5);
    let rejected = e.error();
    assert_eq!(rejected.into_iter().collect::<Vec<_>>(), vec![5]);
    assert!(matches!(e.read(&mut io, 0), ReadStep::Errored));
}

#[test]
fn queued_chunks_outlive_close() {
    let mut s = fresh();
    let mut io = PendingIo::new();
    s.enqueue("a", 1);
    s.close();
    assert!(matches!(s.read(&mut io, 1), ReadStep::Chunk("a")));
    assert!(matches!(s.read(&mut io, 0), ReadStep::Done));
}

#[test]
fn a_failed_pull_errors_the_stream() {
    let mut s = fresh();
    let mut io = PendingIo::new();
    assert!(matches!(s.read(&mut io, 0), ReadStep::Wait { pull: true }));
    s.push_read(3);
    let rejected = s.finish_pull(&mut io, true);
    assert_eq!(rejected.into_iter().collect::<Vec<_>>(), vec![3]);
    assert_eq!(s.state(), StreamState::Errored);
    assert_eq!(io.count(), 0);
}

#[test]
fn cancel_closes_once() {
    let mut s = fresh();
    let mut io = PendingIo::new();
    assert!(matches!(s.read(&mut io, 0), ReadStep::Wait { pull: true }));
    s.push_read(4);
    let (step, reads) = s.cancel(&mut io, false);
    assert_eq!(step, CancelStep::Cancel);
    assert_eq!(reads.into_iter().collect::<Vec<_>>(), vec![4]);
    assert_eq!(io.count(), 0);
    assert_eq!(s.state(), StreamState::Closed);
    let (step, reads) = s.cancel(&mut io, false);
    assert_eq!(step, CancelStep::NotReadable);
    assert!(reads.is_empty());
}

#[test]
fn cancel_without_a_source_fails_but_closes() {
    let mut s: StreamCore<&str, u32> = StreamCore::new(QueuingStrategy::default(), false);
    let mut io = PendingIo::new();
    assert!(matches!(s.read(&mut io, 0), ReadStep::NoSource));
    let (step, _) = s.cancel(&mut io, false);
    assert_eq!(step, CancelStep::NoSource);
    assert_eq!(s.state(), StreamState::Closed);
}

#[test]
fn one_reader_at_a_time() {
    let mut s = fresh();
    let mut io = PendingIo::new();
    assert!(s.acquire());
    assert!(s.locked());
    assert!(!s.acquire());
    s.release_lock();
    assert!(s.acquire());
    let (step, _) = s.cancel(&mut io, true);
    assert_eq!(step, CancelStep::Cancel);
    assert!(!s.locked());
}

#[test]
fn dispose_closes_a_readable_stream() {
    let mut s = fresh();
    s.dispose();
    assert_eq!(s.state(), StreamState::Closed);
    let mut e = fresh();
    e.error();
    e.dispose();
    assert_eq!(e.state(), StreamState::Errored);
}

#[test]
fn preloaded_streams_are_closed_with_their_chunks() {
    let mut s: StreamCore<&str, u32> =
        StreamCore::preloaded(vec![("a", 2), ("b", 3)], QueuingStrategy::ByteLength { high_water_mark: 4 });
    let mut io = PendingIo::new();
    assert_eq!(s.state(), StreamState::Closed);
    assert_eq!(s.queue_size(), 5);
    assert!(matches!(s.read(&mut io, 2), ReadStep::Chunk("a")));
    assert_eq!(s.queue_size(), 3);
    assert!(matches!(s.read(&mut io, 3), ReadStep::Chunk("b")));
    assert!(matches!(s.read(&mut io, 0), ReadStep::Done));
}

#[test]
fn a_read_takes_off_the_size_the_chunk_has_now() {
    let mut s: StreamCore<&str, u32> = StreamCore::new(QueuingStrategy::ByteLength { high_water_mark: 10 }, true);
    let mut io = PendingIo::new();
    s.enqueue("grown", 2);
    s.enqueue("other", 3);
    assert_eq!(s.front(), Some(&"grown"));
    assert!(matches!(s.read(&mut io, 4), ReadStep::Chunk("grown")));
    assert_eq!(s.queue_size(), 1);
    assert_eq!(s.desired_size(), Some(9));
}
