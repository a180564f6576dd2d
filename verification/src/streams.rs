use std::collections::VecDeque;

use vstd::prelude::*;

verus! {

/// A count of I/O operations in flight (for instance, pulls of a stream
/// source that have not finished). There is one counter per runtime: it
/// cannot be copied or cloned, and every operation that changes it takes it
/// by `&mut`, so all of its users see one count.
#[derive(Debug)]
pub struct PendingIo {
    count: usize,
}

impl View for PendingIo {
    type V = usize;

    closed spec fn view(&self) -> usize {
        self.count
    }
}

impl PendingIo {
    /// No operation in flight.
    pub fn new() -> (r: Self)
        ensures
            r@ == 0,
    {
        PendingIo { count: 0 }
    }

    /// One more operation in flight.
    pub fn increment(&mut self)
        requires
            old(self)@ < usize::MAX,
        ensures
            final(self)@ == old(self)@ + 1,
    {
        self.count = self.count + 1;
    }

    /// One operation fewer in flight; the count never goes below zero.
    pub fn decrement(&mut self)
        ensures
            final(self)@ == (if old(self)@ > 0 { old(self)@ - 1 } else { 0 }),
    {
        if self.count > 0 {
            self.count = self.count - 1;
        }
    }

    /// No operation is in flight.
    pub fn is_empty(&self) -> (b: bool)
        ensures
            b == (self@ == 0),
    {
        self.count == 0
    }

    /// The number of operations in flight.
    pub fn count(&self) -> (n: usize)
        ensures
            n == self@,
    {
        self.count
    }
}

impl Default for PendingIo {
    fn default() -> (r: Self)
        ensures
            r@ == 0,
    {
        PendingIo::new()
    }
}

/// How a stream measures the chunks in its queue.
#[derive(Debug, Clone, Copy, PartialEq, Eq, Structural)]
pub enum QueuingStrategy {
    /// Every chunk counts as one.
    Count { high_water_mark: usize },
    /// A chunk counts as its `length` (one where it has none).
    ByteLength { high_water_mark: usize },
}

impl QueuingStrategy {
    pub open spec fn hwm(self) -> usize {
        match self {
            QueuingStrategy::Count { high_water_mark } => high_water_mark,
            QueuingStrategy::ByteLength { high_water_mark } => high_water_mark,
        }
    }

    /// The size of a chunk whose `length` property reads as `length`
    /// (`None` where the chunk is no object or has no such number).
    pub open spec fn size_of(self, length: Option<usize>) -> usize {
        match self {
            QueuingStrategy::Count { .. } => 1,
            QueuingStrategy::ByteLength { .. } => match length {
                Some(n) => n,
                None => 1,
            },
        }
    }

    /// The queue size above which the stream signals backpressure.
    pub fn high_water_mark(&self) -> (n: usize)
        ensures
            n == self.hwm(),
    {
        match self {
            QueuingStrategy::Count { high_water_mark } => *high_water_mark,
            QueuingStrategy::ByteLength { high_water_mark } => *high_water_mark,
        }
    }

    /// The size that a chunk adds to the queue; `length` is the chunk's
    /// `length` property where it is an object that has one.
    pub fn chunk_size(&self, length: Option<usize>) -> (n: usize)
        ensures
            n == self.size_of(length),
    {
        match self {
            QueuingStrategy::Count { .. } => 1,
            QueuingStrategy::ByteLength { .. } => match length {
                Some(n) => n,
                None => 1,
            },
        }
    }

    /// Reads a strategy object from its `highWaterMark` property (one where
    /// it is missing) and whether it has a `size` function.
    pub fn from_js_object(high_water_mark: Option<usize>, has_size_fn: bool) -> (r: Self)
        ensures
            r.hwm() == (match high_water_mark {
                Some(n) => n,
                None => 1,
            }),
            has_size_fn <==> r is ByteLength,
    {
        let high_water_mark = match high_water_mark {
            Some(n) => n,
            None => 1,
        };
        if has_size_fn {
            QueuingStrategy::ByteLength { high_water_mark }
        } else {
            QueuingStrategy::Count { high_water_mark }
        }
    }
}

impl Default for QueuingStrategy {
    fn default() -> (r: Self)
        ensures
            r == (QueuingStrategy::Count { high_water_mark: 1 }),
    {
        QueuingStrategy::Count { high_water_mark: 1 }
    }
}

/// The options of `pipeTo`.
#[derive(Debug, Clone, Copy, PartialEq, Eq, Structural)]
pub struct PipeOptions {
    pub prevent_close: bool,
    pub prevent_abort: bool,
    pub prevent_cancel: bool,
}

impl PipeOptions {
    /// Reads the options from the `preventClose`, `preventAbort` and
    /// `preventCancel` properties; a missing one is `false`.
    pub fn from_js_object(
        prevent_close: Option<bool>,
        prevent_abort: Option<bool>,
        prevent_cancel: Option<bool>,
    ) -> (r: Self)
        ensures
            r.prevent_close == (prevent_close == Some(true)),
            r.prevent_abort == (prevent_abort == Some(true)),
            r.prevent_cancel == (prevent_cancel == Some(true)),
    {
        PipeOptions {
            prevent_close: match prevent_close {
                Some(b) => b,
                None => false,
            },
            prevent_abort: match prevent_abort {
                Some(b) => b,
                None => false,
            },
            prevent_cancel: match prevent_cancel {
                Some(b) => b,
                None => false,
            },
        }
    }
}

impl Default for PipeOptions {
    fn default() -> (r: Self)
        ensures
            !r.prevent_close && !r.prevent_abort && !r.prevent_cancel,
    {
        PipeOptions { prevent_close: false, prevent_abort: false, prevent_cancel: false }
    }
}

/// Where a readable stream is in its life.
#[derive(Debug, Clone, Copy, PartialEq, Eq, Structural)]
pub enum StreamState {
    Readable,
    Closed,
    Errored,
}

/// The total size of the chunks in a queue.
pub open spec fn sum_sizes<C>(q: Seq<(C, usize)>) -> nat
    decreases q.len(),
{
    if q.len() == 0 {
        0
    } else {
        sum_sizes(q.drop_last()) + q.last().1 as nat
    }
}

/// Adding a chunk at the back adds its size.
pub proof fn lemma_sum_sizes_push<C>(q: Seq<(C, usize)>, x: (C, usize))
    ensures
        sum_sizes(q.push(x)) == sum_sizes(q) + x.1,
{
    assert(q.push(x).drop_last() =~= q);
}

/// A prefix never weighs more than the whole queue.
pub proof fn lemma_sum_sizes_prefix<C>(q: Seq<(C, usize)>, i: int)
    requires
        0 <= i <= q.len(),
    ensures
        sum_sizes(q.take(i)) <= sum_sizes(q),
    decreases q.len(),
{
    if i == q.len() {
        assert(q.take(i) =~= q);
    } else {
        lemma_sum_sizes_prefix(q.drop_last(), i);
        assert(q.drop_last().take(i) =~= q.take(i));
    }
}

/// Everything a readable stream decides on: its state, the queued chunks,
/// the reads waiting for a chunk, and its bookkeeping (`queue_size` is the
/// total size the strategy gave each chunk as it came, less the size it gives
/// each chunk as it is read).
pub struct StreamView<C, R> {
    pub state: StreamState,
    pub queue: Seq<C>,
    pub pending: Seq<R>,
    pub has_source: bool,
    pub pulling: bool,
    pub locked: bool,
    pub high_water_mark: usize,
    pub queue_size: usize,
    pub strategy: QueuingStrategy,
    pub backpressure: bool,
}

/// What a read has to do next.
pub enum ReadStep<C> {
    /// Resolve with `{ value: chunk, done: false }`.
    Chunk(C),
    /// Resolve with `{ value: undefined, done: true }`.
    Done,
    /// Fail: the stream is errored.
    Errored,
    /// Fail: the stream has no underlying source.
    NoSource,
    /// Call the source's `pull` first if `pull`, then wait for a chunk.
    Wait { pull: bool },
}

/// What a cancel has to do next.
#[derive(Debug, Clone, Copy, PartialEq, Eq, Structural)]
pub enum CancelStep {
    /// Nothing: the stream was no longer readable.
    NotReadable,
    /// Fail: the stream has no underlying source (it is closed all the same).
    NoSource,
    /// Call the source's `cancel`, then resolve each read that was waiting
    /// with `{ value: undefined, done: true }`.
    Cancel,
}

impl<C, R> StreamView<C, R> {
    /// How much more the queue can take before backpressure; `None` once the
    /// stream is closed or errored. Computed in `i32`, wrapping around.
    pub open spec fn desired_size(self) -> Option<i32> {
        match self.state {
            StreamState::Readable => Some((self.high_water_mark as i32).wrapping_sub(self.queue_size as i32)),
            _ => None,
        }
    }

    pub open spec fn refreshed(self) -> Self {
        StreamView { backpressure: self.desired_size() matches Some(d) && d < 0, ..self }
    }

    /// A fresh stream with the given strategy.
    pub open spec fn fresh(strategy: QueuingStrategy, has_source: bool) -> Self {
        StreamView {
            state: StreamState::Readable,
            queue: Seq::empty(),
            pending: Seq::empty(),
            has_source,
            pulling: false,
            locked: false,
            high_water_mark: strategy.hwm(),
            queue_size: 0,
            strategy,
            backpressure: false,
        }
    }

    /// A closed stream holding `chunks`, each with the size the strategy
    /// gives it.
    pub open spec fn preloaded(chunks: Seq<(C, usize)>, strategy: QueuingStrategy) -> Self {
        StreamView {
            state: StreamState::Closed,
            queue: chunks.map_values(|p: (C, usize)| p.0),
            pending: Seq::empty(),
            has_source: false,
            pulling: false,
            locked: false,
            high_water_mark: strategy.hwm(),
            queue_size: sum_sizes(chunks) as usize,
            strategy,
            backpressure: false,
        }
    }

    /// `controller.enqueue(chunk)`: the size counts in any case; the chunk
    /// goes to the oldest waiting read if there is one (both returned), else
    /// to the back of the queue.
    pub open spec fn enqueue(self, chunk: C, size: usize) -> (Self, Option<(R, C)>) {
        let s = StreamView { queue_size: (self.queue_size + size) as usize, ..self }.refreshed();
        if s.pending.len() > 0 {
            (StreamView { pending: s.pending.drop_first(), ..s }, Some((s.pending[0], chunk)))
        } else {
            (StreamView { queue: s.queue.push(chunk), ..s }, None)
        }
    }

    /// `controller.close()`: the stream is closed and every waiting read is
    /// returned, to be resolved as done.
    pub open spec fn close(self) -> (Self, Seq<R>) {
        (StreamView { state: StreamState::Closed, pending: Seq::empty(), ..self }, self.pending)
    }

    /// `controller.error(e)`: the stream is errored and every waiting read is
    /// returned, to be rejected with `e`.
    pub open spec fn error(self) -> (Self, Seq<R>) {
        (StreamView { state: StreamState::Errored, pending: Seq::empty(), ..self }, self.pending)
    }

    /// The first part of `reader.read()`; `front_size` is the size the
    /// strategy gives the chunk at the front of the queue now.
    pub open spec fn read(self, front_size: usize) -> (Self, ReadStep<C>) {
        if self.queue.len() > 0 {
            (
                StreamView {
                    queue: self.queue.drop_first(),
                    queue_size: (self.queue_size - front_size) as usize,
                    ..self
                }.refreshed(),
                ReadStep::Chunk(self.queue[0]),
            )
        } else {
            match self.state {
                StreamState::Closed => (self, ReadStep::Done),
                StreamState::Errored => (self, ReadStep::Errored),
                StreamState::Readable => if !self.has_source {
                    (self, ReadStep::NoSource)
                } else if !self.pulling && !self.backpressure {
                    (StreamView { pulling: true, ..self }, ReadStep::Wait { pull: true })
                } else {
                    (self, ReadStep::Wait { pull: false })
                },
            }
        }
    }

    /// After the source's `pull` settled (or where it has none): the stream
    /// is no longer pulling; if the pull threw, it is errored and the waiting
    /// reads are returned, to be rejected.
    pub open spec fn finish_pull(self, failed: bool) -> (Self, Seq<R>) {
        let s = StreamView { pulling: false, ..self };
        if failed {
            s.error()
        } else {
            (s, Seq::empty())
        }
    }

    /// The last part of `reader.read()`: the read waits for a chunk.
    pub open spec fn push_read(self, req: R) -> Self {
        StreamView { pending: self.pending.push(req), ..self }
    }

    /// `stream.cancel()`, and with `release` `reader.cancel()`, which first
    /// releases the lock. Returns the reads that were waiting (none unless
    /// the step is `Cancel`).
    pub open spec fn cancel(self, release: bool) -> (Self, CancelStep, Seq<R>) {
        let s = if release { StreamView { locked: false, ..self } } else { self };
        if s.state != StreamState::Readable {
            (s, CancelStep::NotReadable, Seq::empty())
        } else if !s.has_source {
            (StreamView { state: StreamState::Closed, ..s }, CancelStep::NoSource, Seq::empty())
        } else {
            (
                StreamView { state: StreamState::Closed, pending: Seq::empty(), pulling: false, ..s },
                CancelStep::Cancel,
                s.pending,
            )
        }
    }

    /// `getReader()` and `values()`: fails where the stream is locked, and
    /// locks it otherwise.
    pub open spec fn acquire(self) -> (Self, bool) {
        if self.locked {
            (self, false)
        } else {
            (StreamView { locked: true, ..self }, true)
        }
    }

    /// `Symbol.dispose` of the stream: a readable stream is closed.
    pub open spec fn dispose(self) -> Self {
        if self.state == StreamState::Readable {
            StreamView { state: StreamState::Closed, ..self }
        } else {
            self
        }
    }
}

/// With no read waiting, a chunk goes to the back of the queue, and a read
/// then gives back the chunk at the front: the oldest one queued, or the new
/// one where the queue was empty (first in, first out). Once read, the
/// queue and its counted size are back where they were before the chunk
/// came, where the queue was empty and the chunk still has its size.
pub proof fn lemma_enqueue_then_read<C, R>(v: StreamView<C, R>, chunk: C, size: usize, front_size: usize)
    requires
        v.pending.len() == 0,
        v.queue_size + size <= usize::MAX,
    ensures
        v.enqueue(chunk, size).1 is None,
        v.enqueue(chunk, size).0.queue == v.queue.push(chunk),
        v.enqueue(chunk, size).0.read(front_size).1 == (if v.queue.len() > 0 {
            ReadStep::Chunk(v.queue[0])
        } else {
            ReadStep::Chunk(chunk)
        }),
        v.enqueue(chunk, size).0.read(front_size).0.queue == v.queue.push(chunk).drop_first(),
        v.queue.len() == 0 ==> v.enqueue(chunk, size).0.read(size).0.queue_size == v.queue_size,
{
}

/// A read that is waiting gets the next chunk, before anything is queued:
/// the oldest waiting read first.
pub proof fn lemma_waiting_read_gets_chunk<C, R>(v: StreamView<C, R>, chunk: C, size: usize)
    requires
        v.pending.len() > 0,
    ensures
        v.enqueue(chunk, size).1 == Some((v.pending[0], chunk)),
        v.enqueue(chunk, size).0.queue == v.queue,
        v.enqueue(chunk, size).0.pending == v.pending.drop_first(),
{
}

/// A stream that is closed or errored never becomes readable again.
pub proof fn lemma_never_reopens<C, R>(
    v: StreamView<C, R>,
    chunk: C,
    size: usize,
    front_size: usize,
    req: R,
    failed: bool,
    release: bool,
)
    requires
        v.state != StreamState::Readable,
    ensures
        v.enqueue(chunk, size).0.state == v.state,
        v.read(front_size).0.state == v.state,
        v.close().0.state == StreamState::Closed,
        v.error().0.state == StreamState::Errored,
        v.finish_pull(failed).0.state != StreamState::Readable,
        v.push_read(req).state == v.state,
        v.cancel(release).0.state == v.state,
        v.cancel(release).1 == CancelStep::NotReadable,
        v.acquire().0.state == v.state,
        v.dispose().state == v.state,
{
}

/// At most one pull is in flight: a read asks for a pull only where none is
/// running, and the stream is then pulling until the pull finishes.
pub proof fn lemma_one_pull_at_a_time<C, R>(v: StreamView<C, R>, n: usize)
    ensures
        v.pulling ==> !(v.read(n).1 matches ReadStep::Wait { pull: true }),
        v.read(n).1 matches ReadStep::Wait { pull: true } ==> v.read(n).0.pulling,
        !v.finish_pull(false).0.pulling,
        !v.finish_pull(true).0.pulling,
        v.read(n).0.pulling == (v.pulling || v.read(n).1 matches ReadStep::Wait { pull: true }),
{
}

/// A stream has one reader at a time: locking succeeds exactly when the
/// stream is not locked, and a second lock fails until the lock is released.
pub proof fn lemma_one_reader<C, R>(v: StreamView<C, R>)
    ensures
        v.acquire().1 == !v.locked,
        v.acquire().0.locked,
        !v.acquire().0.acquire().1,
        (StreamView { locked: false, ..v.acquire().0 }).acquire().1,
{
}

/// After a chunk goes in or comes out, backpressure is on exactly when the
/// desired size is below zero.
pub proof fn lemma_backpressure_tracks_desired_size<C, R>(v: StreamView<C, R>, chunk: C, size: usize, n: usize)
    ensures
        v.enqueue(chunk, size).0.backpressure == (v.enqueue(chunk, size).0.desired_size() matches Some(d) && d < 0),
        v.queue.len() > 0 ==> v.read(n).0.backpressure == (v.read(n).0.desired_size() matches Some(d) && d < 0),
{
}

/// The part of a readable stream that decides: the queue of chunks, the
/// reads waiting for a chunk, and the flags. The script objects (source,
/// chunks, promises) stay with the caller, as the handles `C` and `R`.
pub struct StreamCore<C, R> {
    state: StreamState,
    queue: VecDeque<C>,
    pending_reads: VecDeque<R>,
    has_source: bool,
    pulling: bool,
    locked: bool,
    high_water_mark: usize,
    queue_size: usize,
    strategy: QueuingStrategy,
    backpressure: bool,
}

impl<C, R> View for StreamCore<C, R> {
    type V = StreamView<C, R>;

    closed spec fn view(&self) -> StreamView<C, R> {
        StreamView {
            state: self.state,
            queue: self.queue@,
            pending: self.pending_reads@,
            has_source: self.has_source,
            pulling: self.pulling,
            locked: self.locked,
            high_water_mark: self.high_water_mark,
            queue_size: self.queue_size,
            strategy: self.strategy,
            backpressure: self.backpressure,
        }
    }
}

/// Pulls on the counter of operations in flight: one more if the read
/// step asks for a pull.
pub open spec fn pulls<C>(step: ReadStep<C>) -> nat {
    if step matches ReadStep::Wait { pull: true } {
        1
    } else {
        0
    }
}

pub open spec fn dec(n: usize) -> usize {
    if n > 0 {
        (n - 1) as usize
    } else {
        0
    }
}

impl<C, R> StreamCore<C, R> {
    /// A readable stream with nothing queued (`create_readable_stream`);
    /// `has_source` tells whether it has an underlying source.
    pub fn new(strategy: QueuingStrategy, has_source: bool) -> (r: Self)
        ensures
            r@ == StreamView::<C, R>::fresh(strategy, has_source),
    {
        let high_water_mark = strategy.high_water_mark();
        StreamCore {
            state: StreamState::Readable,
            queue: VecDeque::new(),
            pending_reads: VecDeque::new(),
            has_source,
            pulling: false,
            locked: false,
            high_water_mark,
            queue_size: 0,
            strategy,
            backpressure: false,
        }
    }

    /// A closed stream that holds `chunks` with their sizes
    /// (`create_preloaded_stream`).
    pub fn preloaded(chunks: Vec<(C, usize)>, strategy: QueuingStrategy) -> (r: Self)
        requires
            sum_sizes(chunks@) <= usize::MAX,
        ensures
            r@ == StreamView::<C, R>::preloaded(chunks@, strategy),
    {
        let high_water_mark = strategy.high_water_mark();
        let ghost all = chunks@;
        let mut queue: VecDeque<C> = VecDeque::new();
        let mut queue_size: usize = 0;
        proof {
            assert(all.take(0) =~= Seq::<(C, usize)>::empty());
            assert(all.take(0).map_values(|p: (C, usize)| p.0) =~= Seq::<C>::empty());
        }
        for item in it: chunks.into_iter()
            invariant
                it.seq() == all,
                sum_sizes(all) <= usize::MAX,
                queue@ == all.take(it.index() as int).map_values(|p: (C, usize)| p.0),
                queue_size == sum_sizes(all.take(it.index() as int)),
        {
            proof {
                assert(all.take(it.index() + 1) =~= all.take(it.index() as int).push(item));
                assert(all.take(it.index() + 1).map_values(|p: (C, usize)| p.0) =~= all.take(
                    it.index() as int,
                ).map_values(|p: (C, usize)| p.0).push(item.0));
                lemma_sum_sizes_push(all.take(it.index() as int), item);
                lemma_sum_sizes_prefix(all, it.index() + 1);
            }
            queue_size = queue_size + item.1;
            queue.push_back(item.0);
        }
        proof {
            assert(all.take(all.len() as int) =~= all);
        }
        StreamCore {
            state: StreamState::Closed,
            queue,
            pending_reads: VecDeque::new(),
            has_source: false,
            pulling: false,
            locked: false,
            high_water_mark,
            queue_size,
            strategy,
            backpressure: false,
        }
    }

    fn refresh_backpressure(&mut self)
        ensures
            final(self)@ == old(self)@.refreshed(),
    {
        let d = self.desired_size();
        self.backpressure = match d {
            Some(d) => d < 0,
            None => false,
        };
    }

    /// How much more the queue can take; `None` once closed or errored.
    pub fn desired_size(&self) -> (r: Option<i32>)
        ensures
            r == self@.desired_size(),
    {
        match self.state {
            StreamState::Readable => Some((self.high_water_mark as i32).wrapping_sub(self.queue_size as i32)),
            _ => None,
        }
    }

    /// Whether a reader holds the stream.
    pub fn locked(&self) -> (b: bool)
        ensures
            b == self@.locked,
    {
        self.locked
    }

    /// The state of the stream.
    pub fn state(&self) -> (s: StreamState)
        ensures
            s == self@.state,
    {
        self.state
    }

    /// The total size counted in the queue.
    pub fn queue_size(&self) -> (n: usize)
        ensures
            n == self@.queue_size,
    {
        self.queue_size
    }

    /// `controller.enqueue(chunk)` for a chunk of size `size`: returns the
    /// waiting read that receives the chunk, with the chunk, if there was
    /// one.
    pub fn enqueue(&mut self, chunk: C, size: usize) -> (r: Option<(R, C)>)
        requires
            old(self)@.queue_size + size <= usize::MAX,
        ensures
            (final(self)@, r) == old(self)@.enqueue(chunk, size),
    {
        self.queue_size = self.queue_size + size;
        self.refresh_backpressure();
        let mut reads = VecDeque::new();
        std::mem::swap(&mut reads, &mut self.pending_reads);
        let req = reads.pop_front();
        std::mem::swap(&mut reads, &mut self.pending_reads);
        match req {
            Some(req) => Some((req, chunk)),
            None => {
                let mut queue = VecDeque::new();
                std::mem::swap(&mut queue, &mut self.queue);
                queue.push_back(chunk);
                std::mem::swap(&mut queue, &mut self.queue);
                None
            },
        }
    }

    /// `controller.close()`: returns the waiting reads, to be resolved as
    /// done.
    pub fn close(&mut self) -> (reads: VecDeque<R>)
        ensures
            final(self)@ == old(self)@.close().0,
            reads@ == old(self)@.close().1,
    {
        self.state = StreamState::Closed;
        let mut reads = VecDeque::new();
        std::mem::swap(&mut reads, &mut self.pending_reads);
        reads
    }

    /// `controller.error(e)`: returns the waiting reads, to be rejected.
    pub fn error(&mut self) -> (reads: VecDeque<R>)
        ensures
            final(self)@ == old(self)@.error().0,
            reads@ == old(self)@.error().1,
    {
        self.state = StreamState::Errored;
        let mut reads = VecDeque::new();
        std::mem::swap(&mut reads, &mut self.pending_reads);
        reads
    }

    /// The chunk at the front of the queue, if any (for the caller to measure
    /// it before `read`).
    pub fn front(&self) -> (r: Option<&C>)
        ensures
            self@.queue.len() == 0 ==> r is None,
            self@.queue.len() > 0 ==> r == Some(&self@.queue[0]),
    {
        if self.queue.len() > 0 {
            Some(&self.queue[0])
        } else {
            None
        }
    }

    /// The first part of `reader.read()`; `front_size` is the size the
    /// strategy gives the chunk at the front of the queue now, which comes
    /// off the queue size (it cannot exceed it: the count would go below
    /// zero). Where it asks for a pull, the stream is now pulling and `io`
    /// counts one more operation.
    pub fn read(&mut self, io: &mut PendingIo, front_size: usize) -> (step: ReadStep<C>)
        requires
            old(self)@.queue.len() > 0 ==> front_size <= old(self)@.queue_size,
            old(self)@.read(front_size).1 matches ReadStep::Wait { pull: true } ==> old(io)@ < usize::MAX,
        ensures
            final(self)@ == old(self)@.read(front_size).0,
            step == old(self)@.read(front_size).1,
            final(io)@ == old(io)@ + pulls(step),
    {
        if self.queue.len() > 0 {
            let mut queue = VecDeque::new();
            std::mem::swap(&mut queue, &mut self.queue);
            let front = queue.pop_front();
            std::mem::swap(&mut queue, &mut self.queue);
            match front {
                Some(c) => {
                    self.queue_size = self.queue_size - front_size;
                    self.refresh_backpressure();
                    return ReadStep::Chunk(c);
                },
                None => {
                    assert(false);
                    return ReadStep::Done;
                },
            }
        }
        match self.state {
            StreamState::Closed => ReadStep::Done,
            StreamState::Errored => ReadStep::Errored,
            StreamState::Readable => {
                if !self.has_source {
                    ReadStep::NoSource
                } else if !self.pulling && !self.backpressure {
                    self.pulling = true;
                    io.increment();
                    ReadStep::Wait { pull: true }
                } else {
                    ReadStep::Wait { pull: false }
                }
            },
        }
    }

    /// After the source's `pull` settled, or where the source has none:
    /// `io` counts one operation fewer; if the pull threw (`failed`), the
    /// stream is errored and the waiting reads are returned, to be rejected.
    pub fn finish_pull(&mut self, io: &mut PendingIo, failed: bool) -> (reads: VecDeque<R>)
        ensures
            final(self)@ == old(self)@.finish_pull(failed).0,
            reads@ == old(self)@.finish_pull(failed).1,
            final(io)@ == dec(old(io)@),
    {
        io.decrement();
        self.pulling = false;
        if failed {
            self.error()
        } else {
            VecDeque::new()
        }
    }

    /// The last part of `reader.read()`: the read waits for a chunk.
    pub fn push_read(&mut self, req: R)
        ensures
            final(self)@ == old(self)@.push_read(req),
    {
        let mut reads = VecDeque::new();
        std::mem::swap(&mut reads, &mut self.pending_reads);
        reads.push_back(req);
        std::mem::swap(&mut reads, &mut self.pending_reads);
    }

    /// `stream.cancel()`; with `release`, `reader.cancel()`, which first
    /// releases the lock. A pull in flight is no longer counted in `io`.
    pub fn cancel(&mut self, io: &mut PendingIo, release: bool) -> (r: (CancelStep, VecDeque<R>))
        ensures
            final(self)@ == old(self)@.cancel(release).0,
            r.0 == old(self)@.cancel(release).1,
            r.1@ == old(self)@.cancel(release).2,
            final(io)@ == (if r.0 == CancelStep::Cancel && old(self)@.pulling {
                dec(old(io)@)
            } else {
                old(io)@
            }),
    {
        if release {
            self.locked = false;
        }
        if self.state != StreamState::Readable {
            return (CancelStep::NotReadable, VecDeque::new());
        }
        self.state = StreamState::Closed;
        if !self.has_source {
            return (CancelStep::NoSource, VecDeque::new());
        }
        let mut reads = VecDeque::new();
        std::mem::swap(&mut reads, &mut self.pending_reads);
        if self.pulling {
            io.decrement();
            self.pulling = false;
        }
        (CancelStep::Cancel, reads)
    }

    /// `getReader()` and `values()`: `false` (the stream is locked) or locks
    /// the stream and returns `true`.
    pub fn acquire(&mut self) -> (ok: bool)
        ensures
            (final(self)@, ok) == old(self)@.acquire(),
    {
        if self.locked {
            false
        } else {
            self.locked = true;
            true
        }
    }

    /// `reader.releaseLock()`.
    pub fn release_lock(&mut self)
        ensures
            final(self)@ == (StreamView { locked: false, ..old(self)@ }),
    {
        self.locked = false;
    }

    /// `Symbol.dispose` of the stream.
    pub fn dispose(&mut self)
        ensures
            final(self)@ == old(self)@.dispose(),
    {
        if self.state == StreamState::Readable {
            self.state = StreamState::Closed;
        }
    }
}

/// `reader.cancel()` always gives up the reader's lock, whatever state the
/// stream is in, and otherwise does what `stream.cancel()` does; a
/// `stream.cancel()` leaves the lock as it was.
pub proof fn lemma_reader_cancel_unlocks<C, R>(v: StreamView<C, R>)
    ensures
        !v.cancel(true).0.locked,
        v.cancel(false).0.locked == v.locked,
        v.cancel(true).0 == (StreamView { locked: false, ..v.cancel(false).0 }),
        v.cancel(true).1 == v.cancel(false).1,
        v.cancel(true).2 == v.cancel(false).2,
        (StreamView { locked: true, ..v }).cancel(true).0.acquire().1,
{
}

} // verus!
