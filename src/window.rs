use vstd::prelude::*;
use std::collections::VecDeque;
use vstd::arithmetic::div_mod::lemma_fundamental_div_mod_converse;

verus! {

/// The bytes of one analysis window: consecutive PCM chunks, concatenated.
pub struct WindowPacket(pub Vec<u8>);

/// The bytes of `chunks`, one chunk after the other.
pub open spec fn concat(chunks: Seq<Seq<u8>>) -> Seq<u8>
    decreases chunks.len(),
{
    if chunks.len() == 0 {
        seq![]
    } else {
        concat(chunks.drop_last()) + chunks.last()
    }
}

/// How many chunks an emission removes from a queue of `len` chunks: `slide`,
/// or all of them when fewer are queued.
pub open spec fn taken(len: nat, slide: nat) -> nat {
    if slide <= len {
        slide
    } else {
        len
    }
}

/// One chunk arrives at the queue `pending`. It is appended; if the queue then
/// holds at least `window` chunks, the first `slide` of them leave it as one
/// window. Gives the queue after the arrival and the window emitted, if any.
pub open spec fn step(window: nat, slide: nat, pending: Seq<Seq<u8>>, chunk: Seq<u8>) -> (
    Seq<Seq<u8>>,
    Option<Seq<u8>>,
) {
    let q = pending.push(chunk);
    if q.len() >= window {
        let k = taken(q.len(), slide);
        (q.skip(k as int), Some(concat(q.take(k as int))))
    } else {
        (q, None)
    }
}

/// Feeding `chunks`, in order, to an empty aggregator: the queue left at the
/// end, and the windows emitted, in order.
pub open spec fn feed(window: nat, slide: nat, chunks: Seq<Seq<u8>>) -> (
    Seq<Seq<u8>>,
    Seq<Seq<u8>>,
)
    decreases chunks.len(),
{
    if chunks.len() == 0 {
        (seq![], seq![])
    } else {
        let (pending, windows) = feed(window, slide, chunks.drop_last());
        let (next, out) = step(window, slide, pending, chunks.last());
        match out {
            Some(w) => (next, windows.push(w)),
            None => (next, windows),
        }
    }
}

/// The aggregator of one PCM stream: it queues chunks in arrival order and,
/// whenever `window_size` chunks are queued, emits the first `slide_size` of
/// them as one window, keeping the rest for the windows that follow.
pub struct SlidingWindow {
    window_size: u64,
    slide_size: u64,
    /// Chunks received and not yet emitted.
    counter: u64,
    stock_buffer: VecDeque<Vec<u8>>,
}

impl SlidingWindow {
    /// The chunks queued, oldest first.
    pub closed spec fn pending(&self) -> Seq<Seq<u8>> {
        self.stock_buffer@.map_values(|c: Vec<u8>| c@)
    }

    pub closed spec fn spec_window_size(&self) -> nat {
        self.window_size as nat
    }

    pub closed spec fn spec_slide_size(&self) -> nat {
        self.slide_size as nat
    }

    /// The counter of queued chunks agrees with the queue.
    pub closed spec fn wf(&self) -> bool {
        self.counter as nat == self.stock_buffer@.len()
    }

    pub fn new(window_size: u64, slide_size: u64) -> (r: SlidingWindow)
        ensures
            r.wf(),
            r.pending() == Seq::<Seq<u8>>::empty(),
            r.spec_window_size() == window_size,
            r.spec_slide_size() == slide_size,
    {
        let r = SlidingWindow { window_size, slide_size, counter: 0, stock_buffer: VecDeque::new() };
        assert(r.pending() =~= Seq::<Seq<u8>>::empty());
        r
    }

    pub fn window_size(&self) -> (r: u64)
        ensures
            r == self.spec_window_size(),
    {
        self.window_size
    }

    pub fn slide_size(&self) -> (r: u64)
        ensures
            r == self.spec_slide_size(),
    {
        self.slide_size
    }

    /// How many chunks are queued.
    pub fn pending_len(&self) -> (r: u64)
        requires
            self.wf(),
        ensures
            r == self.pending().len(),
    {
        self.counter
    }
}

proof fn lemma_concat_take_next(s: Seq<Seq<u8>>, k: int)
    requires
        0 <= k < s.len(),
    ensures
        concat(s.take(k + 1)) == concat(s.take(k)) + s[k],
{
    assert(s.take(k + 1).drop_last() =~= s.take(k));
}

/// One step of the PCM stage: `bin` joins the queue, and a window leaves it
/// when enough chunks are queued.
pub fn pcm_data_processing(state: &mut SlidingWindow, bin: Vec<u8>) -> (r: Option<WindowPacket>)
    requires
        old(state).wf(),
        old(state).pending().len() < u64::MAX,
    ensures
        final(state).wf(),
        final(state).spec_window_size() == old(state).spec_window_size(),
        final(state).spec_slide_size() == old(state).spec_slide_size(),
        (final(state).pending(), match r {
            Some(p) => Some(p.0@),
            None => None,
        }) == step(
            old(state).spec_window_size(),
            old(state).spec_slide_size(),
            old(state).pending(),
            bin@,
        ),
{
    let ghost q = old(state).pending().push(bin@);
    state.stock_buffer.push_back(bin);
    state.counter = state.counter + 1;
    assert(state.pending() =~= q);
    if state.counter < state.window_size {
        return None;
    }
    let mut window_packet: Vec<u8> = Vec::new();
    let mut removed: u64 = 0;
    while removed < state.slide_size && state.counter > 0
        invariant
            state.wf(),
            state.window_size == old(state).window_size,
            state.slide_size == old(state).slide_size,
            removed <= state.slide_size,
            state.counter as nat == q.len() - removed,
            state.pending() == q.skip(removed as int),
            window_packet@ == concat(q.take(removed as int)),
        decreases state.counter,
    {
        let ghost before = state.pending();
        let ghost before_raw = state.stock_buffer@;
        if let Some(mut buf) = state.stock_buffer.pop_front() {
            proof {
                lemma_concat_take_next(q, removed as int);
                assert(before[0] == q[removed as int]);
            }
            window_packet.append(&mut buf);
            removed = removed + 1;
            state.counter = state.counter - 1;
            assert(state.stock_buffer@ == before_raw.subrange(1, before_raw.len() as int));
            assert(forall|j: int|
                0 <= j < state.pending().len() ==> #[trigger] state.pending()[j] == before[j + 1]);
            assert(state.pending() =~= q.skip(removed as int));
        }
    }
    assert(removed == taken(q.len(), state.slide_size as nat));
    Some(WindowPacket(window_packet))
}

/// The total length of `chunks`.
pub open spec fn total_len(chunks: Seq<Seq<u8>>) -> nat
    decreases chunks.len(),
{
    if chunks.len() == 0 {
        0
    } else {
        total_len(chunks.drop_last()) + chunks.last().len()
    }
}

/// The number of windows that `n` chunks give with `1 <= slide <= window`.
pub open spec fn window_count(window: nat, slide: nat, n: nat) -> nat {
    if n >= window {
        ((n - window) as int / slide as int + 1) as nat
    } else {
        0
    }
}

/// With `1 <= slide <= window`, feeding `chunks` emits windows made of
/// consecutive runs of `slide` chunks, from the first chunk on; the queue then
/// holds the chunks after the last window, fewer than `window` of them, and at
/// least `window - slide` once a window was emitted.
pub proof fn lemma_feed_shape(window: nat, slide: nat, chunks: Seq<Seq<u8>>)
    requires
        1 <= slide <= window,
    ensures
        ({
            let (pending, windows) = feed(window, slide, chunks);
            let c = windows.len() as int;
            &&& c * slide <= chunks.len()
            &&& pending == chunks.subrange(c * slide, chunks.len() as int)
            &&& pending.len() < window
            &&& (c > 0 ==> pending.len() + slide >= window)
            &&& forall|k: int|
                0 <= k < c ==> #[trigger] windows[k] == concat(
                    chunks.subrange(k * slide, k * slide + slide),
                )
        }),
    decreases chunks.len(),
{
    if chunks.len() > 0 {
        let prev = chunks.drop_last();
        lemma_feed_shape(window, slide, prev);
        let (pending, windows) = feed(window, slide, prev);
        let c = windows.len() as int;
        let n = prev.len() as int;
        let q = pending.push(chunks.last());
        assert(q =~= chunks.subrange(c * slide, n + 1));
        assert forall|k: int| 0 <= k < c implies #[trigger] windows[k] == concat(
            chunks.subrange(k * slide, k * slide + slide),
        ) by {
            assert(k * slide + slide <= c * slide) by (nonlinear_arith)
                requires
                    0 <= k < c,
                    slide >= 1,
            ;
            assert(prev.subrange(k * slide, k * slide + slide) =~= chunks.subrange(
                k * slide,
                k * slide + slide,
            ));
        }
        if q.len() >= window {
            assert((c + 1) * slide == c * slide + slide) by (nonlinear_arith);
            assert(q.skip(slide as int) =~= chunks.subrange((c + 1) * slide, n + 1));
            assert(q.take(slide as int) =~= chunks.subrange(c * slide, c * slide + slide));
            let windows2 = windows.push(concat(q.take(slide as int)));
            assert(feed(window, slide, chunks).1 == windows2);
            assert forall|k: int| 0 <= k < c + 1 implies #[trigger] windows2[k] == concat(
                chunks.subrange(k * slide, k * slide + slide),
            ) by {
                if k < c {
                    assert(windows2[k] == windows[k]);
                }
            }
        }
    }
}

/// Fed `n` chunks with `1 <= slide <= window`, the aggregator emits
/// `(n - window) / slide + 1` windows once `n >= window`, and none before.
pub proof fn lemma_window_count(window: nat, slide: nat, chunks: Seq<Seq<u8>>)
    requires
        1 <= slide <= window,
    ensures
        feed(window, slide, chunks).1.len() == window_count(window, slide, chunks.len()),
{
    lemma_feed_shape(window, slide, chunks);
    let (pending, windows) = feed(window, slide, chunks);
    let c = windows.len() as int;
    let n = chunks.len() as int;
    let r = pending.len() as int;
    let (w, s) = (window as int, slide as int);
    assert(r == n - c * s);
    if c > 0 {
        assert(c * s == (c - 1) * s + s) by (nonlinear_arith);
        assert((c - 1) * s >= 0) by (nonlinear_arith)
            requires
                c >= 1,
                s >= 1,
        ;
        assert(n >= w);
        lemma_fundamental_div_mod_converse(n - w, s, c - 1, r + s - w);
    }
}

/// With `1 <= slide <= window`, window `k` holds chunks `k * slide` up to
/// `k * slide + slide`, concatenated: its length is the sum of theirs.
pub proof fn lemma_window_contents(window: nat, slide: nat, chunks: Seq<Seq<u8>>, k: int)
    requires
        1 <= slide <= window,
        0 <= k < feed(window, slide, chunks).1.len(),
    ensures
        k * slide + slide <= chunks.len(),
        feed(window, slide, chunks).1[k] == concat(chunks.subrange(k * slide, k * slide + slide)),
        feed(window, slide, chunks).1[k].len() == total_len(
            chunks.subrange(k * slide, k * slide + slide),
        ),
{
    lemma_feed_shape(window, slide, chunks);
    let c = feed(window, slide, chunks).1.len();
    assert(k * slide + slide <= c * slide) by (nonlinear_arith)
        requires
            0 <= k < c,
            slide >= 1,
    ;
    lemma_concat_len(chunks.subrange(k * slide, k * slide + slide));
}

/// Whatever the sizes, a window's length is the sum of the lengths of the
/// chunks that left the queue with it.
pub proof fn lemma_step_window_len(
    window: nat,
    slide: nat,
    pending: Seq<Seq<u8>>,
    chunk: Seq<u8>,
)
    ensures
        step(window, slide, pending, chunk).1 matches Some(w) ==> w.len() == total_len(
            pending.push(chunk).take(taken(pending.len() + 1, slide) as int),
        ),
{
    lemma_concat_len(pending.push(chunk).take(taken(pending.len() + 1, slide) as int));
}

proof fn lemma_concat_len(chunks: Seq<Seq<u8>>)
    ensures
        concat(chunks).len() == total_len(chunks),
    decreases chunks.len(),
{
    if chunks.len() > 0 {
        lemma_concat_len(chunks.drop_last());
    }
}

proof fn lemma_total_len_uniform(chunks: Seq<Seq<u8>>, size: nat)
    requires
        forall|i: int| 0 <= i < chunks.len() ==> (#[trigger] chunks[i]).len() == size,
    ensures
        total_len(chunks) == chunks.len() * size,
    decreases chunks.len(),
{
    if chunks.len() > 0 {
        let prev = chunks.drop_last();
        assert forall|i: int| 0 <= i < prev.len() implies (#[trigger] prev[i]).len() == size by {
            assert(prev[i] == chunks[i]);
        }
        lemma_total_len_uniform(prev, size);
        assert(chunks.len() * size == prev.len() * size + size) by (nonlinear_arith)
            requires
                chunks.len() == prev.len() + 1,
        ;
    }
}

/// When every chunk has `size` bytes, every window has `slide * size` bytes.
pub proof fn lemma_uniform_window_len(
    window: nat,
    slide: nat,
    chunks: Seq<Seq<u8>>,
    size: nat,
    k: int,
)
    requires
        1 <= slide <= window,
        forall|i: int| 0 <= i < chunks.len() ==> (#[trigger] chunks[i]).len() == size,
        0 <= k < feed(window, slide, chunks).1.len(),
    ensures
        feed(window, slide, chunks).1[k].len() == slide * size,
{
    lemma_window_contents(window, slide, chunks, k);
    let run = chunks.subrange(k * slide, k * slide + slide);
    assert forall|i: int| 0 <= i < run.len() implies (#[trigger] run[i]).len() == size by {
        assert(run[i] == chunks[k * slide + i]);
    }
    lemma_total_len_uniform(run, size);
}

/// The queue at the moment of emission `k`, just before the window leaves it:
/// the state after the first `k * slide + window - 1` chunks, with the next
/// chunk appended.
pub open spec fn queue_at_emission(window: nat, slide: nat, chunks: Seq<Seq<u8>>, k: int) -> Seq<
    Seq<u8>,
> {
    let n = k * slide + window - 1;
    feed(window, slide, chunks.take(n)).0.push(chunks[n])
}

/// With `1 <= slide < window`, emission `k` happens when the queue holds the
/// `window` chunks from `k * slide` on. After it the last `window - slide` of
/// them stay queued, and they are the first `window - slide` chunks queued at
/// emission `k + 1`: consecutive spans overlap by exactly `window - slide`
/// chunks, with the same bytes.
pub proof fn lemma_window_overlap(window: nat, slide: nat, chunks: Seq<Seq<u8>>, k: int)
    requires
        1 <= slide < window,
        0 <= k,
        (k + 1) * slide + window <= chunks.len(),
    ensures
        queue_at_emission(window, slide, chunks, k) == chunks.subrange(
            k * slide,
            k * slide + window,
        ),
        queue_at_emission(window, slide, chunks, k + 1) == chunks.subrange(
            (k + 1) * slide,
            (k + 1) * slide + window,
        ),
        step(window, slide, feed(window, slide, chunks.take(k * slide + window - 1)).0,
            chunks[k * slide + window - 1]).0 == queue_at_emission(window, slide, chunks, k).skip(
            slide as int,
        ),
        queue_at_emission(window, slide, chunks, k).skip(slide as int) == queue_at_emission(
            window,
            slide,
            chunks,
            k + 1,
        ).take(window - slide),
        queue_at_emission(window, slide, chunks, k).skip(slide as int).len() == window - slide,
        concat(queue_at_emission(window, slide, chunks, k).skip(slide as int)) == concat(
            queue_at_emission(window, slide, chunks, k + 1).take(window - slide),
        ),
{
    assert((k + 1) * slide == k * slide + slide) by (nonlinear_arith);
    assert(k * slide >= 0) by (nonlinear_arith)
        requires
            k >= 0,
    ;
    lemma_queue_at_emission(window, slide, chunks, k);
    lemma_queue_at_emission(window, slide, chunks, k + 1);
    let a = chunks.subrange(k * slide, k * slide + window);
    let b = chunks.subrange((k + 1) * slide, (k + 1) * slide + window);
    assert(a.skip(slide as int) =~= b.take(window - slide));
}

proof fn lemma_queue_at_emission(window: nat, slide: nat, chunks: Seq<Seq<u8>>, k: int)
    requires
        1 <= slide <= window,
        0 <= k,
        k * slide + window <= chunks.len(),
    ensures
        queue_at_emission(window, slide, chunks, k) == chunks.subrange(
            k * slide,
            k * slide + window,
        ),
{
    let n = k * slide + window - 1;
    let prefix = chunks.take(n as int);
    lemma_feed_shape(window, slide, prefix);
    lemma_window_count(window, slide, prefix);
    let c = feed(window, slide, prefix).1.len() as int;
    if k > 0 {
        assert(k * slide == (k - 1) * slide + slide) by (nonlinear_arith);
        assert((k - 1) * slide >= 0) by (nonlinear_arith)
            requires
                k >= 1,
        ;
        lemma_fundamental_div_mod_converse(
            n - window,
            slide as int,
            k - 1,
            slide - 1,
        );
        assert(c == k);
    } else {
        assert(c == 0);
    }
    assert(feed(window, slide, prefix).0.push(chunks[n as int]) =~= chunks.subrange(
        k * slide,
        k * slide + window,
    ));
}

} // verus!
