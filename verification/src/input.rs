//! The asynchronous input pipeline around the two bounded event queues: the
//! interrupt-side push entry points, the single-slot waker registries that
//! bridge a push to a suspended task, and the poll steps of the two stream
//! adapters. The cooperative scheduler itself lives outside; it hands a task
//! identity into each poll and performs the wakes that pushes hand back.

use vstd::prelude::*;
use crate::queue::{pushed_all, CharQueue, ScancodeQueue};

verus! {

/// The bound of the queue carrying raw scan codes.
pub const SCANCODE_QUEUE_CAPACITY: usize = 100;

/// The bound of the queue carrying decoded characters.
pub const CHAR_QUEUE_CAPACITY: usize = 256;

/// A single-slot "wake me when data arrives" cell: it remembers at most one
/// suspended task, by identity.
pub struct WakerSlot {
    task: Option<u64>,
}

impl WakerSlot {
    /// The task currently registered, if any.
    pub closed spec fn registered(&self) -> Option<u64> {
        self.task
    }

    /// An empty slot.
    pub fn new() -> (r: Self)
        ensures
            r.registered() is None,
    {
        WakerSlot { task: None }
    }

    /// Registers the given task, replacing any earlier registration.
    pub fn register(&mut self, task: u64)
        ensures
            final(self).registered() == Some(task),
    {
        self.task = Some(task);
    }

    /// Hands back the registered task for waking, emptying the slot.
    pub fn wake(&mut self) -> (r: Option<u64>)
        ensures
            final(self).registered() is None,
            r == old(self).registered(),
    {
        let t = self.task;
        self.task = None;
        t
    }

    /// Removes and returns the registration without waking anyone.
    pub fn take(&mut self) -> (r: Option<u64>)
        ensures
            final(self).registered() is None,
            r == old(self).registered(),
    {
        let t = self.task;
        self.task = None;
        t
    }
}

/// The process-wide input state, constructed once at startup and passed into
/// every component that needs it: the scan-code queue (created lazily by the
/// first `ScancodeStream`), the character queue, and their waker slots.
pub struct InputContext {
    /// The scan-code queue; `None` until a `ScancodeStream` is constructed.
    pub scancodes: Option<ScancodeQueue>,
    /// Wakes the task suspended on the scan-code queue.
    pub scancode_waker: WakerSlot,
    /// The decoded-character queue.
    pub chars: CharQueue,
    /// Wakes the task suspended on the character queue.
    pub char_waker: WakerSlot,
}

impl InputContext {
    /// Whether the scan-code queue has been initialized.
    pub open spec fn scan_initialized(&self) -> bool {
        self.scancodes is Some
    }

    /// The scan codes currently queued, oldest first.
    pub open spec fn scan_items(&self) -> Seq<u8> {
        match self.scancodes {
            Some(q) => q@,
            None => Seq::<u8>::empty(),
        }
    }

    /// The scan-code queue's bound.
    pub open spec fn scan_cap(&self) -> nat {
        match self.scancodes {
            Some(q) => q.cap(),
            None => 0,
        }
    }

    /// A fresh context: no scan-code queue yet, an empty character queue of
    /// the fixed bound, and no registered wakers.
    pub fn new() -> (r: Self)
        ensures
            !r.scan_initialized(),
            r.chars@ == Seq::<char>::empty(),
            r.chars.cap() == CHAR_QUEUE_CAPACITY as nat,
            r.scancode_waker.registered() is None,
            r.char_waker.registered() is None,
    {
        InputContext {
            scancodes: None,
            scancode_waker: WakerSlot::new(),
            chars: CharQueue::new(CHAR_QUEUE_CAPACITY),
            char_waker: WakerSlot::new(),
        }
    }
}

/// What a push into a bounded event queue did.
pub enum PushOutcome {
    /// The item was stored; holds the task to wake, if one was registered.
    Stored(Option<u64>),
    /// The queue was full: the item was dropped and a diagnostic is due.
    Dropped,
    /// The queue was never initialized; a diagnostic is due.
    Uninitialized,
}

/// What one poll of a stream adapter reported.
pub enum PollResult<T> {
    /// An item was taken from the queue.
    Ready(T),
    /// The queue was empty even after registering the waker; the task
    /// suspends until woken.
    Pending,
}

/// The state a push step leaves behind: the stored items, the waker slot,
/// and the reported outcome.
pub struct PushStep<T> {
    /// The queue contents after the push.
    pub items: Seq<T>,
    /// The waker registration after the push.
    pub waker: Option<u64>,
    /// What the push reported.
    pub outcome: PushOutcome,
}

/// A push into an initialized bounded queue: within the bound the item is
/// appended and the registered waker (if any) is handed back for invocation;
/// on a full queue the item is dropped and nothing else changes.
pub open spec fn spec_push_event<T>(items: Seq<T>, cap: nat, waker: Option<u64>, x: T) -> PushStep<
    T,
> {
    if items.len() < cap {
        PushStep { items: items.push(x), waker: None, outcome: PushOutcome::Stored(waker) }
    } else {
        PushStep { items, waker, outcome: PushOutcome::Dropped }
    }
}

/// The state a poll step leaves behind: the stored items, the waker slot,
/// and the reported result.
pub struct PollStep<T> {
    /// The queue contents after the poll.
    pub items: Seq<T>,
    /// The waker registration after the poll.
    pub waker: Option<u64>,
    /// What the poll reported.
    pub result: PollResult<T>,
}

/// One poll of a stream adapter: take the oldest item when one is present;
/// otherwise register the polling task's waker, re-check the queue, and only
/// then report pending.
pub open spec fn spec_poll<T>(items: Seq<T>, waker: Option<u64>, task: u64) -> PollStep<T> {
    if items.len() > 0 {
        PollStep { items: items.drop_first(), waker, result: PollResult::Ready(items[0]) }
    } else {
        PollStep { items, waker: Some(task), result: PollResult::Pending }
    }
}

/// Called by the keyboard interrupt handler: push one scan code. Never
/// blocks or allocates; a full queue drops the code, an uninitialized queue
/// refuses it, and in either case a diagnostic is due from the caller.
pub fn add_scancode(ctx: &mut InputContext, scancode: u8) -> (r: PushOutcome)
    ensures
        final(ctx).chars == old(ctx).chars,
        final(ctx).char_waker == old(ctx).char_waker,
        !old(ctx).scan_initialized() ==> (r is Uninitialized) && *final(ctx) == *old(ctx),
        old(ctx).scan_initialized() ==> ({
            let st = spec_push_event(
                old(ctx).scan_items(),
                old(ctx).scan_cap(),
                old(ctx).scancode_waker.registered(),
                scancode,
            );
            final(ctx).scan_initialized()
                && final(ctx).scan_cap() == old(ctx).scan_cap()
                && final(ctx).scan_items() == st.items
                && final(ctx).scancode_waker.registered() == st.waker
                && r == st.outcome
        }),
{
    match &mut ctx.scancodes {
        None => PushOutcome::Uninitialized,
        Some(q) => {
            match q.push(scancode) {
                Ok(_) => {
                    let woken = ctx.scancode_waker.wake();
                    PushOutcome::Stored(woken)
                },
                Err(_) => PushOutcome::Dropped,
            }
        },
    }
}

/// Push one decoded character into the character queue, waking the reader
/// when the push stored the character. A full queue drops it.
pub fn push_char(ctx: &mut InputContext, character: char) -> (r: PushOutcome)
    ensures
        final(ctx).scancodes == old(ctx).scancodes,
        final(ctx).scancode_waker == old(ctx).scancode_waker,
        final(ctx).chars.cap() == old(ctx).chars.cap(),
        ({
            let st = spec_push_event(
                old(ctx).chars@,
                old(ctx).chars.cap(),
                old(ctx).char_waker.registered(),
                character,
            );
            final(ctx).chars@ == st.items
                && final(ctx).char_waker.registered() == st.waker
                && r == st.outcome
        }),
{
    match ctx.chars.push(character) {
        Ok(_) => {
            let woken = ctx.char_waker.wake();
            PushOutcome::Stored(woken)
        },
        Err(_) => PushOutcome::Dropped,
    }
}

/// The error refusing a second `ScancodeStream`: the scan-code queue is a
/// process-wide singleton and re-initialization is a programming error.
pub struct AlreadyInitialized;

/// The async adapter exposing the scan-code queue as an infinite stream.
/// Constructing it initializes the queue; at most one may ever exist.
pub struct ScancodeStream {
    _private: (),
}

impl ScancodeStream {
    /// Creates the stream and the scan-code queue behind it. A second call
    /// finds the queue already initialized and is refused.
    pub fn new(ctx: &mut InputContext) -> (r: Result<ScancodeStream, AlreadyInitialized>)
        ensures
            final(ctx).chars == old(ctx).chars,
            final(ctx).char_waker == old(ctx).char_waker,
            final(ctx).scancode_waker == old(ctx).scancode_waker,
            !old(ctx).scan_initialized() ==> (r is Ok)
                && final(ctx).scan_initialized()
                && final(ctx).scan_items() == Seq::<u8>::empty()
                && final(ctx).scan_cap() == SCANCODE_QUEUE_CAPACITY as nat,
            old(ctx).scan_initialized() ==> (r is Err) && *final(ctx) == *old(ctx),
    {
        if ctx.scancodes.is_some() {
            return Err(AlreadyInitialized);
        }
        ctx.scancodes = Some(ScancodeQueue::new(SCANCODE_QUEUE_CAPACITY));
        Ok(ScancodeStream { _private: () })
    }

    /// One poll by the decoder task: the fast-path pop, then waker
    /// registration, then the re-check that closes the lost-wakeup window.
    /// Polling before the queue exists is a fatal programming error and is
    /// excluded by contract.
    pub fn poll_next(&self, ctx: &mut InputContext, task: u64) -> (r: PollResult<u8>)
        requires
            old(ctx).scan_initialized(),
        ensures
            final(ctx).chars == old(ctx).chars,
            final(ctx).char_waker == old(ctx).char_waker,
            final(ctx).scan_initialized(),
            final(ctx).scan_cap() == old(ctx).scan_cap(),
            ({
                let st = spec_poll(
                    old(ctx).scan_items(),
                    old(ctx).scancode_waker.registered(),
                    task,
                );
                final(ctx).scan_items() == st.items
                    && final(ctx).scancode_waker.registered() == st.waker
                    && r == st.result
            }),
    {
        let first = match &mut ctx.scancodes {
            Some(q) => q.pop(),
            None => None,
        };
        if let Some(sc) = first {
            return PollResult::Ready(sc);
        }
        ctx.scancode_waker.register(task);
        let second = match &mut ctx.scancodes {
            Some(q) => q.pop(),
            None => None,
        };
        match second {
            Some(sc) => {
                let _ = ctx.scancode_waker.take();
                PollResult::Ready(sc)
            },
            None => PollResult::Pending,
        }
    }
}

/// The async adapter exposing the character queue as an infinite stream.
pub struct InputStream;

impl InputStream {
    /// One poll by the line editor: the fast-path pop, then waker
    /// registration, then the re-check that closes the lost-wakeup window.
    pub fn poll_next(&self, ctx: &mut InputContext, task: u64) -> (r: PollResult<char>)
        ensures
            final(ctx).scancodes == old(ctx).scancodes,
            final(ctx).scancode_waker == old(ctx).scancode_waker,
            final(ctx).chars.cap() == old(ctx).chars.cap(),
            ({
                let st = spec_poll(old(ctx).chars@, old(ctx).char_waker.registered(), task);
                final(ctx).chars@ == st.items
                    && final(ctx).char_waker.registered() == st.waker
                    && r == st.result
            }),
    {
        let first = ctx.chars.pop();
        if let Some(c) = first {
            return PollResult::Ready(c);
        }
        ctx.char_waker.register(task);
        let second = ctx.chars.pop();
        match second {
            Some(c) => {
                let _ = ctx.char_waker.take();
                PollResult::Ready(c)
            },
            None => PollResult::Pending,
        }
    }
}

/// The items handed out by `n` successive poll steps, in order. Each step
/// takes the queue's front; once the queue is empty the remaining polls
/// report pending and deliver nothing.
pub open spec fn spec_poll_results<T>(
    items: Seq<T>,
    waker: Option<u64>,
    task: u64,
    n: int,
) -> Seq<T>
    decreases n,
{
    if n <= 0 {
        Seq::<T>::empty()
    } else {
        let st = spec_poll(items, waker, task);
        match st.result {
            PollResult::Ready(x) => seq![x] + spec_poll_results(st.items, st.waker, task, n - 1),
            PollResult::Pending => Seq::<T>::empty(),
        }
    }
}

proof fn lemma_poll_drain<T>(items: Seq<T>, waker: Option<u64>, task: u64, n: int)
    requires
        0 <= n <= items.len(),
    ensures
        spec_poll_results(items, waker, task, n) == items.take(n),
    decreases n,
{
    if n > 0 {
        lemma_poll_drain(items.drop_first(), waker, task, n - 1);
        assert(seq![items[0]] + items.drop_first().take(n - 1) =~= items.take(n));
    } else {
        assert(items.take(0) =~= Seq::<T>::empty());
    }
}

/// Whole-run first-in first-out: when the items `xs` were all accepted by
/// pushes into an initially empty queue (none dropped), `xs.len()`
/// successive polls return exactly `xs`, in push order — every accepted
/// item is delivered, none reordered, duplicated or coalesced — and more
/// generally the first `n` polls return the first `n` pushed items.
pub proof fn lemma_fifo_run<T>(xs: Seq<T>, waker: Option<u64>, task: u64, n: int)
    requires
        0 <= n <= xs.len(),
    ensures
        spec_poll_results(pushed_all(Seq::<T>::empty(), xs), waker, task, n) == xs.take(n),
        spec_poll_results(pushed_all(Seq::<T>::empty(), xs), waker, task, xs.len() as int) == xs,
{
    crate::queue::lemma_queue_fifo(Seq::<T>::empty(), xs);
    lemma_poll_drain(xs, waker, task, n);
    lemma_poll_drain(xs, waker, task, xs.len() as int);
    assert(xs.take(xs.len() as int) =~= xs);
}

/// Lost-wakeup freedom, over the queue and waker models: a poll step never
/// reports pending while an item is stored, and when it does report pending
/// its waker stays registered and the queue is empty, so the next push that
/// arrives finds room and hands back exactly that task for waking. A
/// consumer therefore observes an item either through its own pop or through
/// the wake that the push triggers; it is never left suspended while data
/// sits in the queue.
pub proof fn lemma_no_lost_wakeup<T>(items: Seq<T>, cap: nat, waker: Option<u64>, task: u64, x: T)
    requires
        1 <= cap,
    ensures
        items.len() > 0 ==> spec_poll(items, waker, task).result == PollResult::Ready(items[0]),
        spec_poll(items, waker, task).result is Pending ==> spec_push_event(
            spec_poll(items, waker, task).items,
            cap,
            spec_poll(items, waker, task).waker,
            x,
        ).outcome == PushOutcome::Stored(Some(task)),
{
}

} // verus!
