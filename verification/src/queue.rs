//! Fixed-capacity, lock-free event queues, safe to fill from interrupt
//! context. Two kinds exist: one carrying raw scan codes and one carrying
//! decoded characters. Both are backed by `crossbeam_queue::ArrayQueue`;
//! what that queue holds is modelled as a sequence, oldest item first.

use vstd::prelude::*;
use crossbeam_queue::ArrayQueue;

verus! {

#[verifier::external_type_specification]
#[verifier::external_body]
#[verifier::reject_recursive_types(T)]
pub struct ExArrayQueue<T>(ArrayQueue<T>);

/// The scan codes currently stored in a backing queue, oldest first.
pub uninterp spec fn scan_queue_items(q: ArrayQueue<u8>) -> Seq<u8>;

/// The fixed capacity a scan-code backing queue was created with.
pub uninterp spec fn scan_queue_cap(q: ArrayQueue<u8>) -> nat;

/// The characters currently stored in a backing queue, oldest first.
pub uninterp spec fn char_queue_items(q: ArrayQueue<char>) -> Seq<char>;

/// The fixed capacity a character backing queue was created with.
pub uninterp spec fn char_queue_cap(q: ArrayQueue<char>) -> nat;

/// Relies on `ArrayQueue::new`, which creates an empty queue with the given
/// capacity and panics only on capacity zero.
#[verifier::external_body]
fn scan_queue_new(cap: usize) -> (q: ArrayQueue<u8>)
    requires
        1 <= cap,
    ensures
        scan_queue_items(q) == Seq::<u8>::empty(),
        scan_queue_cap(q) == cap,
{
    ArrayQueue::new(cap)
}

/// Relies on `ArrayQueue::push`, which appends the element unless the queue
/// is full, in which case it hands the element back as the error.
#[verifier::external_body]
fn scan_queue_push(q: &mut ArrayQueue<u8>, x: u8) -> (r: Result<(), u8>)
    ensures
        scan_queue_cap(*final(q)) == scan_queue_cap(*old(q)),
        scan_queue_items(*old(q)).len() < scan_queue_cap(*old(q)) ==> r is Ok
            && scan_queue_items(*final(q)) == scan_queue_items(*old(q)).push(x),
        scan_queue_items(*old(q)).len() >= scan_queue_cap(*old(q)) ==> (r matches Err(e) && e == x)
            && scan_queue_items(*final(q)) == scan_queue_items(*old(q)),
{
    q.push(x)
}

/// Relies on `ArrayQueue::pop`, which removes and returns the oldest
/// element, or returns `None` when the queue is empty.
#[verifier::external_body]
fn scan_queue_pop(q: &mut ArrayQueue<u8>) -> (r: Option<u8>)
    ensures
        scan_queue_cap(*final(q)) == scan_queue_cap(*old(q)),
        scan_queue_items(*old(q)).len() > 0 ==> r == Some(scan_queue_items(*old(q))[0])
            && scan_queue_items(*final(q)) == scan_queue_items(*old(q)).drop_first(),
        scan_queue_items(*old(q)).len() == 0 ==> r is None
            && scan_queue_items(*final(q)) == scan_queue_items(*old(q)),
{
    q.pop()
}

/// Relies on `ArrayQueue::len`, which returns the number of stored elements.
#[verifier::external_body]
fn scan_queue_len(q: &ArrayQueue<u8>) -> (r: usize)
    ensures
        r == scan_queue_items(*q).len(),
{
    q.len()
}

/// Relies on `ArrayQueue::new`, which creates an empty queue with the given
/// capacity and panics only on capacity zero.
#[verifier::external_body]
fn char_queue_new(cap: usize) -> (q: ArrayQueue<char>)
    requires
        1 <= cap,
    ensures
        char_queue_items(q) == Seq::<char>::empty(),
        char_queue_cap(q) == cap,
{
    ArrayQueue::new(cap)
}

/// Relies on `ArrayQueue::push`, which appends the element unless the queue
/// is full, in which case it hands the element back as the error.
#[verifier::external_body]
fn char_queue_push(q: &mut ArrayQueue<char>, x: char) -> (r: Result<(), char>)
    ensures
        char_queue_cap(*final(q)) == char_queue_cap(*old(q)),
        char_queue_items(*old(q)).len() < char_queue_cap(*old(q)) ==> r is Ok
            && char_queue_items(*final(q)) == char_queue_items(*old(q)).push(x),
        char_queue_items(*old(q)).len() >= char_queue_cap(*old(q)) ==> (r matches Err(e) && e == x)
            && char_queue_items(*final(q)) == char_queue_items(*old(q)),
{
    q.push(x)
}

/// Relies on `ArrayQueue::pop`, which removes and returns the oldest
/// element, or returns `None` when the queue is empty.
#[verifier::external_body]
fn char_queue_pop(q: &mut ArrayQueue<char>) -> (r: Option<char>)
    ensures
        char_queue_cap(*final(q)) == char_queue_cap(*old(q)),
        char_queue_items(*old(q)).len() > 0 ==> r == Some(char_queue_items(*old(q))[0])
            && char_queue_items(*final(q)) == char_queue_items(*old(q)).drop_first(),
        char_queue_items(*old(q)).len() == 0 ==> r is None
            && char_queue_items(*final(q)) == char_queue_items(*old(q)),
{
    q.pop()
}

/// Relies on `ArrayQueue::len`, which returns the number of stored elements.
#[verifier::external_body]
fn char_queue_len(q: &ArrayQueue<char>) -> (r: usize)
    ensures
        r == char_queue_items(*q).len(),
{
    q.len()
}

/// The bounded event queue carrying raw scan codes from the keyboard
/// interrupt handler to the decoder task. Its view is the stored sequence,
/// oldest first; `cap()` is the bound it was created with.
pub struct ScancodeQueue {
    inner: ArrayQueue<u8>,
}

impl View for ScancodeQueue {
    type V = Seq<u8>;

    closed spec fn view(&self) -> Seq<u8> {
        scan_queue_items(self.inner)
    }
}

impl ScancodeQueue {
    /// The fixed bound this queue was created with.
    pub closed spec fn cap(&self) -> nat {
        scan_queue_cap(self.inner)
    }

    /// Creates an empty queue with the given capacity.
    pub fn new(cap: usize) -> (q: Self)
        requires
            1 <= cap,
        ensures
            q@ == Seq::<u8>::empty(),
            q.cap() == cap,
    {
        ScancodeQueue { inner: scan_queue_new(cap) }
    }

    /// Appends an item; a full queue refuses it and hands it back, never
    /// overwriting stored items.
    pub fn push(&mut self, x: u8) -> (r: Result<(), u8>)
        ensures
            final(self).cap() == old(self).cap(),
            old(self)@.len() < old(self).cap() ==> r is Ok && final(self)@ == old(self)@.push(x),
            old(self)@.len() >= old(self).cap() ==> (r matches Err(e) && e == x)
                && final(self)@ == old(self)@,
    {
        scan_queue_push(&mut self.inner, x)
    }

    /// Removes and returns the oldest item, if any.
    pub fn pop(&mut self) -> (r: Option<u8>)
        ensures
            final(self).cap() == old(self).cap(),
            old(self)@.len() > 0 ==> r == Some(old(self)@[0])
                && final(self)@ == old(self)@.drop_first(),
            old(self)@.len() == 0 ==> r is None && final(self)@ == old(self)@,
    {
        scan_queue_pop(&mut self.inner)
    }

    /// The number of items currently stored.
    pub fn len(&self) -> (r: usize)
        ensures
            r == self@.len(),
    {
        scan_queue_len(&self.inner)
    }
}

/// The bounded event queue carrying decoded characters from the decoder
/// task to the line editor. Its view is the stored sequence, oldest first.
pub struct CharQueue {
    inner: ArrayQueue<char>,
}

impl View for CharQueue {
    type V = Seq<char>;

    closed spec fn view(&self) -> Seq<char> {
        char_queue_items(self.inner)
    }
}

impl CharQueue {
    /// The fixed bound this queue was created with.
    pub closed spec fn cap(&self) -> nat {
        char_queue_cap(self.inner)
    }

    /// Creates an empty queue with the given capacity.
    pub fn new(cap: usize) -> (q: Self)
        requires
            1 <= cap,
        ensures
            q@ == Seq::<char>::empty(),
            q.cap() == cap,
    {
        CharQueue { inner: char_queue_new(cap) }
    }

    /// Appends an item; a full queue refuses it and hands it back, never
    /// overwriting stored items.
    pub fn push(&mut self, x: char) -> (r: Result<(), char>)
        ensures
            final(self).cap() == old(self).cap(),
            old(self)@.len() < old(self).cap() ==> r is Ok && final(self)@ == old(self)@.push(x),
            old(self)@.len() >= old(self).cap() ==> (r matches Err(e) && e == x)
                && final(self)@ == old(self)@,
    {
        char_queue_push(&mut self.inner, x)
    }

    /// Removes and returns the oldest item, if any.
    pub fn pop(&mut self) -> (r: Option<char>)
        ensures
            final(self).cap() == old(self).cap(),
            old(self)@.len() > 0 ==> r == Some(old(self)@[0])
                && final(self)@ == old(self)@.drop_first(),
            old(self)@.len() == 0 ==> r is None && final(self)@ == old(self)@,
    {
        char_queue_pop(&mut self.inner)
    }

    /// The number of items currently stored.
    pub fn len(&self) -> (r: usize)
        ensures
            r == self@.len(),
    {
        char_queue_len(&self.inner)
    }
}

/// The queue contents after items are pushed one at a time, in order.
pub open spec fn pushed_all<T>(items: Seq<T>, xs: Seq<T>) -> Seq<T>
    decreases xs.len(),
{
    if xs.len() == 0 {
        items
    } else {
        pushed_all(items.push(xs[0]), xs.drop_first())
    }
}

/// First-in, first-out: pushing a sequence of items into an empty queue and
/// then draining it yields exactly that sequence, in push order. Since each
/// pop removes and returns the front of the stored sequence, the stored
/// sequence after the pushes is the drain order.
pub proof fn lemma_queue_fifo<T>(items: Seq<T>, xs: Seq<T>)
    ensures
        pushed_all(items, xs) == items + xs,
        pushed_all(Seq::<T>::empty(), xs) == xs,
    decreases xs.len(),
{
    if xs.len() == 0 {
        assert(pushed_all(items, xs) =~= items + xs);
        assert(Seq::<T>::empty() + xs =~= xs);
    } else {
        lemma_queue_fifo(items.push(xs[0]), xs.drop_first());
        assert(items.push(xs[0]) + xs.drop_first() =~= items + xs);
        lemma_queue_fifo(Seq::<T>::empty().push(xs[0]), xs.drop_first());
        assert(Seq::<T>::empty().push(xs[0]) + xs.drop_first() =~= xs);
    }
}

} // verus!
