use vstd::prelude::*;
use std::collections::VecDeque;

verus! {

/// A queue of items that can be closed: once closed it is empty and takes no more items.
#[derive(Debug)]
pub struct Stream<T> {
    queue: VecDeque<T>,
    closed: bool,
}

/// The abstract state of a stream: the queued items, oldest first, and whether it is closed.
pub struct StreamState<T> {
    pub items: Seq<T>,
    pub closed: bool,
}

/// The state after writing an item: appended at the back, unless the stream is closed.
pub open spec fn spec_write<T>(s: StreamState<T>, item: T) -> StreamState<T> {
    if s.closed {
        s
    } else {
        StreamState { items: s.items.push(item), closed: false }
    }
}

/// The state after closing: no items, closed.
pub open spec fn spec_close<T>(s: StreamState<T>) -> StreamState<T> {
    StreamState { items: Seq::empty(), closed: true }
}

/// The state after taking the next item (the oldest) off a nonempty stream.
pub open spec fn spec_next<T>(s: StreamState<T>) -> StreamState<T> {
    StreamState { items: s.items.drop_first(), closed: s.closed }
}

impl<T> View for Stream<T> {
    type V = StreamState<T>;

    closed spec fn view(&self) -> StreamState<T> {
        StreamState { items: self.queue@, closed: self.closed }
    }
}

impl<T> Stream<T> {
    /// An open, empty stream.
    pub fn new() -> (s: Self)
        ensures
            s@.items == Seq::<T>::empty(),
            !s@.closed,
    {
        Stream { queue: VecDeque::new(), closed: false }
    }

    /// Adds a task to the back of the stream; a closed stream ignores it.
    pub fn write(&mut self, item: T)
        ensures
            final(self)@ == spec_write(old(self)@, item),
    {
        if self.closed {
            return;
        }
        self.queue.push_back(item);
    }

    /// Closes the stream and drops what it holds.
    pub fn close(&mut self)
        ensures
            final(self)@ == spec_close(old(self)@),
    {
        self.queue = VecDeque::new();
        self.closed = true;
    }

    /// Whether the stream is closed.
    pub fn is_closed(&self) -> (b: bool)
        ensures
            b == self@.closed,
    {
        self.closed
    }

    /// Takes the next task (the oldest) off the stream.
    pub fn next(&mut self) -> (item: T)
        requires
            old(self)@.items.len() > 0,
        ensures
            item == old(self)@.items[0],
            final(self)@ == spec_next(old(self)@),
    {
        self.queue.pop_front().expect("Can't pop item from Stream")
    }
}

/// A closed stream stays as it is whatever is written to it.
pub proof fn lemma_closed_stream_ignores_writes<T>(s: StreamState<T>, item: T)
    requires
        s.closed,
    ensures
        spec_write(s, item) == s,
{
}

/// Closing twice is closing once.
pub proof fn lemma_close_idempotent<T>(s: StreamState<T>)
    ensures
        spec_close(spec_close(s)) == spec_close(s),
{
}

/// Items come out in the order they went in: after writing `item` to an open stream,
/// the next item is the oldest one that was already queued, or `item` if none was.
pub proof fn lemma_next_after_write<T>(s: StreamState<T>, item: T)
    requires
        !s.closed,
    ensures
        spec_write(s, item).items.len() > 0,
        spec_write(s, item).items[0] == (if s.items.len() > 0 { s.items[0] } else { item }),
        spec_next(spec_write(s, item)) == (if s.items.len() > 0 {
            spec_write(spec_next(s), item)
        } else {
            s
        }),
{
    if s.items.len() > 0 {
        assert(spec_next(spec_write(s, item)).items =~= spec_write(spec_next(s), item).items);
    } else {
        assert(spec_next(spec_write(s, item)).items =~= s.items);
    }
}

} // verus!
