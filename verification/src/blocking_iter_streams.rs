//! The states of a stream that runs a blocking iterator off the executor.
//!
//! The stream hands its iterator to a worker thread for each element and
//! gets it back with the element. This module keeps the book: who holds the
//! iterator, and what the size hint is meanwhile.

use vstd::prelude::*;
use crate::size_hint::{decrement_size_hint, spec_decrement_size_hint, SizeHint};

verus! {

/// What a stream holds between two polls.
pub enum BlockingIterStreamState<I, F> {
    /// We have an iterator which we can ask for the next value.
    Iter(I),
    /// We are waiting on a future to complete. The future owns the iterator
    /// and gives it back with the next value.
    Waiting(F),
}

/// A stream wrapping a blocking iterator `I`, whose calls run as futures `F`.
pub struct BlockingIterStream<I, F> {
    /// The size hint to report while the iterator is away.
    pub size_hint: (usize, Option<usize>),
    /// What the stream holds; nothing only in the middle of a poll.
    pub state: Option<BlockingIterStreamState<I, F>>,
}

/// What a poll has to do first.
pub enum PollStart<I, F> {
    /// Call `next` on the iterator on a worker thread, and poll the future of
    /// that call.
    Spawn { iter: I },
    /// Poll the future of the call that is under way.
    Resume { future: F },
}

impl<I, F> BlockingIterStream<I, F> {
    /// Create a new [`BlockingIterStream`] from an iterator and its size
    /// hint.
    pub fn new(iter: I, size_hint: (usize, Option<usize>)) -> (s: Self)
        ensures
            s.size_hint == size_hint,
            s.state == Some(BlockingIterStreamState::<I, F>::Iter(iter)),
    {
        Self { size_hint, state: Some(BlockingIterStreamState::Iter(iter)) }
    }

    /// Whether the stream holds its iterator.
    pub open spec fn holds_iter(&self) -> bool {
        self.state matches Some(BlockingIterStreamState::Iter(_))
    }

    /// Begin a poll: take what the stream holds. Where that is the iterator,
    /// whose own hint is `iter_size_hint`, the stream's hint becomes that hint
    /// less the element that the call is going to yield.
    pub fn begin_poll(&mut self, iter_size_hint: (usize, Option<usize>)) -> (start: PollStart<I, F>)
        requires
            old(self).state.is_some(),
        ensures
            final(self).state.is_none(),
            match old(self).state->Some_0 {
                BlockingIterStreamState::Iter(iter) => start == (PollStart::<I, F>::Spawn { iter })
                    && final(self).size_hint == spec_decrement_size_hint(iter_size_hint),
                BlockingIterStreamState::Waiting(future) => start == (PollStart::<
                    I,
                    F,
                >::Resume { future }) && final(self).size_hint == old(self).size_hint,
            },
    {
        let state = self.state.take();
        match state {
            Some(BlockingIterStreamState::Iter(iter)) => {
                self.size_hint = decrement_size_hint(iter_size_hint);
                PollStart::Spawn { iter }
            },
            Some(BlockingIterStreamState::Waiting(future)) => PollStart::Resume { future },
            None => vstd::pervasive::unreached(),
        }
    }

    /// End a poll whose future is ready: the iterator is back.
    pub fn finish_ready(&mut self, iter: I)
        ensures
            final(self).state == Some(BlockingIterStreamState::<I, F>::Iter(iter)),
            final(self).size_hint == old(self).size_hint,
    {
        self.state = Some(BlockingIterStreamState::Iter(iter));
    }

    /// End a poll whose future is pending: the call is still under way.
    pub fn finish_pending(&mut self, future: F)
        ensures
            final(self).state == Some(BlockingIterStreamState::<I, F>::Waiting(future)),
            final(self).size_hint == old(self).size_hint,
    {
        self.state = Some(BlockingIterStreamState::Waiting(future));
    }

    /// The iterator, where the stream holds it: its own size hint is then the
    /// hint of the stream.
    pub fn iter(&self) -> (iter: Option<&I>)
        ensures
            match self.state {
                Some(BlockingIterStreamState::Iter(held)) => iter == Some(&held),
                _ => iter.is_none(),
            },
    {
        match &self.state {
            Some(BlockingIterStreamState::Iter(held)) => Some(held),
            _ => None,
        }
    }

    /// The size hint of the stream: that of the iterator where the stream
    /// holds it, given as `iter_size_hint`, and the stored one otherwise.
    pub fn size_hint(&self, iter_size_hint: Option<(usize, Option<usize>)>) -> (hint: (
        usize,
        Option<usize>,
    ))
        ensures
            hint == match iter_size_hint {
                Some(h) => if self.holds_iter() {
                    h
                } else {
                    self.size_hint
                },
                None => self.size_hint,
            },
    {
        match iter_size_hint {
            Some(h) => match &self.state {
                Some(BlockingIterStreamState::Iter(_)) => h,
                _ => self.size_hint,
            },
            None => self.size_hint,
        }
    }
}

} // verus!
