//! Processing a stream item by item, with a mutable state, until the processor says it is
//! done: then the rest of the stream and the state are handed back.
//!
//! Polling the stream and running the processor are the caller's part. What is kept here is
//! who holds the stream and the state between polls, and what each poll amounts to.

use vstd::pervasive::unreached;
use vstd::prelude::*;

verus! {

/// Where the stream and the state are between polls.
pub enum State<S, M> {
    /// They are kept here, for the next poll.
    Processing(S, M),
    /// They are out: a poll is under way, or they were handed back for good.
    Empty,
}

/// What one poll of the stream came to.
#[derive(Clone, Copy, Debug, PartialEq, Eq, Structural)]
pub enum Polled {
    /// The stream yielded an item, and the processor said whether it is done.
    Item { done: bool },
    /// The stream has ended.
    End,
    /// The stream has nothing to yield yet.
    NotReady,
    /// The stream failed.
    Failed,
}

/// Processes a stream by applying a function to each element, with a mutable state, until
/// that function returns `true`, and then returns the remaining stream and the mutable
/// state.
pub struct StreamProcess<S, M> {
    pub state: State<S, M>,
}

impl<S, M> StreamProcess<S, M> {
    pub fn new(stream: S, initial_state: M) -> (r: StreamProcess<S, M>)
        ensures
            r.state == State::Processing(stream, initial_state),
    {
        StreamProcess { state: State::Processing(stream, initial_state) }
    }

    /// Whether the stream and the state are kept here, so that a poll can begin.
    pub fn is_processing(&self) -> (b: bool)
        ensures
            b == self.state is Processing,
    {
        match &self.state {
            State::Processing(_, _) => true,
            State::Empty => false,
        }
    }

    /// Begins a poll: takes the stream and the state out. There must be something to take:
    /// once they were handed back for good, there is nothing to poll.
    pub fn begin_poll(&mut self) -> (r: (S, M))
        requires
            old(self).state is Processing,
        ensures
            old(self).state == State::Processing(r.0, r.1),
            final(self).state is Empty,
    {
        let mut state = State::Empty;
        std::mem::swap(&mut state, &mut self.state);
        match state {
            State::Processing(stream, state) => (stream, state),
            State::Empty => unreached(),
        }
    }

    /// Ends a poll, given what it came to. The stream and the state are handed back for
    /// good when the processor is done and when the stream has ended; they are kept for the
    /// next poll when the processor is not done and when the stream is not ready; they are
    /// let go when the stream failed.
    pub fn end_poll(&mut self, stream: S, state: M, polled: Polled) -> (r: Option<(S, M)>)
        ensures
            match polled {
                Polled::Item { done: true } | Polled::End => r == Some((stream, state))
                    && final(self).state is Empty,
                Polled::Item { done: false } | Polled::NotReady => r is None && final(self).state
                    == State::Processing(stream, state),
                Polled::Failed => r is None && final(self).state is Empty,
            },
    {
        match polled {
            Polled::Item { done: true } | Polled::End => {
                self.state = State::Empty;
                Some((stream, state))
            },
            Polled::Item { done: false } | Polled::NotReady => {
                self.state = State::Processing(stream, state);
                None
            },
            Polled::Failed => {
                self.state = State::Empty;
                None
            },
        }
    }
}

} // verus!
