//! A first-in, first-out job queue with an explicit end marker, and
//! the bookkeeping rule of its run loop.  A message is either a job or
//! the end marker; `pop` hands the messages back in the order they
//! were queued.

use vstd::prelude::*;

verus! {

/// A unit of background work: a title for the logs and the work
/// itself, of whatever shape the runtime hands around.
pub struct Job<H> {
    /// The job's name, for reporting.
    pub title: String,
    /// The work to perform.
    pub handler: H,
}

/// A first-in, first-out queue of messages; `None` marks the end of
/// the queue's life.
pub struct Queue<T> {
    messages: Vec<Option<T>>,
}

impl<T> View for Queue<T> {
    type V = Seq<Option<T>>;

    closed spec fn view(&self) -> Seq<Option<T>> {
        self.messages@
    }
}

impl<T> Queue<T> {
    /// An empty queue.
    pub fn new() -> (r: Self)
        ensures
            r@ == Seq::<Option<T>>::empty(),
    {
        Queue { messages: Vec::new() }
    }

    /// Queue a job after everything already queued.
    pub fn push(&mut self, job: T)
        ensures
            final(self)@ == old(self)@.push(Some(job)),
    {
        self.messages.push(Some(job));
    }

    /// Take the oldest message: a job, or the end marker.
    pub fn pop(&mut self) -> (r: Option<T>)
        requires
            old(self)@.len() > 0,
        ensures
            r == old(self)@[0],
            final(self)@ == old(self)@.drop_first(),
    {
        let r = self.messages.remove(0);
        proof {
            assert(final(self)@ =~= old(self)@.drop_first());
        }
        r
    }

    /// Queue the end marker: whoever pops past the queued jobs learns
    /// that no more work is coming.
    pub fn end(&mut self)
        ensures
            final(self)@ == old(self)@.push(None),
    {
        self.messages.push(None);
    }

    /// How many messages are queued.
    pub fn len(&self) -> (n: usize)
        ensures
            n == self@.len(),
    {
        self.messages.len()
    }
}

/// One bookkeeping step of the queue's run loop: a finished job
/// decrements the optional execution budget, and a budget that reaches
/// zero signals shutdown.  A budget of zero never enters the loop.
pub fn run_step(remaining: Option<u64>) -> (r: (Option<u64>, bool))
    requires
        remaining != Some(0u64),
    ensures
        match remaining {
            Some(n) => r == (Some((n - 1) as u64), n == 1),
            None => r == (None::<u64>, false),
        },
{
    match remaining {
        Some(n) => (Some(n - 1), n == 1),
        None => (None, false),
    }
}

} // verus!
