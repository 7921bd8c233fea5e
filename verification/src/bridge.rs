//! The bridge from background work to the thread that owns the lists: a
//! queue of commands with one consumer, drained in the order of
//! submission.

use vstd::prelude::*;

verus! {

/// A queue of commands on their way to their owner.
pub struct UpdateBridge<C> {
    pending: Vec<C>,
    open: bool,
}

impl<C> UpdateBridge<C> {
    /// The commands that wait, oldest first.
    pub closed spec fn pending(&self) -> Seq<C> {
        self.pending@
    }

    /// Whether the owner still takes commands.
    pub closed spec fn is_open(&self) -> bool {
        self.open
    }

    /// An open bridge without commands.
    pub fn new() -> (bridge: Self)
        ensures
            bridge.is_open(),
            bridge.pending() == Seq::<C>::empty(),
    {
        UpdateBridge { pending: Vec::new(), open: true }
    }

    /// Hands a command to the owner. Returns whether it was taken: once the
    /// owner is gone, commands are dropped.
    pub fn submit(&mut self, command: C) -> (taken: bool)
        ensures
            taken == old(self).is_open(),
            final(self).is_open() == old(self).is_open(),
            final(self).pending() == if taken {
                old(self).pending().push(command)
            } else {
                old(self).pending()
            },
    {
        if !self.open {
            return false;
        }
        self.pending.push(command);
        true
    }

    /// Number of commands that wait.
    pub fn len(&self) -> (n: usize)
        ensures
            n == self.pending().len(),
    {
        self.pending.len()
    }

    /// Takes every waiting command, oldest first, for the owner to apply.
    pub fn drain(&mut self) -> (commands: Vec<C>)
        ensures
            commands@ == old(self).pending(),
            final(self).pending() == Seq::<C>::empty(),
            final(self).is_open() == old(self).is_open(),
    {
        let mut commands: Vec<C> = Vec::new();
        core::mem::swap(&mut self.pending, &mut commands);
        commands
    }

    /// Marks the owner as gone: what waits is dropped, and so is whatever
    /// is submitted from now on.
    pub fn close(&mut self) -> (dropped: usize)
        ensures
            dropped == old(self).pending().len(),
            !final(self).is_open(),
            final(self).pending() == Seq::<C>::empty(),
    {
        let dropped = self.pending.len();
        self.pending = Vec::new();
        self.open = false;
        dropped
    }
}

/// What waits on an open bridge after the commands of `submitted` were
/// handed in one by one.
pub open spec fn after_submissions<C>(waiting: Seq<C>, submitted: Seq<C>) -> Seq<C>
    decreases submitted.len(),
{
    if submitted.len() == 0 {
        waiting
    } else {
        after_submissions(waiting, submitted.drop_last()).push(submitted.last())
    }
}

/// Commands reach their owner once each and in the order of submission:
/// what a drain returns after a run of submissions is what waited before,
/// followed by the submissions in their order.
pub proof fn lemma_bridge_keeps_order<C>(waiting: Seq<C>, submitted: Seq<C>)
    ensures
        after_submissions(waiting, submitted) == waiting + submitted,
    decreases submitted.len(),
{
    if submitted.len() == 0 {
        assert(waiting + submitted =~= waiting);
    } else {
        lemma_bridge_keeps_order(waiting, submitted.drop_last());
        assert((waiting + submitted.drop_last()).push(submitted.last()) =~= waiting + submitted);
    }
}

} // verus!
