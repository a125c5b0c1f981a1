//! Task bodies and what one scheduling opportunity does to them.
//!
//! A task is a tree whose leaves are the run loops of single devices or
//! processors and whose inner nodes are joins. All that a scheduler can
//! observe of a task is, for each leaf from left to right, how often the leaf
//! has been resumed and whether it has finished: its [`LeafState`]s.

use crate::poll::Poll;
use vstd::prelude::*;

verus! {

/// What is known of one leaf of a task.
pub ghost struct LeafState {
    /// How many times the leaf has been resumed.
    pub progress: nat,
    /// Whether the leaf has reported completion.
    pub done: bool,
}

impl LeafState {
    /// A leaf that has not been resumed yet.
    pub open spec fn fresh() -> LeafState {
        LeafState { progress: 0, done: false }
    }

    /// The leaf after a turn that came back with `ran`: it has been resumed
    /// once more, and has finished if `ran` is `Ready`.
    pub open spec fn resumed(self, ran: Poll<()>) -> LeafState {
        LeafState { progress: self.progress + 1, done: ran is Ready }
    }
}

/// One scheduling opportunity, seen from a single leaf: a leaf that has
/// finished is left alone, any other leaf is resumed exactly once.
pub open spec fn leaf_polled(pre: LeafState, post: LeafState) -> bool {
    if pre.done {
        post == pre
    } else {
        post.progress == pre.progress + 1
    }
}

/// One scheduling opportunity, seen from a whole task: every leaf is there
/// before and after, and each one has had its turn.
pub open spec fn polled_once(pre: Seq<LeafState>, post: Seq<LeafState>) -> bool {
    &&& post.len() == pre.len()
    &&& forall|i: int| 0 <= i < pre.len() ==> leaf_polled(#[trigger] pre[i], post[i])
}

/// Whether every leaf has reported completion.
pub open spec fn all_done(leaves: Seq<LeafState>) -> bool {
    forall|i: int| 0 <= i < leaves.len() ==> (#[trigger] leaves[i]).done
}

/// A task body without a result, driven by being polled.
pub trait Task: Sized {
    /// The state of each leaf, from left to right.
    spec fn leaves(&self) -> Seq<LeafState>;

    /// Gives every unfinished leaf of the task one turn.
    ///
    /// Returns `Ready` if and only if all leaves have finished by the end of
    /// the call. Polling a finished task changes nothing.
    fn poll(&mut self) -> (p: Poll<()>)
        ensures
            polled_once(old(self).leaves(), final(self).leaves()),
            p == Poll::ready_if(all_done(final(self).leaves())),
            all_done(old(self).leaves()) ==> *final(self) == *old(self),
    ;

    /// Whether all leaves of the task have finished.
    fn is_done(&self) -> (b: bool)
        ensures
            b == all_done(self.leaves()),
    ;
}

/// The record that a task keeps of its one leaf.
pub struct Leaf {
    done: bool,
    progress: Ghost<nat>,
}

impl View for Leaf {
    type V = LeafState;

    closed spec fn view(&self) -> LeafState {
        LeafState { progress: self.progress@, done: self.done }
    }
}

impl Leaf {
    /// The record of a leaf that has not been resumed yet.
    pub fn new() -> (leaf: Leaf)
        ensures
            leaf@ == LeafState::fresh(),
    {
        Leaf { done: false, progress: Ghost(0) }
    }

    /// Whether the leaf has finished.
    pub fn is_done(&self) -> (b: bool)
        ensures
            b == self@.done,
    {
        self.done
    }

    /// Records a turn of the leaf that came back with `ran`, and returns what
    /// the task reports for it.
    ///
    /// A leaf that had finished before takes no turns: its record stays as it
    /// is, and the report is `Ready` whatever `ran` is.
    pub fn record(&mut self, ran: Poll<()>) -> (p: Poll<()>)
        ensures
            final(self)@ == (if old(self)@.done {
                old(self)@
            } else {
                old(self)@.resumed(ran)
            }),
            p == Poll::ready_if(final(self)@.done),
    {
        if self.done {
            return Poll::Ready(());
        }
        proof {
            self.progress@ = self.progress@ + 1;
        }
        match ran {
            Poll::Ready(_) => {
                self.done = true;
                Poll::Ready(())
            },
            Poll::Pending => Poll::Pending,
        }
    }

    /// A task of one leaf has had its poll when the leaf has had its turn or,
    /// having finished, was left alone; it has finished when the leaf has.
    pub proof fn lemma_single_leaf(pre: LeafState, post: LeafState)
        ensures
            leaf_polled(pre, post) <==> polled_once(seq![pre], seq![post]),
            post.done <==> all_done(seq![post]),
    {
        assert(seq![pre][0] == pre);
        assert(seq![post][0] == post);
    }
}

} // verus!
