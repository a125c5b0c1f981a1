//! The pairwise join of two tasks.

use crate::poll::Poll;
use crate::task::{all_done, leaf_polled, polled_once, LeafState, Task};
use vstd::prelude::*;

verus! {

/// Two tasks run side by side as one.
///
/// Each poll of the join polls both sides, the first before the rest, and the
/// join has finished once both sides have.
pub struct Join<A: Task, B: Task> {
    first: A,
    rest: B,
}

impl<A: Task, B: Task> Join<A, B> {
    /// The task on the left.
    pub closed spec fn first(&self) -> A {
        self.first
    }

    /// The task on the right.
    pub closed spec fn rest(&self) -> B {
        self.rest
    }

    /// The two tasks of the join.
    pub fn parts(&self) -> (parts: (&A, &B))
        ensures
            *parts.0 == self.first(),
            *parts.1 == self.rest(),
    {
        (&self.first, &self.rest)
    }

    /// Takes the join apart again.
    pub fn into_parts(self) -> (parts: (A, B))
        ensures
            parts.0 == self.first(),
            parts.1 == self.rest(),
    {
        (self.first, self.rest)
    }
}

/// Joins `first` with `rest`.
pub fn join<A: Task, B: Task>(first: A, rest: B) -> (j: Join<A, B>)
    ensures
        j.first() == first,
        j.rest() == rest,
        j.leaves() == first.leaves() + rest.leaves(),
{
    Join { first, rest }
}

impl<A: Task, B: Task> Task for Join<A, B> {
    /// The leaves of the first task, followed by those of the rest.
    open spec fn leaves(&self) -> Seq<LeafState> {
        self.first().leaves() + self.rest().leaves()
    }

    /// Polls the first task and then the rest, each once, and is `Ready`
    /// when both are.
    fn poll(&mut self) -> (p: Poll<()>)
        ensures
            exists|first: &mut A, rest: &mut B|
                *first == old(self).first() && *final(first) == final(self).first()
                    && *rest == old(self).rest() && *final(rest) == final(self).rest()
                    && #[trigger] call_ensures(
                    A::poll,
                    (first,),
                    Poll::ready_if(all_done(final(self).first().leaves())),
                ) && #[trigger] call_ensures(
                    B::poll,
                    (rest,),
                    Poll::ready_if(all_done(final(self).rest().leaves())),
                ),
    {
        let first = self.first.poll();
        let rest = self.rest.poll();
        proof {
            lemma_polled_side_by_side(
                old(self).first.leaves(),
                self.first.leaves(),
                old(self).rest.leaves(),
                self.rest.leaves(),
            );
            lemma_all_done_concat(self.first.leaves(), self.rest.leaves());
            lemma_all_done_concat(old(self).first.leaves(), old(self).rest.leaves());
        }
        first.and(rest)
    }

    /// Whether both tasks have finished.
    fn is_done(&self) -> (b: bool) {
        proof {
            lemma_all_done_concat(self.first.leaves(), self.rest.leaves());
        }
        self.first.is_done() && self.rest.is_done()
    }
}

/// The leaves of `tasks` composed into one task: a single task is the
/// composition itself, and several are the join of the first with the
/// composition of the others.
pub open spec fn composed(tasks: Seq<Seq<LeafState>>) -> Seq<LeafState>
    decreases tasks.len(),
{
    if tasks.len() == 0 {
        Seq::empty()
    } else if tasks.len() == 1 {
        tasks[0]
    } else {
        tasks[0] + composed(tasks.drop_first())
    }
}

/// Composing a single task gives that task.
pub proof fn lemma_composed_single(task: Seq<LeafState>)
    ensures
        composed(seq![task]) == task,
{
}

/// Composing `first` with one or more `others` joins it with their
/// composition.
pub proof fn lemma_composed_join(first: Seq<LeafState>, others: Seq<Seq<LeafState>>)
    requires
        others.len() >= 1,
    ensures
        composed(seq![first] + others) == first + composed(others),
{
    let tasks = seq![first] + others;
    assert(tasks.drop_first() == others);
}

/// Every leaf of every task is a leaf of the composition: a composition of
/// `n` tasks, for any `n`, polls all leaves of all of them when each of the
/// tasks does, and has finished exactly when all of them have.
pub proof fn lemma_composed_polled(before: Seq<Seq<LeafState>>, after: Seq<Seq<LeafState>>)
    requires
        before.len() == after.len(),
        forall|t: int| 0 <= t < before.len() ==> polled_once(#[trigger] before[t], after[t]),
    ensures
        polled_once(composed(before), composed(after)),
        all_done(composed(after)) <==> forall|t: int|
            0 <= t < after.len() ==> all_done(#[trigger] after[t]),
    decreases before.len(),
{
    if before.len() >= 2 {
        let before_others = before.drop_first();
        let after_others = after.drop_first();
        assert forall|t: int| 0 <= t < before_others.len() implies polled_once(
            #[trigger] before_others[t],
            after_others[t],
        ) by {
            assert(polled_once(before[t + 1], after[t + 1]));
        }
        lemma_composed_polled(before_others, after_others);
        lemma_polled_side_by_side(
            before[0],
            after[0],
            composed(before_others),
            composed(after_others),
        );
        lemma_all_done_concat(after[0], composed(after_others));
        if all_done(composed(after)) {
            assert forall|t: int| 0 <= t < after.len() implies all_done(#[trigger] after[t]) by {
                if t > 0 {
                    assert(after[t] == after_others[t - 1]);
                }
            }
        }
        if forall|t: int| 0 <= t < after.len() ==> all_done(#[trigger] after[t]) {
            assert forall|t: int| 0 <= t < after_others.len() implies all_done(
                #[trigger] after_others[t],
            ) by {
                assert(after_others[t] == after[t + 1]);
            }
        }
    }
}

/// Polling two tasks polls the leaves of both, taken together.
pub proof fn lemma_polled_side_by_side(
    first_pre: Seq<LeafState>,
    first_post: Seq<LeafState>,
    rest_pre: Seq<LeafState>,
    rest_post: Seq<LeafState>,
)
    requires
        polled_once(first_pre, first_post),
        polled_once(rest_pre, rest_post),
    ensures
        polled_once(first_pre + rest_pre, first_post + rest_post),
{
    let pre = first_pre + rest_pre;
    let post = first_post + rest_post;
    assert forall|i: int| 0 <= i < pre.len() implies leaf_polled(#[trigger] pre[i], post[i]) by {
        if i < first_pre.len() {
            assert(leaf_polled(first_pre[i], first_post[i]));
        } else {
            assert(leaf_polled(rest_pre[i - first_pre.len()], rest_post[i - first_pre.len()]));
        }
    }
}

/// Two tasks taken together have finished exactly when each of them has.
pub proof fn lemma_all_done_concat(first: Seq<LeafState>, rest: Seq<LeafState>)
    ensures
        all_done(first + rest) <==> all_done(first) && all_done(rest),
{
    let both = first + rest;
    if all_done(both) {
        assert forall|i: int| 0 <= i < first.len() implies (#[trigger] first[i]).done by {
            assert(both[i] == first[i]);
        }
        assert forall|i: int| 0 <= i < rest.len() implies (#[trigger] rest[i]).done by {
            assert(both[i + first.len()] == rest[i]);
        }
    }
    if all_done(first) && all_done(rest) {
        assert forall|i: int| 0 <= i < both.len() implies (#[trigger] both[i]).done by {
            if i < first.len() {
                assert(first[i].done);
            } else {
                assert(rest[i - first.len()].done);
            }
        }
    }
}

} // verus!
