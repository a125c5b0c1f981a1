//! What a task goes through when it is polled again and again.
//!
//! A run lists the leaf states of one task before its first poll and after
//! each poll that follows. The laws below hold of every run, whatever the
//! task is made of and whatever its leaves do when they are resumed.

use crate::task::{all_done, leaf_polled, polled_once, LeafState};
use vstd::prelude::*;

verus! {

/// Whether `run` lists the leaf states of a task over a series of polls:
/// each entry but the first is what one poll made of the entry before it.
pub open spec fn is_run(run: Seq<Seq<LeafState>>) -> bool {
    forall|j: int| 0 <= j < run.len() - 1 ==> polled_once(#[trigger] run[j], run[j + 1])
}

/// A task keeps its leaves: after any number of polls there are as many as
/// there were at the start.
pub proof fn lemma_leaves_stay(run: Seq<Seq<LeafState>>, j: int)
    requires
        is_run(run),
        0 <= j < run.len(),
    ensures
        run[j].len() == run[0].len(),
    decreases j,
{
    if j > 0 {
        lemma_leaves_stay(run, j - 1);
        assert(polled_once(run[j - 1], run[j]));
    }
}

/// A leaf that has finished stays as it is: later polls neither resume it nor
/// take its completion back.
pub proof fn lemma_finished_leaf_rests(run: Seq<Seq<LeafState>>, i: int, j: int, k: int)
    requires
        is_run(run),
        0 <= j <= k < run.len(),
        0 <= i < run[0].len(),
        run[j][i].done,
    ensures
        run[k][i] == run[j][i],
    decreases k - j,
{
    if j < k {
        lemma_finished_leaf_rests(run, i, j, k - 1);
        lemma_leaves_stay(run, k - 1);
        assert(polled_once(run[k - 1], run[k]));
        assert(leaf_polled(run[k - 1][i], run[k][i]));
    }
}

/// No leaf starves: a leaf that was unfinished before the `j`-th poll has
/// been resumed by each of the `j` polls, once by each.
pub proof fn lemma_no_starvation(run: Seq<Seq<LeafState>>, i: int, j: int)
    requires
        is_run(run),
        0 <= j < run.len(),
        0 <= i < run[0].len(),
        j > 0 ==> !run[j - 1][i].done,
    ensures
        run[j][i].progress == run[0][i].progress + j,
    decreases j,
{
    if j > 0 {
        lemma_leaves_stay(run, j - 1);
        if j > 1 && run[j - 2][i].done {
            lemma_finished_leaf_rests(run, i, j - 2, j - 1);
        }
        lemma_no_starvation(run, i, j - 1);
        assert(polled_once(run[j - 1], run[j]));
        assert(leaf_polled(run[j - 1][i], run[j][i]));
    }
}

/// A leaf takes as many polls inside a task as it takes turns on its own: if
/// it is fresh at the start and finishes on its `k`-th turn, then it is
/// unfinished after fewer than `k` polls of the task and finished, with `k`
/// turns taken, after `k` polls or more.
pub proof fn lemma_finishes_on_schedule(run: Seq<Seq<LeafState>>, i: int, k: nat, j: int)
    requires
        is_run(run),
        0 <= j < run.len(),
        0 <= i < run[0].len(),
        run[0][i] == LeafState::fresh(),
        k >= 1,
        forall|m: int|
            0 <= m < run.len() ==> ((#[trigger] run[m])[i].done <==> run[m][i].progress >= k),
    ensures
        run[j][i].done <==> j >= k,
        run[j][i].progress == (if j <= k { j } else { k as int }),
    decreases j,
{
    if j > 0 {
        lemma_finishes_on_schedule(run, i, k, j - 1);
        lemma_leaves_stay(run, j - 1);
        assert(polled_once(run[j - 1], run[j]));
        assert(leaf_polled(run[j - 1][i], run[j][i]));
    }
}

/// A task with a leaf that never finishes never finishes: as long as one
/// leaf is unfinished, the task is, and its poll returns `Pending`.
pub proof fn lemma_unfinished_leaf_keeps_task_pending(leaves: Seq<LeafState>, i: int)
    requires
        0 <= i < leaves.len(),
        !leaves[i].done,
    ensures
        !all_done(leaves),
{
}

/// A leaf that finishes beside one that never does: the task never finishes,
/// the one leaf finishes after `k` polls as it would alone, and the other has
/// had a turn at every poll.
pub proof fn lemma_finite_beside_endless(
    run: Seq<Seq<LeafState>>,
    finite: int,
    endless: int,
    k: nat,
    j: int,
)
    requires
        is_run(run),
        0 <= j < run.len(),
        0 <= finite < run[0].len(),
        0 <= endless < run[0].len(),
        run[0][finite] == LeafState::fresh(),
        k >= 1,
        forall|m: int|
            0 <= m < run.len() ==> ((#[trigger] run[m])[finite].done <==> run[m][finite].progress
                >= k),
        forall|m: int| 0 <= m < run.len() ==> !(#[trigger] run[m])[endless].done,
    ensures
        !all_done(run[j]),
        run[j][finite].done <==> j >= k,
        run[j][endless].progress == run[0][endless].progress + j,
{
    lemma_leaves_stay(run, j);
    lemma_unfinished_leaf_keeps_task_pending(run[j], endless);
    lemma_finishes_on_schedule(run, finite, k, j);
    lemma_no_starvation(run, endless, j);
}

} // verus!
