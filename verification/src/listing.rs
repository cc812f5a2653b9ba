use vstd::prelude::*;
use crate::meta::Meta;
use crate::models::Task;

verus! {

broadcast use vstd::seq_lib::group_to_multiset_ensures;

/// The catalog positions `0, 1, …, n-1` in order.
pub open spec fn index_seq(n: nat) -> Seq<usize> {
    Seq::new(n, |i: int| i as usize)
}

/// True when some listed entry carries the catalog position `k`.
pub open spec fn lists_position(r: Seq<(usize, bool)>, k: int) -> bool {
    exists|a: int| 0 <= a < r.len() && (#[trigger] r[a]).0 == k
}

/// True when the listed catalog positions come in rank order.
pub open spec fn indices_sorted_by_rank(tasks: Seq<Task>, idxs: Seq<usize>) -> bool {
    forall|a: int, b: int|
        0 <= a < b < idxs.len() ==> tasks[(#[trigger] idxs[a]) as int].order_by <= tasks[(
        #[trigger] idxs[b]) as int].order_by
}

/// The position within `idxs` of an entry whose task ranks lowest among
/// `idxs[from..]`.
fn min_rank_position(tasks: &Vec<Task>, idxs: &Vec<usize>) -> (m: usize)
    requires
        idxs@.len() > 0,
        forall|j: int| 0 <= j < idxs@.len() ==> (#[trigger] idxs@[j]) < tasks@.len(),
    ensures
        0 <= m < idxs@.len(),
        forall|j: int|
            0 <= j < idxs@.len() ==> tasks@[idxs@[m as int] as int].order_by <= tasks@[(
            #[trigger] idxs@[j]) as int].order_by,
{
    let mut m: usize = 0;
    let mut i: usize = 1;
    while i < idxs.len()
        invariant
            forall|j: int| 0 <= j < idxs@.len() ==> (#[trigger] idxs@[j]) < tasks@.len(),
            0 <= m < i <= idxs@.len(),
            forall|j: int|
                0 <= j < i ==> tasks@[idxs@[m as int] as int].order_by <= tasks@[(
                #[trigger] idxs@[j]) as int].order_by,
        decreases idxs@.len() - i,
    {
        if tasks[idxs[i]].order_by < tasks[idxs[m]].order_by {
            m = i;
        }
        i = i + 1;
    }
    m
}

/// The catalog positions sorted by task rank: a rearrangement of
/// `0, …, n-1` along which the ranks never decrease.
pub fn sorted_indices(tasks: &Vec<Task>) -> (r: Vec<usize>)
    ensures
        r@.len() == tasks@.len(),
        forall|a: int| 0 <= a < r@.len() ==> (#[trigger] r@[a]) < tasks@.len(),
        indices_sorted_by_rank(tasks@, r@),
        r@.to_multiset() == index_seq(tasks@.len()).to_multiset(),
{
    let n = tasks.len();
    let mut rest: Vec<usize> = Vec::new();
    let mut k: usize = 0;
    while k < n
        invariant
            0 <= k <= n,
            rest@.len() == k,
            forall|j: int| 0 <= j < k ==> (#[trigger] rest@[j]) == j,
        decreases n - k,
    {
        rest.push(k);
        k = k + 1;
    }
    proof {
        assert(rest@ =~= index_seq(n as nat));
    }
    let ghost ident = rest@;
    let mut out: Vec<usize> = Vec::new();
    while rest.len() > 0
        invariant
            forall|j: int| 0 <= j < rest@.len() ==> (#[trigger] rest@[j]) < tasks@.len(),
            forall|a: int| 0 <= a < out@.len() ==> (#[trigger] out@[a]) < tasks@.len(),
            out@.len() + rest@.len() == ident.len(),
            out@.to_multiset().add(rest@.to_multiset()) == ident.to_multiset(),
            indices_sorted_by_rank(tasks@, out@),
            forall|a: int, j: int|
                0 <= a < out@.len() && 0 <= j < rest@.len() ==> tasks@[(#[trigger] out@[a]) as int].order_by
                    <= tasks@[(#[trigger] rest@[j]) as int].order_by,
        decreases rest@.len(),
    {
        let m = min_rank_position(tasks, &rest);
        let ghost old_rest = rest@;
        let ghost old_out = out@;
        let x = rest.remove(m);
        out.push(x);
        proof {
            assert(old_rest.to_multiset().contains(x)) by {
                assert(old_rest[m as int] == x);
            };
            assert(out@.to_multiset().add(rest@.to_multiset()) =~= old_out.to_multiset().add(
                old_rest.to_multiset(),
            ));
            assert(forall|j: int|
                0 <= j < rest@.len() ==> #[trigger] rest@[j] == if j < m {
                    old_rest[j]
                } else {
                    old_rest[j + 1]
                });
            assert(indices_sorted_by_rank(tasks@, out@)) by {
                assert(forall|a: int|
                    0 <= a < old_out.len() ==> tasks@[(#[trigger] old_out[a]) as int].order_by
                        <= tasks@[x as int].order_by);
            };
        }
    }
    proof {
        assert(rest@ =~= Seq::<usize>::empty());
        assert(out@.to_multiset().add(rest@.to_multiset()) =~= out@.to_multiset());
    }
    out
}

/// The task list as it is displayed: every catalog position exactly once,
/// ordered by rank, each paired with whether that task is solved.
pub fn list_tasks(meta: &Meta) -> (r: Vec<(usize, bool)>)
    ensures
        r@.len() == meta.task_dir().tasks_seq().len(),
        forall|a: int|
            0 <= a < r@.len() ==> (#[trigger] r@[a]).0 < meta.task_dir().tasks_seq().len(),
        forall|a: int, b: int|
            0 <= a < b < r@.len() ==> meta.task_dir().tasks_seq()[(#[trigger] r@[a]).0 as int].order_by
                <= meta.task_dir().tasks_seq()[(#[trigger] r@[b]).0 as int].order_by,
        forall|k: int|
            0 <= k < meta.task_dir().tasks_seq().len() ==> #[trigger] lists_position(r@, k),
        forall|a: int|
            0 <= a < r@.len() ==> (#[trigger] r@[a]).1 == meta.task_dir().solved_seq().contains(
                meta.task_dir().tasks_seq()[r@[a].0 as int].taskid,
            ),
{
    let tasks = meta.tasks();
    let idxs = sorted_indices(tasks);
    let solved = meta.solved_task_ids();
    let ghost ident = index_seq(tasks@.len());
    let mut r: Vec<(usize, bool)> = Vec::new();
    let mut i: usize = 0;
    while i < idxs.len()
        invariant
            tasks@ == meta.task_dir().tasks_seq(),
            solved@ == meta.task_dir().solved_seq(),
            idxs@.len() == tasks@.len(),
            forall|a: int| 0 <= a < idxs@.len() ==> (#[trigger] idxs@[a]) < tasks@.len(),
            indices_sorted_by_rank(tasks@, idxs@),
            idxs@.to_multiset() == ident.to_multiset(),
            0 <= i <= idxs@.len(),
            r@.len() == i,
            forall|a: int| 0 <= a < i ==> (#[trigger] r@[a]).0 == idxs@[a],
            forall|a: int|
                0 <= a < i ==> (#[trigger] r@[a]).1 == solved@.contains(
                    tasks@[r@[a].0 as int].taskid,
                ),
        decreases idxs@.len() - i,
    {
        let idx = idxs[i];
        let flag = contains_id(solved, tasks[idx].taskid);
        r.push((idx, flag));
        i = i + 1;
    }
    proof {
        assert forall|k: int| 0 <= k < tasks@.len() implies #[trigger] lists_position(r@, k) by {
            assert(ident[k] == k as usize);
            assert(ident.to_multiset().contains(k as usize)) by {
                assert(ident.to_multiset().count(k as usize) > 0) by {
                    assert(ident.contains(k as usize));
                };
            };
            assert(idxs@.to_multiset().contains(k as usize));
            assert(idxs@.contains(k as usize));
            let a = choose|a: int| 0 <= a < idxs@.len() && idxs@[a] == k as usize;
            assert(r@[a].0 == k);
        }
    }
    r
}

/// True when `v` holds `x`.
fn contains_id(v: &Vec<usize>, x: usize) -> (r: bool)
    ensures
        r == v@.contains(x),
{
    let mut i: usize = 0;
    while i < v.len()
        invariant
            0 <= i <= v@.len(),
            forall|j: int| 0 <= j < i ==> v@[j] != x,
        decreases v@.len() - i,
    {
        if v[i] == x {
            return true;
        }
        i = i + 1;
    }
    false
}

/// The rounded share of solved tasks, in percent, as the task list summary
/// shows it: the exact ratio times one hundred, rounded half up.
pub fn solved_percent(solved: usize, total: usize) -> (r: usize)
    requires
        0 < total,
        solved <= total,
        total <= usize::MAX / 201,
    ensures
        r == (200 * solved + total) / (2 * total),
        r <= 100,
{
    let r = (200 * solved + total) / (2 * total);
    proof {
        assert((200 * solved + total) < (2 * total) * 101) by (nonlinear_arith)
            requires
                solved <= total,
                0 < total,
        ;
        vstd::arithmetic::div_mod::lemma_multiply_divide_lt(
            200 * solved + total,
            2 * total,
            101,
        );
    }
    r
}

} // verus!
