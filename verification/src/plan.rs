//! The work of one run: the parameter sets of every group, flattened into
//! the sequence in which they are launched.

use std::collections::VecDeque;
use vstd::prelude::*;

verus! {

/// One piece of work that waits to be launched: a parameter set and the
/// position of the group it belongs to.
#[derive(Debug, Clone)]
pub struct Job<P> {
    pub group: usize,
    pub param: P,
}

/// The parameter sets of one group as jobs of that group, in their order.
pub open spec fn tagged<P>(group: usize, params: Seq<P>) -> Seq<Job<P>> {
    Seq::new(params.len(), |j: int| Job { group, param: params[j] })
}

/// The jobs of all groups: group after group, and inside a group in the
/// order of its expansion.
pub open spec fn flatten<P>(expansions: Seq<Seq<P>>) -> Seq<Job<P>>
    decreases expansions.len(),
{
    if expansions.len() == 0 {
        Seq::empty()
    } else {
        flatten(expansions.drop_last()) + tagged(
            (expansions.len() - 1) as usize,
            expansions.last(),
        )
    }
}

/// The sequences held by a sequence of vectors.
pub open spec fn rows<A>(vecs: Seq<Vec<A>>) -> Seq<Seq<A>> {
    Seq::new(vecs.len(), |i: int| vecs[i]@)
}

/// The number of items in all rows together.
pub open spec fn total_len<A>(rows: Seq<Seq<A>>) -> nat
    decreases rows.len(),
{
    if rows.len() == 0 {
        0
    } else {
        total_len(rows.drop_last()) + rows.last().len()
    }
}

/// Replacing one row changes the total by the difference of the two rows.
pub proof fn lemma_total_len_update<A>(rows: Seq<Seq<A>>, i: int, row: Seq<A>)
    requires
        0 <= i < rows.len(),
    ensures
        total_len(rows.update(i, row)) == total_len(rows) - rows[i].len() + row.len(),
    decreases rows.len(),
{
    let changed = rows.update(i, row);
    if i == rows.len() - 1 {
        assert(changed.drop_last() == rows.drop_last());
    } else {
        assert(changed.drop_last() == rows.drop_last().update(i, row));
        lemma_total_len_update(rows.drop_last(), i, row);
    }
}

/// Rows that are all empty hold nothing.
pub proof fn lemma_total_len_empty<A>(rows: Seq<Seq<A>>)
    requires
        forall|i: int| 0 <= i < rows.len() ==> (#[trigger] rows[i]).len() == 0,
    ensures
        total_len(rows) == 0,
    decreases rows.len(),
{
    if rows.len() > 0 {
        lemma_total_len_empty(rows.drop_last());
    }
}

/// Rows that hold nothing together are all empty.
pub proof fn lemma_total_len_zero<A>(rows: Seq<Seq<A>>)
    requires
        total_len(rows) == 0,
    ensures
        forall|i: int| 0 <= i < rows.len() ==> (#[trigger] rows[i]).len() == 0,
    decreases rows.len(),
{
    if rows.len() > 0 {
        lemma_total_len_zero(rows.drop_last());
        assert forall|i: int| 0 <= i < rows.len() implies (#[trigger] rows[i]).len() == 0 by {
            if i < rows.len() - 1 {
                assert(rows.drop_last()[i] == rows[i]);
            }
        }
    }
}

/// Every job of a flattened plan belongs to one of the groups, and the plan
/// holds as many jobs as the expansions hold parameter sets.
pub proof fn lemma_flatten<P>(expansions: Seq<Seq<P>>)
    requires
        expansions.len() <= usize::MAX,
    ensures
        flatten(expansions).len() == total_len(expansions),
        forall|k: int|
            0 <= k < flatten(expansions).len() ==> (#[trigger] flatten(expansions)[k]).group
                < expansions.len(),
    decreases expansions.len(),
{
    if expansions.len() > 0 {
        lemma_flatten(expansions.drop_last());
    }
}

/// The parameter sets that a plan holds for one group, in the order of the
/// plan.
pub open spec fn params_of_group<P>(plan: Seq<Job<P>>, group: usize) -> Seq<P>
    decreases plan.len(),
{
    if plan.len() == 0 {
        Seq::empty()
    } else if plan.last().group == group {
        params_of_group(plan.drop_last(), group).push(plan.last().param)
    } else {
        params_of_group(plan.drop_last(), group)
    }
}

/// What a plan made of two parts holds for a group is what the first part
/// holds for it, followed by what the second part holds for it.
proof fn lemma_params_of_group_concat<P>(front: Seq<Job<P>>, back: Seq<Job<P>>, group: usize)
    ensures
        params_of_group(front + back, group) == params_of_group(front, group) + params_of_group(
            back,
            group,
        ),
    decreases back.len(),
{
    if back.len() == 0 {
        assert(front + back == front);
    } else {
        let whole = front + back;
        assert(whole.drop_last() == front + back.drop_last());
        assert(whole.last() == back.last());
        lemma_params_of_group_concat(front, back.drop_last(), group);
    }
}

/// The jobs made of the parameter sets of one group hold those parameter
/// sets for that group, and nothing for any other.
proof fn lemma_params_of_group_tagged<P>(owner: usize, params: Seq<P>, group: usize)
    ensures
        params_of_group(tagged(owner, params), group) == if owner == group {
            params
        } else {
            Seq::empty()
        },
    decreases params.len(),
{
    if params.len() > 0 {
        let jobs = tagged(owner, params);
        assert(jobs.drop_last() == tagged(owner, params.drop_last()));
        lemma_params_of_group_tagged(owner, params.drop_last(), group);
        if owner == group {
            assert(params.drop_last().push(params.last()) == params);
        }
    }
}

/// The plan of a run holds for every group exactly the parameter sets of
/// the expansion of that group: as many as the expansion has, each of them
/// once, in the order of the expansion.
pub proof fn lemma_plan_keeps_expansions<P>(expansions: Seq<Seq<P>>, group: usize)
    requires
        expansions.len() <= usize::MAX,
        group < expansions.len(),
    ensures
        params_of_group(flatten(expansions), group) == expansions[group as int],
    decreases expansions.len(),
{
    let front = expansions.drop_last();
    let owner = (expansions.len() - 1) as usize;
    lemma_params_of_group_concat(flatten(front), tagged(owner, expansions.last()), group);
    lemma_params_of_group_tagged(owner, expansions.last(), group);
    if group == owner {
        lemma_plan_skips_later_groups(front, group);
    } else {
        lemma_plan_keeps_expansions(front, group);
    }
}

/// A plan holds nothing for a group that comes after all of its expansions.
proof fn lemma_plan_skips_later_groups<P>(expansions: Seq<Seq<P>>, group: usize)
    requires
        expansions.len() <= group,
    ensures
        params_of_group(flatten(expansions), group) == Seq::<P>::empty(),
    decreases expansions.len(),
{
    if expansions.len() > 0 {
        let front = expansions.drop_last();
        let owner = (expansions.len() - 1) as usize;
        lemma_params_of_group_concat(flatten(front), tagged(owner, expansions.last()), group);
        lemma_params_of_group_tagged(owner, expansions.last(), group);
        lemma_plan_skips_later_groups(front, group);
    }
}

/// The positions that the jobs of one group take in a plan.
pub open spec fn positions_of_group<P>(plan: Seq<Job<P>>, group: usize) -> Set<int> {
    Set::new(|k: int| 0 <= k < plan.len() && plan[k].group == group)
}

/// The jobs of one group take as many positions in a plan as the plan holds
/// parameter sets for the group.
pub proof fn lemma_positions_of_group<P>(plan: Seq<Job<P>>, group: usize)
    ensures
        positions_of_group(plan, group).finite(),
        positions_of_group(plan, group).len() == params_of_group(plan, group).len(),
    decreases plan.len(),
{
    if plan.len() == 0 {
        assert(positions_of_group(plan, group) =~= Set::<int>::empty());
    } else {
        let front = plan.drop_last();
        let last = plan.len() - 1;
        lemma_positions_of_group(front, group);
        assert forall|k: int| 0 <= k < front.len() implies front[k] == plan[k] by {}
        if plan.last().group == group {
            assert(positions_of_group(plan, group) =~= positions_of_group(front, group).insert(
                last,
            ));
            assert(!positions_of_group(front, group).contains(last));
        } else {
            assert(positions_of_group(plan, group) =~= positions_of_group(front, group));
        }
    }
}

/// Flattens the expansions of all groups into the queue of one run.
pub fn flatten_plan<P>(expansions: Vec<Vec<P>>) -> (queue: VecDeque<Job<P>>)
    ensures
        queue@ == flatten(rows(expansions@)),
{
    let ghost all = rows(expansions@);
    let groups = expansions.len();
    assert(all.len() == groups);
    let mut queue: VecDeque<Job<P>> = VecDeque::new();
    let mut group: usize = 0;
    for params in outer: expansions
        invariant
            group == outer.index(),
            all == rows(outer.seq()),
            all.len() <= usize::MAX,
            queue@ == flatten(all.take(group as int)),
    {
        let ghost row = params@;
        assert(group < all.len());
        assert(row == all[group as int]);
        for param in inner: params
            invariant
                row == inner.seq(),
                queue@ == flatten(all.take(group as int)) + tagged(
                    group,
                    row.take(inner.index() as int),
                ),
        {
            queue.push_back(Job { group, param });
        }
        proof {
            let next = all.take(group + 1);
            assert(next.drop_last() == all.take(group as int));
            assert(next.last() == row);
            assert(row.take(row.len() as int) == row);
        }
        group = group + 1;
    }
    assert(all.take(all.len() as int) == all);
    queue
}

} // verus!
