//! Selecting feature matches for a homography.
//!
//! A k-nearest-neighbour match returns, for each feature of the first
//! image, a group of candidate matches in the second image, best first. A
//! group with a single candidate is always kept; a group with more is kept
//! only when its best candidate passes the distance-ratio test against the
//! runner-up (that test compares floating-point distances and is made by the
//! caller). Depending on the use, a kept group is kept whole or cut down to
//! its best candidate. The kept candidates then pair a feature of the first
//! image with a feature of the second. A candidate is any copyable value;
//! only its position in its group matters here.
use vstd::prelude::*;

verus! {

/// What is kept of a group that passes the ratio test.
#[derive(Clone, Copy, Debug, PartialEq, Eq, Structural)]
pub enum KeepMode {
    /// The whole group.
    WholeGroup,
    /// The best candidate only.
    BestOnly,
}

/// The candidate groups as sequences.
pub open spec fn group_views<T>(gs: Seq<Vec<T>>) -> Seq<Seq<T>> {
    gs.map_values(|g: Vec<T>| g@)
}

/// Whether a group is kept.
pub open spec fn group_kept<T>(g: Seq<T>, passes: bool) -> bool {
    g.len() == 1 || (g.len() >= 2 && passes)
}

/// What is kept of a kept group.
pub open spec fn kept_part<T>(g: Seq<T>, mode: KeepMode) -> Seq<T> {
    if g.len() == 1 || mode == KeepMode::WholeGroup {
        g
    } else {
        seq![g[0]]
    }
}

/// The groups kept out of `gs`, where `passes[i]` tells whether group `i`
/// passes the ratio test.
pub open spec fn select_spec<T>(gs: Seq<Seq<T>>, passes: Seq<bool>, mode: KeepMode) -> Seq<
    Seq<T>,
>
    decreases gs.len(),
{
    if gs.len() == 0 {
        Seq::empty()
    } else {
        let rest = select_spec(gs.drop_last(), passes.drop_last(), mode);
        if group_kept(gs.last(), passes.last()) {
            rest.push(kept_part(gs.last(), mode))
        } else {
            rest
        }
    }
}

fn copy_group<T: Copy>(g: &Vec<T>, n: usize) -> (res: Vec<T>)
    requires
        n <= g@.len(),
    ensures
        res@ == g@.take(n as int),
{
    let mut res: Vec<T> = Vec::new();
    let mut i: usize = 0;
    while i < n
        invariant
            i <= n <= g@.len(),
            res@ == g@.take(i as int),
        decreases n - i,
    {
        res.push(g[i]);
        assert(res@ =~= g@.take(i as int + 1));
        i = i + 1;
    }
    res
}

/// The kept groups, in order.
pub fn select_matches<T: Copy>(groups: &Vec<Vec<T>>, passes: &Vec<bool>, mode: KeepMode) -> (res: Vec<
    Vec<T>,
>)
    requires
        groups@.len() == passes@.len(),
    ensures
        group_views(res@) == select_spec(group_views(groups@), passes@, mode),
{
    let mut res: Vec<Vec<T>> = Vec::new();
    let mut i: usize = 0;
    while i < groups.len()
        invariant
            i <= groups@.len() == passes@.len(),
            group_views(res@) == select_spec(
                group_views(groups@.take(i as int)),
                passes@.take(i as int),
                mode,
            ),
        decreases groups@.len() - i,
    {
        let g = &groups[i];
        let ghost gv = group_views(groups@.take(i as int + 1));
        assert(gv.drop_last() =~= group_views(groups@.take(i as int)));
        assert(gv.last() == g@);
        assert(passes@.take(i as int + 1).drop_last() =~= passes@.take(i as int));
        assert(passes@.take(i as int + 1).last() == passes@[i as int]);
        let n = g.len();
        if n == 1 || (n >= 2 && passes[i]) {
            let part = if n == 1 || mode == KeepMode::WholeGroup {
                copy_group(g, n)
            } else {
                copy_group(g, 1)
            };
            proof {
                assert(g@.take(n as int) =~= g@);
                assert(g@.take(1) =~= seq![g@[0]]);
            }
            let ghost before = res@;
            res.push(part);
            assert(group_views(res@) =~= group_views(before).push(part@));
        }
        i = i + 1;
    }
    assert(groups@.take(groups@.len() as int) =~= groups@);
    assert(passes@.take(passes@.len() as int) =~= passes@);
    res
}

/// All candidates of the kept groups, in order.
pub fn correspondences<T: Copy>(groups: &Vec<Vec<T>>) -> (res: Vec<T>)
    ensures
        res@ == group_views(groups@).flatten_alt(),
{
    let mut res: Vec<T> = Vec::new();
    let mut i: usize = 0;
    while i < groups.len()
        invariant
            i <= groups@.len(),
            res@ == group_views(groups@.take(i as int)).flatten_alt(),
        decreases groups@.len() - i,
    {
        let g = &groups[i];
        let ghost before = res@;
        let ghost gv = group_views(groups@.take(i as int + 1));
        assert(gv.drop_last() =~= group_views(groups@.take(i as int)));
        assert(gv.last() == g@);
        let mut j: usize = 0;
        while j < g.len()
            invariant
                j <= g@.len(),
                res@ == before + g@.take(j as int),
            decreases g@.len() - j,
        {
            res.push(g[j]);
            assert(res@ =~= before + g@.take(j as int + 1));
            j = j + 1;
        }
        assert(g@.take(g@.len() as int) =~= g@);
        i = i + 1;
    }
    assert(groups@.take(groups@.len() as int) =~= groups@);
    res
}

/// When only the best candidate of each group is kept, every kept group
/// has exactly one candidate, so there are as many point pairs as kept
/// groups.
pub proof fn lemma_best_only_pairs<T>(gs: Seq<Seq<T>>, passes: Seq<bool>)
    requires
        gs.len() == passes.len(),
    ensures
        forall|i: int|
            0 <= i < select_spec(gs, passes, KeepMode::BestOnly).len() ==> (#[trigger] select_spec(
                gs,
                passes,
                KeepMode::BestOnly,
            )[i]).len() == 1,
        select_spec(gs, passes, KeepMode::BestOnly).flatten_alt().len() == select_spec(
            gs,
            passes,
            KeepMode::BestOnly,
        ).len(),
    decreases gs.len(),
{
    if gs.len() > 0 {
        lemma_best_only_pairs(gs.drop_last(), passes.drop_last());
        let rest = select_spec(gs.drop_last(), passes.drop_last(), KeepMode::BestOnly);
        let s = select_spec(gs, passes, KeepMode::BestOnly);
        if group_kept(gs.last(), passes.last()) {
            assert(s.drop_last() =~= rest);
            assert forall|i: int| 0 <= i < s.len() implies (#[trigger] s[i]).len() == 1 by {
                if i < s.len() - 1 {
                    assert(s[i] == rest[i]);
                }
            }
        }
    }
}

/// A group is never split: each kept group comes from one input group, and
/// no more groups come out than go in.
pub proof fn lemma_select_shrinks<T>(gs: Seq<Seq<T>>, passes: Seq<bool>, mode: KeepMode)
    requires
        gs.len() == passes.len(),
    ensures
        select_spec(gs, passes, mode).len() <= gs.len(),
    decreases gs.len(),
{
    if gs.len() > 0 {
        lemma_select_shrinks(gs.drop_last(), passes.drop_last(), mode);
    }
}

} // verus!
