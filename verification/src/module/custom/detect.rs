//! Arbitration between detected modules that compete for one place.
use vstd::prelude::*;

use super::{CustomModuleInfo, DetectedModuleCandidate};
use crate::text::str_eq;

verus! {

/// Whether candidates `i` and `j` are both arbitrated, in the same group.
pub open spec fn same_group(ds: Seq<DetectedModuleCandidate>, i: int, j: int) -> bool {
    ds[i].arbitration matches Some(a) && ds[j].arbitration matches Some(b) && a.group@ == b.group@
}

/// Whether arbitrated candidate `i` wins its group: no other member has a
/// lower priority, and no earlier member has the same one.
pub open spec fn wins(ds: Seq<DetectedModuleCandidate>, i: int) -> bool {
    &&& ds[i].arbitration is Some
    &&& forall|j: int|
        0 <= j < ds.len() && #[trigger] same_group(ds, i, j) ==> {
            let a = ds[i].arbitration->0.priority;
            let b = ds[j].arbitration->0.priority;
            a < b || (a == b && i <= j)
        }
}

/// Whether candidate `i` is shown: it is not arbitrated, or it wins its group.
pub open spec fn kept(ds: Seq<DetectedModuleCandidate>, i: int) -> bool {
    ds[i].arbitration is None || wins(ds, i)
}

/// The modules shown among the first `n` candidates, in order.
pub open spec fn arbitrate_prefix(ds: Seq<DetectedModuleCandidate>, n: int) -> Seq<CustomModuleInfo>
    decreases n,
{
    if n <= 0 {
        Seq::empty()
    } else {
        let prev = arbitrate_prefix(ds, n - 1);
        if kept(ds, n - 1) { prev.push(ds[n - 1].info) } else { prev }
    }
}

/// The modules shown: every unarbitrated candidate, and the winner of each
/// arbitration group, in detection order.
pub open spec fn arbitrate_spec(ds: Seq<DetectedModuleCandidate>) -> Seq<CustomModuleInfo> {
    arbitrate_prefix(ds, ds.len() as int)
}

fn wins_exec(ds: &Vec<DetectedModuleCandidate>, i: usize) -> (r: bool)
    requires
        i < ds.len(),
    ensures
        r == kept(ds@, i as int),
{
    let a = match &ds[i].arbitration {
        None => return true,
        Some(a) => a,
    };
    let mut j: usize = 0;
    while j < ds.len()
        invariant
            j <= ds.len(),
            i < ds.len(),
            ds@[i as int].arbitration == Some(*a),
            forall|k: int|
                0 <= k < j && #[trigger] same_group(ds@, i as int, k) ==> {
                    let p = ds@[i as int].arbitration->0.priority;
                    let q = ds@[k].arbitration->0.priority;
                    p < q || (p == q && i <= k)
                },
        decreases ds.len() - j,
    {
        if let Some(b) = &ds[j].arbitration {
            if str_eq(a.group.as_str(), b.group.as_str()) {
                assert(same_group(ds@, i as int, j as int));
                if b.priority < a.priority || (b.priority == a.priority && j < i) {
                    return false;
                }
            }
        }
        j = j + 1;
    }
    true
}

/// Collapses competing modules: of each arbitration group only the member
/// with the lowest priority (the earliest on a tie) stays; modules without
/// arbitration all stay; the order of detection is kept.
pub fn arbitrate_detected_modules(detected: Vec<DetectedModuleCandidate>) -> (r: Vec<CustomModuleInfo>)
    ensures
        r@ == arbitrate_spec(detected@),
{
    let n = detected.len();
    let mut keep: Vec<bool> = Vec::new();
    let mut i: usize = 0;
    while i < n
        invariant
            i <= n,
            n == detected.len(),
            keep@.len() == i,
            forall|k: int| 0 <= k < i ==> keep@[k] == kept(detected@, k),
        decreases n - i,
    {
        keep.push(wins_exec(&detected, i));
        i = i + 1;
    }
    let ghost ds = detected@;
    let mut rest = detected;
    let mut out: Vec<CustomModuleInfo> = Vec::new();
    let mut k: usize = 0;
    while k < n
        invariant
            k <= n,
            n == ds.len(),
            keep@.len() == n,
            forall|m: int| 0 <= m < n ==> keep@[m] == kept(ds, m),
            rest@ == ds.skip(k as int),
            out@ == arbitrate_prefix(ds, k as int),
        decreases n - k,
    {
        let c = rest.remove(0);
        assert(c == ds[k as int]);
        if keep[k] {
            out.push(c.info);
        }
        assert(rest@ =~= ds.skip(k + 1));
        k = k + 1;
    }
    out
}

/// At most one candidate of each arbitration group is shown.
pub proof fn lemma_one_winner_per_group(ds: Seq<DetectedModuleCandidate>, i: int, j: int)
    requires
        0 <= i < ds.len(),
        0 <= j < ds.len(),
        same_group(ds, i, j),
        kept(ds, i),
        kept(ds, j),
    ensures
        i == j,
{
    assert(same_group(ds, j, i));
}

/// Every candidate without arbitration is shown.
pub proof fn lemma_unarbitrated_kept(ds: Seq<DetectedModuleCandidate>, i: int)
    requires
        0 <= i < ds.len(),
        ds[i].arbitration is None,
    ensures
        kept(ds, i),
{
}

/// The earliest member of `i`'s group with the lowest priority among the
/// first `n` candidates.
spec fn best_upto(ds: Seq<DetectedModuleCandidate>, i: int, n: int) -> Option<int>
    decreases n,
{
    if n <= 0 {
        None
    } else {
        let p = best_upto(ds, i, n - 1);
        if same_group(ds, i, n - 1) {
            match p {
                None => Some(n - 1),
                Some(b) => if ds[n - 1].arbitration->0.priority < ds[b].arbitration->0.priority {
                    Some(n - 1)
                } else {
                    Some(b)
                },
            }
        } else {
            p
        }
    }
}

proof fn lemma_best_upto(ds: Seq<DetectedModuleCandidate>, i: int, n: int)
    requires
        0 <= i < ds.len(),
        0 <= n <= ds.len(),
    ensures
        match best_upto(ds, i, n) {
            Some(b) => 0 <= b < n && same_group(ds, i, b) && forall|j: int|
                0 <= j < n && #[trigger] same_group(ds, i, j) ==> {
                    let p = ds[b].arbitration->0.priority;
                    let q = ds[j].arbitration->0.priority;
                    p < q || (p == q && b <= j)
                },
            None => forall|j: int| 0 <= j < n ==> !#[trigger] same_group(ds, i, j),
        },
    decreases n,
{
    if n > 0 {
        lemma_best_upto(ds, i, n - 1);
    }
}

/// Every arbitration group that has a candidate has a shown winner.
pub proof fn lemma_group_has_winner(ds: Seq<DetectedModuleCandidate>, i: int)
    requires
        0 <= i < ds.len(),
        ds[i].arbitration is Some,
    ensures
        exists|w: int| 0 <= w < ds.len() && same_group(ds, i, w) && #[trigger] wins(ds, w),
{
    assert(same_group(ds, i, i));
    lemma_best_upto(ds, i, ds.len() as int);
    let w = best_upto(ds, i, ds.len() as int)->0;
    assert forall|j: int| 0 <= j < ds.len() && #[trigger] same_group(ds, w, j) implies {
        let p = ds[w].arbitration->0.priority;
        let q = ds[j].arbitration->0.priority;
        p < q || (p == q && w <= j)
    } by {
        assert(same_group(ds, i, j));
    }
    assert(wins(ds, w));
}

} // verus!
