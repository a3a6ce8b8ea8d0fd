//! Decrowding of search results: walking the results in order, each one
//! joins the first earlier group whose leader lies within the crowding
//! distance, or else leads a new group. Pagination of the groups.
use vstd::prelude::*;

verus! {

/// `g` is the first group whose leader comes before row `k` and is close to
/// it (`row[j]` tells whether row `k` is close to row `j`).
pub open spec fn first_close_group(leaders: Seq<usize>, row: Seq<bool>, k: int, g: int) -> bool {
    &&& 0 <= g < leaders.len()
    &&& leaders[g] < k
    &&& row[leaders[g] as int]
    &&& forall|g2: int| 0 <= g2 < g ==> !(leaders[g2] < k && row[#[trigger] leaders[g2] as int])
}

/// Some group leader before row `k` is close to it.
pub open spec fn has_close_leader(leaders: Seq<usize>, row: Seq<bool>, k: int) -> bool {
    exists|g: int| 0 <= g < leaders.len() && leaders[g] < k && row[#[trigger] leaders[g] as int]
}

/// The closeness rows are triangular: row `k` says, for each earlier row,
/// whether it is within the crowding distance of row `k`.
pub open spec fn closeness_rows(close: Seq<Vec<bool>>) -> bool {
    forall|k: int| 0 <= k < close.len() ==> #[trigger] close[k]@.len() == k
}

/// The grouping of the first `n` rows: `leaders` lists the rows that lead a
/// group, in order; `group_of[k]` is the group of row `k`.
pub open spec fn decrowded(
    close: Seq<Vec<bool>>,
    n: int,
    leaders: Seq<usize>,
    group_of: Seq<usize>,
) -> bool {
    &&& group_of.len() == n
    &&& forall|g1: int, g2: int|
        0 <= g1 < g2 < leaders.len() ==> #[trigger] leaders[g1] < #[trigger] leaders[g2]
    &&& forall|g: int|
        0 <= g < leaders.len() ==> #[trigger] leaders[g] < n && group_of[leaders[g] as int] == g
    &&& forall|k: int|
        0 <= k < n ==> {
            &&& #[trigger] group_of[k] < leaders.len()
            &&& if has_close_leader(leaders, close[k]@, k) {
                first_close_group(leaders, close[k]@, k, group_of[k] as int)
            } else {
                leaders[group_of[k] as int] == k
            }
        }
}

/// Groups rows `0..close.len()` by crowding.
pub fn decrowd(close: &Vec<Vec<bool>>) -> (r: (Vec<usize>, Vec<usize>))
    requires
        closeness_rows(close@),
    ensures
        decrowded(close@, close@.len() as int, r.0@, r.1@),
{
    let n = close.len();
    let mut leaders: Vec<usize> = Vec::new();
    let mut group_of: Vec<usize> = Vec::new();
    let mut k: usize = 0;
    while k < n
        invariant
            n == close@.len(),
            k <= n,
            closeness_rows(close@),
            decrowded(close@, k as int, leaders@, group_of@),
        decreases n - k,
    {
        let row = &close[k];
        assert(row@.len() == k);
        let mut g: usize = 0;
        let mut found = false;
        while g < leaders.len() && !found
            invariant
                closeness_rows(close@),
                n == close@.len(),
                k < n,
                row@ == close@[k as int]@,
                row@.len() == k,
                decrowded(close@, k as int, leaders@, group_of@),
                g <= leaders@.len(),
                found ==> g < leaders@.len() && row@[leaders@[g as int] as int],
                forall|g2: int| 0 <= g2 < g ==> !row@[#[trigger] leaders@[g2] as int],
            decreases leaders@.len() - g + (if found { 0int } else { 1int }),
        {
            if row[leaders[g]] {
                found = true;
            } else {
                g += 1;
            }
        }
        let ghost old_leaders = leaders@;
        let ghost old_group = group_of@;
        if found {
            group_of.push(g);
            proof {
                assert(first_close_group(leaders@, row@, k as int, g as int));
                assert(has_close_leader(leaders@, row@, k as int));
                assert forall|kk: int| 0 <= kk < k + 1 implies {
                    &&& #[trigger] group_of@[kk] < leaders@.len()
                    &&& if has_close_leader(leaders@, close@[kk]@, kk) {
                        first_close_group(leaders@, close@[kk]@, kk, group_of@[kk] as int)
                    } else {
                        leaders@[group_of@[kk] as int] == kk
                    }
                } by {
                    if kk < k {
                        assert(group_of@[kk] == old_group[kk]);
                    }
                }
            }
        } else {
            let idx = leaders.len();
            group_of.push(idx);
            leaders.push(k);
            proof {
                assert(!has_close_leader(old_leaders, row@, k as int)) by {
                    if has_close_leader(old_leaders, row@, k as int) {
                        let w = choose|w: int|
                            0 <= w < old_leaders.len() && old_leaders[w] < k && row@[#[trigger] old_leaders[w] as int];
                        assert(!row@[old_leaders[w] as int]);
                    }
                }
                assert forall|kk: int| 0 <= kk < k + 1 implies {
                    &&& #[trigger] group_of@[kk] < leaders@.len()
                    &&& if has_close_leader(leaders@, close@[kk]@, kk) {
                        first_close_group(leaders@, close@[kk]@, kk, group_of@[kk] as int)
                    } else {
                        leaders@[group_of@[kk] as int] == kk
                    }
                } by {
                    if kk < k {
                        assert(group_of@[kk] == old_group[kk]);
                        assert(has_close_leader(leaders@, close@[kk]@, kk) == has_close_leader(
                            old_leaders,
                            close@[kk]@,
                            kk,
                        )) by {
                            if has_close_leader(leaders@, close@[kk]@, kk) {
                                let w = choose|w: int|
                                    0 <= w < leaders@.len() && leaders@[w] < kk && close@[kk]@[#[trigger] leaders@[w] as int];
                                assert(w < old_leaders.len());
                                assert(old_leaders[w] == leaders@[w]);
                            }
                            if has_close_leader(old_leaders, close@[kk]@, kk) {
                                let w = choose|w: int|
                                    0 <= w < old_leaders.len() && old_leaders[w] < kk && close@[kk]@[#[trigger] old_leaders[w] as int];
                                assert(leaders@[w] == old_leaders[w]);
                            }
                        }
                        if has_close_leader(leaders@, close@[kk]@, kk) {
                            assert(first_close_group(
                                old_leaders,
                                close@[kk]@,
                                kk,
                                old_group[kk] as int,
                            ));
                            assert forall|g2: int| 0 <= g2 < group_of@[kk] implies !(
                            leaders@[g2] < kk && close@[kk]@[#[trigger] leaders@[g2] as int]) by {
                                assert(leaders@[g2] == old_leaders[g2]);
                            }
                        }
                    } else {
                        assert(!has_close_leader(leaders@, row@, k as int)) by {
                            if has_close_leader(leaders@, row@, k as int) {
                                let w = choose|w: int|
                                    0 <= w < leaders@.len() && leaders@[w] < k && row@[#[trigger] leaders@[w] as int];
                                assert(w < old_leaders.len());
                                assert(!row@[old_leaders[w] as int]);
                            }
                        }
                    }
                }
            }
        }
        k += 1;
    }
    (leaders, group_of)
}

/// The rows among `0..n` that belong to group `g` without leading it, in
/// order.
pub open spec fn group_members_upto(
    leaders: Seq<usize>,
    group_of: Seq<usize>,
    g: int,
    n: int,
) -> Seq<usize>
    decreases n,
{
    if n <= 0 {
        Seq::empty()
    } else {
        let prev = group_members_upto(leaders, group_of, g, n - 1);
        if group_of[n - 1] == g && leaders[g] != n - 1 {
            prev.push((n - 1) as usize)
        } else {
            prev
        }
    }
}

/// For each group of a decrowding, the rows crowded into it (every member
/// but its leader), in row order.
pub fn group_members(leaders: &Vec<usize>, group_of: &Vec<usize>) -> (r: Vec<Vec<usize>>)
    requires
        forall|k: int| 0 <= k < group_of@.len() ==> #[trigger] group_of@[k] < leaders@.len(),
    ensures
        r@.len() == leaders@.len(),
        forall|g: int|
            0 <= g < r@.len() ==> #[trigger] r@[g]@ == group_members_upto(
                leaders@,
                group_of@,
                g,
                group_of@.len() as int,
            ),
{
    let groups = leaders.len();
    let mut r: Vec<Vec<usize>> = Vec::new();
    let mut g: usize = 0;
    while g < groups
        invariant
            groups == leaders@.len(),
            g <= groups,
            r@.len() == g,
            forall|h: int| 0 <= h < g ==> (#[trigger] r@[h])@.len() == 0,
        decreases groups - g,
    {
        r.push(Vec::new());
        g += 1;
    }
    let n = group_of.len();
    let mut k: usize = 0;
    while k < n
        invariant
            groups == leaders@.len(),
            n == group_of@.len(),
            k <= n,
            r@.len() == groups,
            forall|j: int| 0 <= j < n ==> #[trigger] group_of@[j] < leaders@.len(),
            forall|h: int|
                0 <= h < groups ==> #[trigger] r@[h]@ == group_members_upto(
                    leaders@,
                    group_of@,
                    h,
                    k as int,
                ),
        decreases n - k,
    {
        let gk = group_of[k];
        if leaders[gk] != k {
            r[gk].push(k);
        }
        k += 1;
    }
    r
}

/// Results kept when the request sets no limit.
pub const DEFAULT_PAGE_LIMIT: usize = 100;

/// Keeps the first `limit` items and returns how many were cut off.
pub fn paginate<T>(items: &mut Vec<T>, limit: usize) -> (cut: usize)
    ensures
        final(items)@ == old(items)@.take(if old(items)@.len() > limit {
            limit as int
        } else {
            old(items)@.len() as int
        }),
        cut == (if old(items)@.len() > limit {
            old(items)@.len() - limit
        } else {
            0
        }),
{
    let len = items.len();
    let cut = if len > limit {
        len - limit
    } else {
        0
    };
    items.truncate(limit);
    assert(items@ =~= old(items)@.take(if len > limit {
        limit as int
    } else {
        len as int
    }));
    cut
}

} // verus!
