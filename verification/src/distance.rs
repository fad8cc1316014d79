//! Edit distance between byte strings, and the nearest of a list of known
//! names, for suggestions in diagnostics.

use crate::text::{option_view, views};
use vstd::prelude::*;

verus! {

/// The least of three integers.
pub open spec fn min3(x: int, y: int, z: int) -> int {
    if x <= y && x <= z {
        x
    } else if y <= z {
        y
    } else {
        z
    }
}

/// The edit distance between the first `i` bytes of `a` and the first `j`
/// bytes of `b`: the least number of insertions, deletions and replacements
/// of one byte that turn one into the other.
pub open spec fn prefix_distance(a: Seq<u8>, b: Seq<u8>, i: nat, j: nat) -> int
    decreases i + j,
{
    if i == 0 {
        j as int
    } else if j == 0 {
        i as int
    } else {
        let replace: int = if a[i - 1] == b[j - 1] {
            0
        } else {
            1
        };
        min3(
            prefix_distance(a, b, (i - 1) as nat, j) + 1,
            prefix_distance(a, b, i, (j - 1) as nat) + 1,
            prefix_distance(a, b, (i - 1) as nat, (j - 1) as nat) + replace,
        )
    }
}

/// The edit distance between `a` and `b`.
pub open spec fn edit_distance(a: Seq<u8>, b: Seq<u8>) -> int {
    prefix_distance(a, b, a.len(), b.len())
}

/// A distance is never negative and never more than the longer length.
pub proof fn lemma_distance_bounds(a: Seq<u8>, b: Seq<u8>, i: nat, j: nat)
    ensures
        0 <= prefix_distance(a, b, i, j),
        prefix_distance(a, b, i, j) <= i || prefix_distance(a, b, i, j) <= j,
    decreases i + j,
{
    if i != 0 && j != 0 {
        lemma_distance_bounds(a, b, (i - 1) as nat, j);
        lemma_distance_bounds(a, b, i, (j - 1) as nat);
        lemma_distance_bounds(a, b, (i - 1) as nat, (j - 1) as nat);
    }
}

/// Computes [`edit_distance`] row by row.
pub fn distance(a: &[u8], b: &[u8]) -> (d: usize)
    ensures
        d == edit_distance(a@, b@),
{
    let n: usize = a.len();
    let m: usize = b.len();
    // row[k] holds the distance for the current prefix of `a` and the first
    // k + 1 bytes of `b`
    let mut row: Vec<usize> = Vec::new();
    let mut k: usize = 0;
    while k < m
        invariant
            k <= m,
            row@.len() == k,
            forall|t: int| 0 <= t < k ==> row@[t] == prefix_distance(a@, b@, 0, (t + 1) as nat),
        decreases m - k,
    {
        row.push(k + 1);
        k = k + 1;
    }
    let mut i: usize = 0;
    while i < n
        invariant
            n == a@.len(),
            m == b@.len(),
            i <= n,
            row@.len() == m,
            forall|t: int|
                0 <= t < m ==> row@[t] == prefix_distance(a@, b@, i as nat, (t + 1) as nat),
        decreases n - i,
    {
        let mut diagonal: usize = i;
        let mut left: usize = i + 1;
        let mut k: usize = 0;
        while k < m
            invariant
                n == a@.len(),
                m == b@.len(),
                i < n,
                k <= m,
                row@.len() == m,
                diagonal == prefix_distance(a@, b@, i as nat, k as nat),
                left == prefix_distance(a@, b@, (i + 1) as nat, k as nat),
                forall|t: int|
                    0 <= t < k ==> row@[t] == prefix_distance(
                        a@,
                        b@,
                        (i + 1) as nat,
                        (t + 1) as nat,
                    ),
                forall|t: int|
                    k <= t < m ==> row@[t] == prefix_distance(a@, b@, i as nat, (t + 1) as nat),
            decreases m - k,
        {
            let up: usize = row[k];
            let least: usize = if up < left {
                up
            } else {
                left
            };
            proof {
                lemma_distance_bounds(a@, b@, (i + 1) as nat, (k + 1) as nat);
            }
            let next: usize = if diagonal <= least {
                if a[i] == b[k] {
                    diagonal
                } else {
                    diagonal + 1
                }
            } else {
                least + 1
            };
            assert(next == prefix_distance(a@, b@, (i + 1) as nat, (k + 1) as nat));
            row.set(k, next);
            diagonal = up;
            left = next;
            k = k + 1;
        }
        i = i + 1;
    }
    if m == 0 {
        n
    } else {
        row[m - 1]
    }
}

/// How far a known name may be from a misspelt one and still be suggested:
/// a third of the name's length, and at least one.
pub open spec fn suggestion_limit(name: Seq<u8>) -> int {
    if name.len() < 3 {
        1
    } else {
        name.len() as int / 3
    }
}

/// The index, among the first `n` candidates, of the one nearest to `name`
/// within [`suggestion_limit`]; of several equally near ones, the first.
pub open spec fn nearest_among(name: Seq<u8>, candidates: Seq<Seq<u8>>, n: nat) -> Option<int>
    decreases n,
{
    if n == 0 {
        None
    } else {
        let before = nearest_among(name, candidates, (n - 1) as nat);
        let d = edit_distance(name, candidates[n - 1]);
        if d <= suggestion_limit(name) && (before matches Some(k) ==> d < edit_distance(
            name,
            candidates[k],
        )) {
            Some(n - 1)
        } else {
            before
        }
    }
}

/// The candidate to suggest in place of `name`, if any is near enough.
pub open spec fn nearest(name: Seq<u8>, candidates: Seq<Seq<u8>>) -> Option<int> {
    nearest_among(name, candidates, candidates.len())
}

/// What [`nearest_among`] picks: a candidate within the limit that none is
/// nearer than and none before it is as near as; and it picks one whenever a
/// candidate is within the limit.
pub proof fn nearest_is_first_among_the_nearest(name: Seq<u8>, candidates: Seq<Seq<u8>>, n: nat)
    requires
        n <= candidates.len(),
    ensures
        match nearest_among(name, candidates, n) {
            Some(k) => {
                &&& 0 <= k < n
                &&& edit_distance(name, candidates[k]) <= suggestion_limit(name)
                &&& forall|t: int|
                    0 <= t < n ==> edit_distance(name, candidates[k]) <= edit_distance(
                        name,
                        #[trigger] candidates[t],
                    )
                &&& forall|t: int|
                    0 <= t < k ==> edit_distance(name, candidates[k]) < edit_distance(
                        name,
                        #[trigger] candidates[t],
                    )
            },
            None => forall|t: int|
                0 <= t < n ==> edit_distance(name, #[trigger] candidates[t]) > suggestion_limit(
                    name,
                ),
        },
    decreases n,
{
    if n != 0 {
        nearest_is_first_among_the_nearest(name, candidates, (n - 1) as nat);
    }
}

/// Computes [`nearest`] over the candidates' views.
pub fn find_nearest(name: &[u8], candidates: &Vec<Vec<u8>>) -> (r: Option<usize>)
    ensures
        match r {
            Some(k) => nearest(name@, views(candidates@)) == Some(k as int) && k
                < candidates@.len(),
            None => nearest(name@, views(candidates@)) is None,
        },
{
    let n: usize = candidates.len();
    let len: usize = name.len();
    let limit: usize = if len < 3 {
        1
    } else {
        len / 3
    };
    let mut best: Option<usize> = None;
    let mut best_distance: usize = 0;
    let mut i: usize = 0;
    while i < n
        invariant
            n == candidates@.len(),
            i <= n,
            limit == suggestion_limit(name@),
            match best {
                Some(k) => nearest_among(name@, views(candidates@), i as nat) == Some(k as int)
                    && k < i && best_distance == edit_distance(name@, candidates@[k as int]@),
                None => nearest_among(name@, views(candidates@), i as nat) is None,
            },
        decreases n - i,
    {
        let d: usize = distance(name, candidates[i].as_slice());
        let nearer: bool = match best {
            Some(_) => d < best_distance,
            None => true,
        };
        if d <= limit && nearer {
            best = Some(i);
            best_distance = d;
        }
        i = i + 1;
    }
    best
}


/// The candidate to suggest in place of `name`, if any is near enough.
pub open spec fn suggested(name: Seq<u8>, candidates: Seq<Seq<u8>>) -> Option<Seq<u8>> {
    match nearest(name, candidates) {
        Some(k) => Some(candidates[k]),
        None => None,
    }
}

/// Computes [`suggested`] over the candidates' views.
pub fn suggest(name: &[u8], candidates: &Vec<Vec<u8>>) -> (r: Option<Vec<u8>>)
    ensures
        option_view(r) == suggested(name@, views(candidates@)),
{
    match find_nearest(name, candidates) {
        Some(k) => Some(candidates[k].clone()),
        None => None,
    }
}

} // verus!
