//! The equality-join algorithms: inner join and left-outer join of two
//! row sets under one key selector per side.

use vstd::prelude::*;

use crate::column::{col_eqv, FileColumn};
use crate::file::CoreFile;

verus! {

/// Membership in a concatenation is membership in either part.
pub proof fn lemma_contains_add<T>(s1: Seq<T>, s2: Seq<T>, x: T)
    ensures
        (s1 + s2).contains(x) <==> s1.contains(x) || s2.contains(x),
{
    if s1.contains(x) {
        let i = choose|i: int| 0 <= i < s1.len() && s1[i] == x;
        assert((s1 + s2)[i] == x);
    }
    if s2.contains(x) {
        let i = choose|i: int| 0 <= i < s2.len() && s2[i] == x;
        assert((s1 + s2)[s1.len() + i] == x);
    }
    if (s1 + s2).contains(x) {
        let i = choose|i: int| 0 <= i < (s1 + s2).len() && (s1 + s2)[i] == x;
        if i < s1.len() {
            assert(s1[i] == x);
        } else {
            assert(s2[i - s1.len()] == x);
        }
    }
}

/// The pairs one right row contributes: one per left row whose key
/// value equals the right row's key value, in left order.
pub open spec fn inner_matches(
    left: Seq<CoreFile>,
    r: CoreFile,
    lk: FileColumn,
    rk: FileColumn,
) -> Seq<(CoreFile, CoreFile)>
    decreases left.len(),
{
    if left.len() == 0 {
        Seq::empty()
    } else {
        inner_matches(left.drop_last(), r, lk, rk) + if col_eqv(
            left.last().column_spec(lk),
            r.column_spec(rk),
        ) {
            seq![(left.last(), r)]
        } else {
            Seq::empty()
        }
    }
}

/// The inner equality join: for every right row, in order, one combined
/// pair per matching left row; a right row without a match contributes
/// nothing.
pub open spec fn inner_join_spec(
    left: Seq<CoreFile>,
    right: Seq<CoreFile>,
    lk: FileColumn,
    rk: FileColumn,
) -> Seq<(CoreFile, CoreFile)>
    decreases right.len(),
{
    if right.len() == 0 {
        Seq::empty()
    } else {
        inner_join_spec(left, right.drop_last(), lk, rk) + inner_matches(
            left,
            right.last(),
            lk,
            rk,
        )
    }
}

proof fn lemma_inner_matches_membership(
    left: Seq<CoreFile>,
    r: CoreFile,
    lk: FileColumn,
    rk: FileColumn,
    x: CoreFile,
    y: CoreFile,
)
    ensures
        inner_matches(left, r, lk, rk).contains((x, y)) <==> (left.contains(x) && y == r
            && col_eqv(x.column_spec(lk), r.column_spec(rk))),
    decreases left.len(),
{
    if left.len() > 0 {
        lemma_inner_matches_membership(left.drop_last(), r, lk, rk, x, y);
        let tail: Seq<(CoreFile, CoreFile)> = if col_eqv(
            left.last().column_spec(lk),
            r.column_spec(rk),
        ) {
            seq![(left.last(), r)]
        } else {
            Seq::empty()
        };
        lemma_contains_add(inner_matches(left.drop_last(), r, lk, rk), tail, (x, y));
        if left.contains(x) {
            let i = choose|i: int| 0 <= i < left.len() && left[i] == x;
            if i < left.len() - 1 {
                assert(left.drop_last()[i] == x);
            }
        }
        if left.drop_last().contains(x) {
            let i = choose|i: int| 0 <= i < left.drop_last().len() && left.drop_last()[i] == x;
            assert(left[i] == x);
        }
        if x == left.last() {
            assert(left[left.len() - 1] == x);
        }
        if tail.contains((x, y)) {
            assert(tail[0] == (x, y));
        }
        if x == left.last() && y == r && col_eqv(x.column_spec(lk), r.column_spec(rk)) {
            assert(tail[0] == (x, y));
            assert(tail.contains((x, y)));
        }
    }
}

/// Exactly which pairs an inner join holds: `(x, y)` appears exactly
/// when `x` is a left row, `y` is a right row, and their key values are
/// equal.
pub proof fn lemma_inner_join_membership(
    left: Seq<CoreFile>,
    right: Seq<CoreFile>,
    lk: FileColumn,
    rk: FileColumn,
    x: CoreFile,
    y: CoreFile,
)
    ensures
        inner_join_spec(left, right, lk, rk).contains((x, y)) <==> (left.contains(x)
            && right.contains(y) && col_eqv(x.column_spec(lk), y.column_spec(rk))),
    decreases right.len(),
{
    if right.len() > 0 {
        lemma_inner_join_membership(left, right.drop_last(), lk, rk, x, y);
        lemma_inner_matches_membership(left, right.last(), lk, rk, x, y);
        lemma_contains_add(
            inner_join_spec(left, right.drop_last(), lk, rk),
            inner_matches(left, right.last(), lk, rk),
            (x, y),
        );
        if right.contains(y) {
            let i = choose|i: int| 0 <= i < right.len() && right[i] == y;
            if i < right.len() - 1 {
                assert(right.drop_last()[i] == y);
            }
        }
        if right.drop_last().contains(y) {
            let i = choose|i: int| 0 <= i < right.drop_last().len() && right.drop_last()[i] == y;
            assert(right[i] == y);
        }
        if y == right.last() {
            assert(right[right.len() - 1] == y);
        }
    }
}

/// The inner join is commutative up to row-pair ordering: the pair
/// `(x, y)` appears in the join of A with B on a key exactly when
/// `(y, x)` appears in the join of B with A on the flipped key; only
/// the order of the output may differ.
pub proof fn lemma_inner_join_commutative(
    a: Seq<CoreFile>,
    b: Seq<CoreFile>,
    ka: FileColumn,
    kb: FileColumn,
    x: CoreFile,
    y: CoreFile,
)
    ensures
        inner_join_spec(a, b, ka, kb).contains((x, y)) <==> inner_join_spec(
            b,
            a,
            kb,
            ka,
        ).contains((y, x)),
{
    lemma_inner_join_membership(a, b, ka, kb, x, y);
    lemma_inner_join_membership(b, a, kb, ka, y, x);
}

/// Joins every left row with every right row whose key value matches,
/// hashing aside: the result is exactly one pair per matching
/// combination, grouped by right row in right order, each group in
/// left order.
pub fn inner_join(
    left: Vec<CoreFile>,
    right: Vec<CoreFile>,
    left_key: &FileColumn,
    right_key: &FileColumn,
) -> (r: Vec<(CoreFile, CoreFile)>)
    ensures
        r@ == inner_join_spec(left@, right@, *left_key, *right_key),
{
    let mut results: Vec<(CoreFile, CoreFile)> = Vec::new();
    let nl: usize = left.len();
    let nr: usize = right.len();
    let mut j: usize = 0;
    while j < nr
        invariant
            nl == left@.len(),
            nr == right@.len(),
            0 <= j <= nr,
            results@ == inner_join_spec(left@, right@.take(j as int), *left_key, *right_key),
        decreases nr - j,
    {
        let rv = right[j].column(right_key);
        let mut i: usize = 0;
        while i < nl
            invariant
                nl == left@.len(),
                nr == right@.len(),
                0 <= j < nr,
                0 <= i <= nl,
                rv == right@[j as int].column_spec(*right_key),
                results@ == inner_join_spec(left@, right@.take(j as int), *left_key, *right_key)
                    + inner_matches(left@.take(i as int), right@[j as int], *left_key, *right_key),
            decreases nl - i,
        {
            let lv = left[i].column(left_key);
            if lv.eq_col(&rv) {
                results.push((left[i].duplicate(), right[j].duplicate()));
            }
            proof {
                assert(left@.take(i + 1).drop_last() =~= left@.take(i as int));
                assert(left@.take(i + 1).last() == left@[i as int]);
                assert(results@ =~= inner_join_spec(
                    left@,
                    right@.take(j as int),
                    *left_key,
                    *right_key,
                ) + inner_matches(left@.take(i + 1), right@[j as int], *left_key, *right_key));
            }
            i = i + 1;
        }
        proof {
            assert(left@.take(nl as int) =~= left@);
            assert(right@.take(j + 1).drop_last() =~= right@.take(j as int));
            assert(right@.take(j + 1).last() == right@[j as int]);
        }
        j = j + 1;
    }
    proof {
        assert(right@.take(nr as int) =~= right@);
    }
    results
}

/// The right rows whose key value matches one left row's key value, in
/// right order.
pub open spec fn right_matches(
    right: Seq<CoreFile>,
    l: CoreFile,
    lk: FileColumn,
    rk: FileColumn,
) -> Seq<CoreFile>
    decreases right.len(),
{
    if right.len() == 0 {
        Seq::empty()
    } else {
        right_matches(right.drop_last(), l, lk, rk) + if col_eqv(
            l.column_spec(lk),
            right.last().column_spec(rk),
        ) {
            seq![right.last()]
        } else {
            Seq::empty()
        }
    }
}

/// What one left row contributes to a left-outer join: one pair per
/// matching right row, or a single pair with an absent right side when
/// nothing matches.
pub open spec fn left_row_result(
    right: Seq<CoreFile>,
    l: CoreFile,
    lk: FileColumn,
    rk: FileColumn,
) -> Seq<(CoreFile, Option<CoreFile>)> {
    let m = right_matches(right, l, lk, rk);
    if m.len() == 0 {
        seq![(l, None::<CoreFile>)]
    } else {
        m.map_values(|r: CoreFile| (l, Some(r)))
    }
}

/// The left-outer equality join: every left row appears at least once;
/// a left row without a match is paired with an absent right side.
pub open spec fn left_join_spec(
    left: Seq<CoreFile>,
    right: Seq<CoreFile>,
    lk: FileColumn,
    rk: FileColumn,
) -> Seq<(CoreFile, Option<CoreFile>)>
    decreases left.len(),
{
    if left.len() == 0 {
        Seq::empty()
    } else {
        left_join_spec(left.drop_last(), right, lk, rk) + left_row_result(
            right,
            left.last(),
            lk,
            rk,
        )
    }
}

/// The left-outer join keeps the left cardinality as a lower bound: it
/// holds at least one pair per left input row, and every left row
/// appears as the left side of some pair.
pub proof fn lemma_left_join_lower_bound(
    left: Seq<CoreFile>,
    right: Seq<CoreFile>,
    lk: FileColumn,
    rk: FileColumn,
)
    ensures
        left_join_spec(left, right, lk, rk).len() >= left.len(),
        forall|i: int|
            0 <= i < left.len() ==> exists|j: int|
                0 <= j < left_join_spec(left, right, lk, rk).len() && (#[trigger] left_join_spec(
                    left,
                    right,
                    lk,
                    rk,
                )[j]).0 == #[trigger] left[i],
    decreases left.len(),
{
    if left.len() > 0 {
        lemma_left_join_lower_bound(left.drop_last(), right, lk, rk);
        let pre = left_join_spec(left.drop_last(), right, lk, rk);
        let block = left_row_result(right, left.last(), lk, rk);
        let whole = left_join_spec(left, right, lk, rk);
        assert(whole == pre + block);
        assert(block.len() >= 1);
        assert(block[0].0 == left.last());
        assert forall|i: int| 0 <= i < left.len() implies exists|j: int|
            0 <= j < whole.len() && (#[trigger] whole[j]).0 == #[trigger] left[i] by {
            if i < left.len() - 1 {
                assert(left.drop_last()[i] == left[i]);
                let j = choose|j: int| 0 <= j < pre.len() && pre[j].0 == left.drop_last()[i];
                assert(whole[j].0 == left[i]);
            } else {
                assert(whole[pre.len() as int].0 == left.last());
            }
        }
    }
}

/// Joins every left row with the matching right rows, keeping left rows
/// without a match: the result holds, for each left row in order, one
/// pair per matching right row, or one pair with an absent right side.
pub fn left_join(
    left: Vec<CoreFile>,
    right: Vec<CoreFile>,
    left_key: &FileColumn,
    right_key: &FileColumn,
) -> (r: Vec<(CoreFile, Option<CoreFile>)>)
    ensures
        r@ == left_join_spec(left@, right@, *left_key, *right_key),
{
    let mut results: Vec<(CoreFile, Option<CoreFile>)> = Vec::new();
    let nl: usize = left.len();
    let nr: usize = right.len();
    let mut i: usize = 0;
    while i < nl
        invariant
            nl == left@.len(),
            nr == right@.len(),
            0 <= i <= nl,
            results@ == left_join_spec(left@.take(i as int), right@, *left_key, *right_key),
        decreases nl - i,
    {
        let lv = left[i].column(left_key);
        let mut any: bool = false;
        let mut j: usize = 0;
        while j < nr
            invariant
                nl == left@.len(),
                nr == right@.len(),
                0 <= i < nl,
                0 <= j <= nr,
                lv == left@[i as int].column_spec(*left_key),
                any == (right_matches(right@.take(j as int), left@[i as int], *left_key, *right_key).len() > 0),
                results@ == left_join_spec(left@.take(i as int), right@, *left_key, *right_key)
                    + right_matches(
                    right@.take(j as int),
                    left@[i as int],
                    *left_key,
                    *right_key,
                ).map_values(|r: CoreFile| (left@[i as int], Some(r))),
            decreases nr - j,
        {
            let rv = right[j].column(right_key);
            if lv.eq_col(&rv) {
                results.push((left[i].duplicate(), Some(right[j].duplicate())));
                any = true;
            }
            proof {
                assert(right@.take(j + 1).drop_last() =~= right@.take(j as int));
                assert(right@.take(j + 1).last() == right@[j as int]);
                assert(results@ =~= left_join_spec(
                    left@.take(i as int),
                    right@,
                    *left_key,
                    *right_key,
                ) + right_matches(
                    right@.take(j + 1),
                    left@[i as int],
                    *left_key,
                    *right_key,
                ).map_values(|r: CoreFile| (left@[i as int], Some(r))));
            }
            j = j + 1;
        }
        proof {
            assert(right@.take(nr as int) =~= right@);
        }
        if !any {
            results.push((left[i].duplicate(), None));
        }
        proof {
            assert(left@.take(i + 1).drop_last() =~= left@.take(i as int));
            assert(left@.take(i + 1).last() == left@[i as int]);
            assert(results@ =~= left_join_spec(left@.take(i + 1), right@, *left_key, *right_key));
        }
        i = i + 1;
    }
    proof {
        assert(left@.take(nl as int) =~= left@);
    }
    results
}

} // verus!
