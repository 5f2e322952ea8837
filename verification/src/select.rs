//! The result materializer: DISTINCT (sort by the total row order and
//! remove adjacent duplicates) and TOP-N (truncation), applied to the
//! materialized rows of a SELECT.

use vstd::prelude::*;

use crate::ast::{
    SqlExpr, SqlExprV, SqlJoin, SqlJoinConstraint, SqlJoinConstraintV, SqlJoinOperator,
    SqlJoinOperatorV, SqlJoinV, SqlOperator, SqlSelect, SqlSelectItem, SqlSelectItemV, SqlSelectV,
    SqlTopV, SqlValue, SqlValueV,
};
use crate::column::{
    col_rank, lemma_row_le_total, lemma_row_le_trans, row_eq, row_eqv, row_le, row_le_exec,
    FileColumn,
};
use crate::enumerable::{
    inner_join, inner_join_spec, left_join, left_join_spec, lemma_contains_add,
};
use crate::error::{CoreError, CoreErrorV};
use crate::expr_result::{ExprResult, ExprResultV};
use crate::file::CoreFile;
use crate::query::{
    consume_expr, consume_expr_spec, consume_relation, consume_relation_spec, unsupported_expr_msg,
};
use crate::tables::Tables;
use crate::text::{dec_seq, parse_u64, parse_u64_spec, u64_to_string};

verus! {

// ---------------------------------------------------------------------
// Sorting rows
// ---------------------------------------------------------------------

/// Inserts a row into a sorted run, before the first element that is
/// not below-or-equivalent to it.
pub open spec fn insert_sorted(x: Seq<FileColumn>, s: Seq<Seq<FileColumn>>) -> Seq<
    Seq<FileColumn>,
>
    decreases s.len(),
{
    if s.len() == 0 {
        seq![x]
    } else if row_le(s[0], x) {
        seq![s[0]] + insert_sorted(x, s.drop_first())
    } else {
        seq![x] + s
    }
}

/// Sorts rows by the total row order, by repeated insertion.
pub open spec fn sort_rows_spec(s: Seq<Seq<FileColumn>>) -> Seq<Seq<FileColumn>>
    decreases s.len(),
{
    if s.len() == 0 {
        Seq::empty()
    } else {
        insert_sorted(s.last(), sort_rows_spec(s.drop_last()))
    }
}

/// The rows are in order.
pub open spec fn sorted_rows(s: Seq<Seq<FileColumn>>) -> bool {
    forall|i: int, j: int| 0 <= i < j < s.len() ==> row_le(#[trigger] s[i], #[trigger] s[j])
}

/// Where the insertion lands: before the first element that is not
/// below-or-equivalent to the inserted row.
proof fn lemma_insert_sorted_at(x: Seq<FileColumn>, s: Seq<Seq<FileColumn>>, m: int)
    requires
        0 <= m <= s.len(),
        forall|k: int| 0 <= k < m ==> row_le(#[trigger] s[k], x),
        m == s.len() || !row_le(s[m], x),
    ensures
        insert_sorted(x, s) == s.take(m) + seq![x] + s.skip(m),
    decreases m,
{
    if m == 0 {
        if s.len() == 0 {
            assert(insert_sorted(x, s) =~= s.take(0) + seq![x] + s.skip(0));
        } else {
            assert(insert_sorted(x, s) =~= s.take(0) + seq![x] + s.skip(0));
        }
    } else {
        assert(row_le(s[0], x));
        lemma_insert_sorted_at(x, s.drop_first(), m - 1);
        assert(insert_sorted(x, s) == seq![s[0]] + insert_sorted(x, s.drop_first()));
        assert(seq![s[0]] + (s.drop_first().take(m - 1) + seq![x] + s.drop_first().skip(m - 1))
            =~= s.take(m) + seq![x] + s.skip(m));
    }
}

/// Every element of the insertion result is the inserted row or an
/// element of the run.
proof fn lemma_insert_sorted_membership(x: Seq<FileColumn>, s: Seq<Seq<FileColumn>>, e: Seq<FileColumn>)
    ensures
        insert_sorted(x, s).contains(e) <==> (e == x || s.contains(e)),
    decreases s.len(),
{
    if s.len() == 0 {
        assert(insert_sorted(x, s)[0] == x);
    } else if row_le(s[0], x) {
        lemma_insert_sorted_membership(x, s.drop_first(), e);
        lemma_contains_add(seq![x], s, e);
        lemma_contains_add(seq![s[0]], insert_sorted(x, s.drop_first()), e);
        if s.contains(e) {
            let i = choose|i: int| 0 <= i < s.len() && s[i] == e;
            if i == 0 {
                assert(seq![s[0]][0] == e);
            } else {
                assert(s.drop_first()[i - 1] == e);
            }
        }
        if seq![s[0]].contains(e) {
            assert(s[0] == e);
        }
        if s.drop_first().contains(e) {
            let i = choose|i: int| 0 <= i < s.drop_first().len() && s.drop_first()[i] == e;
            assert(s[i + 1] == e);
        }
    } else {
        lemma_contains_add(seq![x], s, e);
        if seq![x].contains(e) {
            assert(e == x);
        }
        if e == x {
            assert(seq![x][0] == e);
        }
    }
}

/// Insertion keeps a sorted run sorted.
proof fn lemma_insert_sorted_sorted(x: Seq<FileColumn>, s: Seq<Seq<FileColumn>>)
    requires
        sorted_rows(s),
    ensures
        sorted_rows(insert_sorted(x, s)),
    decreases s.len(),
{
    if s.len() == 0 {
    } else if row_le(s[0], x) {
        assert(sorted_rows(s.drop_first())) by {
            assert forall|i: int, j: int|
                0 <= i < j < s.drop_first().len() implies row_le(
                #[trigger] s.drop_first()[i],
                #[trigger] s.drop_first()[j],
            ) by {
                assert(s.drop_first()[i] == s[i + 1]);
                assert(s.drop_first()[j] == s[j + 1]);
            }
        }
        lemma_insert_sorted_sorted(x, s.drop_first());
        let rest = insert_sorted(x, s.drop_first());
        let whole = seq![s[0]] + rest;
        assert forall|i: int, j: int| 0 <= i < j < whole.len() implies row_le(
            #[trigger] whole[i],
            #[trigger] whole[j],
        ) by {
            if i == 0 {
                let e = rest[j - 1];
                assert(rest.contains(e));
                lemma_insert_sorted_membership(x, s.drop_first(), e);
                if e == x {
                    assert(row_le(s[0], x));
                } else {
                    let k = choose|k: int|
                        0 <= k < s.drop_first().len() && s.drop_first()[k] == e;
                    assert(s[k + 1] == e);
                    assert(row_le(s[0], s[k + 1]));
                }
            } else {
                assert(whole[i] == rest[i - 1]);
                assert(whole[j] == rest[j - 1]);
            }
        }
    } else {
        lemma_row_le_total(s[0], x);
        assert(row_le(x, s[0]));
        let whole = seq![x] + s;
        assert forall|i: int, j: int| 0 <= i < j < whole.len() implies row_le(
            #[trigger] whole[i],
            #[trigger] whole[j],
        ) by {
            if i == 0 {
                if j == 1 {
                    assert(whole[j] == s[0]);
                } else {
                    assert(whole[j] == s[j - 1]);
                    assert(row_le(s[0], s[j - 1]));
                    lemma_row_le_trans(x, s[0], s[j - 1]);
                }
            } else {
                assert(whole[i] == s[i - 1]);
                assert(whole[j] == s[j - 1]);
            }
        }
    }
}

/// The sort produces sorted rows.
pub proof fn lemma_sort_rows_sorted(s: Seq<Seq<FileColumn>>)
    ensures
        sorted_rows(sort_rows_spec(s)),
    decreases s.len(),
{
    if s.len() > 0 {
        lemma_sort_rows_sorted(s.drop_last());
        lemma_insert_sorted_sorted(s.last(), sort_rows_spec(s.drop_last()));
    }
}

/// Inserting a row that every element is below lands it at the end.
proof fn lemma_insert_sorted_at_end(x: Seq<FileColumn>, s: Seq<Seq<FileColumn>>)
    requires
        forall|k: int| 0 <= k < s.len() ==> row_le(#[trigger] s[k], x),
    ensures
        insert_sorted(x, s) == s + seq![x],
{
    lemma_insert_sorted_at(x, s, s.len() as int);
    assert(s.take(s.len() as int) + seq![x] + s.skip(s.len() as int) =~= s + seq![x]);
}

/// Sorting rows that are already in order changes nothing.
pub proof fn lemma_sort_of_sorted_identity(s: Seq<Seq<FileColumn>>)
    requires
        sorted_rows(s),
    ensures
        sort_rows_spec(s) == s,
    decreases s.len(),
{
    if s.len() > 0 {
        assert(sorted_rows(s.drop_last())) by {
            assert forall|i: int, j: int|
                0 <= i < j < s.drop_last().len() implies row_le(
                #[trigger] s.drop_last()[i],
                #[trigger] s.drop_last()[j],
            ) by {
                assert(s.drop_last()[i] == s[i]);
                assert(s.drop_last()[j] == s[j]);
            }
        }
        lemma_sort_of_sorted_identity(s.drop_last());
        assert forall|k: int| 0 <= k < s.drop_last().len() implies row_le(
            #[trigger] s.drop_last()[k],
            s.last(),
        ) by {
            assert(s.drop_last()[k] == s[k]);
            assert(row_le(s[k], s[s.len() - 1]));
        }
        lemma_insert_sorted_at_end(s.last(), s.drop_last());
        assert(s.drop_last() + seq![s.last()] =~= s);
    }
}

// ---------------------------------------------------------------------
// Removing adjacent duplicates
// ---------------------------------------------------------------------

/// Removes adjacent structurally-equal rows, keeping the last of each
/// run.
pub open spec fn dedup_rows_spec(s: Seq<Seq<FileColumn>>) -> Seq<Seq<FileColumn>>
    decreases s.len(),
{
    if s.len() <= 1 {
        s
    } else if row_eqv(s[0], s[1]) {
        dedup_rows_spec(s.drop_first())
    } else {
        seq![s[0]] + dedup_rows_spec(s.drop_first())
    }
}

/// No two adjacent rows are structurally equal.
pub open spec fn no_adjacent_dup_rows(s: Seq<Seq<FileColumn>>) -> bool {
    forall|i: int| 0 <= i < s.len() - 1 ==> !row_eqv(#[trigger] s[i], s[i + 1])
}

/// Row equality is symmetric and transitive.
proof fn lemma_row_eqv_sym_trans(a: Seq<FileColumn>, b: Seq<FileColumn>, c: Seq<FileColumn>)
    ensures
        row_eqv(a, b) == row_eqv(b, a),
        row_eqv(a, b) && row_eqv(b, c) ==> row_eqv(a, c),
{
}

/// The result of removing duplicates is nonempty on a nonempty input,
/// and its first row is structurally equal to the input's first row.
proof fn lemma_dedup_first(s: Seq<Seq<FileColumn>>)
    requires
        s.len() > 0,
    ensures
        dedup_rows_spec(s).len() > 0,
        row_eqv(dedup_rows_spec(s)[0], s[0]),
    decreases s.len(),
{
    if s.len() > 1 {
        lemma_dedup_first(s.drop_first());
        if row_eqv(s[0], s[1]) {
            assert(s.drop_first()[0] == s[1]);
            lemma_row_eqv_sym_trans(dedup_rows_spec(s)[0], s[1], s[0]);
            lemma_row_eqv_sym_trans(s[0], s[1], s[1]);
            lemma_row_eqv_sym_trans(dedup_rows_spec(s)[0], s[1], s[0]);
        } else {
            assert(dedup_rows_spec(s)[0] == s[0]);
            assert(row_eqv(s[0], s[0]));
        }
    } else {
        assert(row_eqv(s[0], s[0]));
    }
}

/// After removing duplicates, no adjacent rows are equal.
pub proof fn lemma_dedup_no_adjacent(s: Seq<Seq<FileColumn>>)
    ensures
        no_adjacent_dup_rows(dedup_rows_spec(s)),
    decreases s.len(),
{
    if s.len() > 1 {
        lemma_dedup_no_adjacent(s.drop_first());
        if row_eqv(s[0], s[1]) {
        } else {
            let d = dedup_rows_spec(s.drop_first());
            let whole = seq![s[0]] + d;
            lemma_dedup_first(s.drop_first());
            assert(s.drop_first()[0] == s[1]);
            assert forall|i: int| 0 <= i < whole.len() - 1 implies !row_eqv(
                #[trigger] whole[i],
                whole[i + 1],
            ) by {
                if i == 0 {
                    assert(whole[1] == d[0]);
                    if row_eqv(s[0], d[0]) {
                        lemma_row_eqv_sym_trans(d[0], s[1], s[1]);
                        lemma_row_eqv_sym_trans(s[0], d[0], s[1]);
                    }
                } else {
                    assert(whole[i] == d[i - 1]);
                    assert(whole[i + 1] == d[i]);
                    assert(!row_eqv(d[i - 1], d[i]));
                }
            }
        }
    }
}

/// Removing duplicates from a run without adjacent duplicates changes
/// nothing.
pub proof fn lemma_dedup_identity(s: Seq<Seq<FileColumn>>)
    requires
        no_adjacent_dup_rows(s),
    ensures
        dedup_rows_spec(s) == s,
    decreases s.len(),
{
    if s.len() > 1 {
        assert(!row_eqv(s[0], s[1]));
        assert(no_adjacent_dup_rows(s.drop_first())) by {
            assert forall|i: int| 0 <= i < s.drop_first().len() - 1 implies !row_eqv(
                #[trigger] s.drop_first()[i],
                s.drop_first()[i + 1],
            ) by {
                assert(s.drop_first()[i] == s[i + 1]);
                assert(s.drop_first()[i + 1] == s[i + 2]);
                assert(!row_eqv(s[i + 1], s[i + 2]));
            }
        }
        lemma_dedup_identity(s.drop_first());
        assert(seq![s[0]] + s.drop_first() =~= s);
    }
}

/// Every row of the result is a row of the input.
proof fn lemma_dedup_subset(s: Seq<Seq<FileColumn>>)
    ensures
        forall|j: int|
            0 <= j < dedup_rows_spec(s).len() ==> s.contains(#[trigger] dedup_rows_spec(s)[j]),
    decreases s.len(),
{
    if s.len() > 1 {
        lemma_dedup_subset(s.drop_first());
        let d = dedup_rows_spec(s.drop_first());
        assert forall|j: int|
            0 <= j < dedup_rows_spec(s).len() implies s.contains(
            #[trigger] dedup_rows_spec(s)[j],
        ) by {
            if row_eqv(s[0], s[1]) {
                assert(s.drop_first().contains(d[j]));
                let i = choose|i: int| 0 <= i < s.drop_first().len() && s.drop_first()[i] == d[j];
                assert(s[i + 1] == d[j]);
            } else {
                if j == 0 {
                    assert(dedup_rows_spec(s)[0] == s[0]);
                    assert(s[0] == s[0]);
                } else {
                    assert(dedup_rows_spec(s)[j] == d[j - 1]);
                    assert(s.drop_first().contains(d[j - 1]));
                    let i = choose|i: int|
                        0 <= i < s.drop_first().len() && s.drop_first()[i] == d[j - 1];
                    assert(s[i + 1] == d[j - 1]);
                }
            }
        }
    }
}

/// Removing duplicates keeps the rows in order.
pub proof fn lemma_dedup_sorted(s: Seq<Seq<FileColumn>>)
    requires
        sorted_rows(s),
    ensures
        sorted_rows(dedup_rows_spec(s)),
    decreases s.len(),
{
    if s.len() > 1 {
        assert(sorted_rows(s.drop_first())) by {
            assert forall|i: int, j: int|
                0 <= i < j < s.drop_first().len() implies row_le(
                #[trigger] s.drop_first()[i],
                #[trigger] s.drop_first()[j],
            ) by {
                assert(s.drop_first()[i] == s[i + 1]);
                assert(s.drop_first()[j] == s[j + 1]);
            }
        }
        lemma_dedup_sorted(s.drop_first());
        if !row_eqv(s[0], s[1]) {
            let d = dedup_rows_spec(s.drop_first());
            let whole = seq![s[0]] + d;
            lemma_dedup_subset(s.drop_first());
            assert forall|i: int, j: int| 0 <= i < j < whole.len() implies row_le(
                #[trigger] whole[i],
                #[trigger] whole[j],
            ) by {
                if i == 0 {
                    assert(whole[j] == d[j - 1]);
                    assert(s.drop_first().contains(d[j - 1]));
                    let k = choose|k: int|
                        0 <= k < s.drop_first().len() && s.drop_first()[k] == d[j - 1];
                    assert(s[k + 1] == d[j - 1]);
                    assert(row_le(s[0], s[k + 1]));
                } else {
                    assert(whole[i] == d[i - 1]);
                    assert(whole[j] == d[j - 1]);
                }
            }
        }
    }
}

// ---------------------------------------------------------------------
// DISTINCT and TOP
// ---------------------------------------------------------------------

/// What DISTINCT yields: the rows sorted by the total row order, with
/// adjacent structural duplicates removed.
pub open spec fn distinct_spec(s: Seq<Seq<FileColumn>>) -> Seq<Seq<FileColumn>> {
    dedup_rows_spec(sort_rows_spec(s))
}

/// DISTINCT is idempotent: applying it twice yields the same row
/// sequence as applying it once.
pub proof fn lemma_distinct_idempotent(s: Seq<Seq<FileColumn>>)
    ensures
        distinct_spec(distinct_spec(s)) == distinct_spec(s),
{
    let d = distinct_spec(s);
    lemma_sort_rows_sorted(s);
    lemma_dedup_sorted(sort_rows_spec(s));
    lemma_dedup_no_adjacent(sort_rows_spec(s));
    lemma_sort_of_sorted_identity(d);
    lemma_dedup_identity(d);
}

/// Inserts one row into a sorted vector of rows, keeping it sorted.
fn insert_row(out: &mut Vec<Vec<FileColumn>>, x: Vec<FileColumn>)
    ensures
        final(out)@.map_values(|v: Vec<FileColumn>| v@) == insert_sorted(
            x@,
            old(out)@.map_values(|v: Vec<FileColumn>| v@),
        ),
{
    let ghost s = old(out)@.map_values(|v: Vec<FileColumn>| v@);
    let n: usize = out.len();
    let mut idx: usize = 0;
    while idx < n
        invariant_except_break
            n == out@.len(),
            out == old(out),
            s == out@.map_values(|v: Vec<FileColumn>| v@),
            0 <= idx <= n,
            forall|k: int| 0 <= k < idx ==> row_le(#[trigger] s[k], x@),
        ensures
            n == out@.len(),
            out == old(out),
            s == out@.map_values(|v: Vec<FileColumn>| v@),
            0 <= idx <= n,
            forall|k: int| 0 <= k < idx ==> row_le(#[trigger] s[k], x@),
            idx == n || !row_le(s[idx as int], x@),
        decreases n - idx,
    {
        if !row_le_exec(&out[idx], &x) {
            proof {
                assert(s[idx as int] == out@[idx as int]@);
            }
            break;
        }
        proof {
            assert(s[idx as int] == out@[idx as int]@);
        }
        idx = idx + 1;
    }
    proof {
        lemma_insert_sorted_at(x@, s, idx as int);
    }
    out.insert(idx, x);
    proof {
        assert(final(out)@.map_values(|v: Vec<FileColumn>| v@) =~= s.take(idx as int) + seq![x@]
            + s.skip(idx as int));
    }
}

/// Applies DISTINCT to materialized rows: sorts them by the total row
/// order and removes adjacent structural duplicates.
pub fn distinct(rows: Vec<Vec<FileColumn>>) -> (r: Vec<Vec<FileColumn>>)
    ensures
        r@.map_values(|v: Vec<FileColumn>| v@) == distinct_spec(
            rows@.map_values(|v: Vec<FileColumn>| v@),
        ),
{
    let ghost all = rows@.map_values(|v: Vec<FileColumn>| v@);
    let mut rest = rows;
    let mut sorted: Vec<Vec<FileColumn>> = Vec::new();
    while rest.len() > 0
        invariant
            rest@.len() <= all.len(),
            forall|i: int|
                0 <= i < rest@.len() ==> (#[trigger] rest@[i])@ == all[all.len() - rest@.len()
                    + i],
            sorted@.map_values(|v: Vec<FileColumn>| v@) == sort_rows_spec(
                all.take(all.len() - rest@.len()),
            ),
        decreases rest@.len(),
    {
        let ghost done = all.len() - rest@.len();
        let ghost prev = rest@;
        let x = rest.remove(0);
        proof {
            assert(x@ == all[done]);
            assert forall|i: int| 0 <= i < rest@.len() implies (#[trigger] rest@[i])@ == all[done
                + 1 + i] by {
                assert(rest@[i] == prev[i + 1]);
            }
            assert(all.take(done + 1).drop_last() =~= all.take(done));
            assert(all.take(done + 1).last() == all[done]);
        }
        insert_row(&mut sorted, x);
        proof {
            assert(sort_rows_spec(all.take(done + 1)) == insert_sorted(
                all[done],
                sort_rows_spec(all.take(done)),
            ));
        }
    }
    proof {
        assert(all.take(all.len() as int) =~= all);
    }
    // Remove adjacent duplicates, keeping the last row of each run.
    let n: usize = sorted.len();
    let ghost srt = sorted@.map_values(|v: Vec<FileColumn>| v@);
    let mut out: Vec<Vec<FileColumn>> = Vec::new();
    let mut i: usize = 0;
    proof {
        assert(srt.skip(0) =~= srt);
    }
    while i < n
        invariant
            n == sorted@.len(),
            srt == sorted@.map_values(|v: Vec<FileColumn>| v@),
            0 <= i <= n,
            dedup_rows_spec(srt) == out@.map_values(|v: Vec<FileColumn>| v@) + dedup_rows_spec(
                srt.skip(i as int),
            ),
        decreases n - i,
    {
        proof {
            assert(srt.skip(i as int)[0] == srt[i as int]);
            assert(srt[i as int] == sorted@[i as int]@);
            assert(srt.skip(i as int).drop_first() =~= srt.skip(i + 1));
        }
        if i + 1 < n {
            proof {
                assert(srt.skip(i as int)[1] == srt[i + 1]);
                assert(srt[i + 1] == sorted@[i + 1]@);
            }
            if row_eq(&sorted[i], &sorted[i + 1]) {
                i = i + 1;
                continue;
            }
        }
        let dup = crate::column::dup_row(&sorted[i]);
        out.push(dup);
        proof {
            assert(out@.map_values(|v: Vec<FileColumn>| v@) =~= out@.map_values(
                |v: Vec<FileColumn>| v@,
            ).drop_last() + seq![srt[i as int]]);
            if i + 1 < n {
                assert(dedup_rows_spec(srt.skip(i as int)) == seq![srt[i as int]]
                    + dedup_rows_spec(srt.skip(i + 1)));
            } else {
                assert(srt.skip(i as int).len() == 1);
                assert(dedup_rows_spec(srt.skip(i as int)) =~= seq![srt[i as int]]);
                assert(srt.skip(i + 1).len() == 0);
                assert(dedup_rows_spec(srt.skip(i + 1)) =~= Seq::<Seq<FileColumn>>::empty());
            }
        }
        i = i + 1;
    }
    proof {
        assert(srt.skip(n as int).len() == 0);
        assert(out@.map_values(|v: Vec<FileColumn>| v@) + Seq::<Seq<FileColumn>>::empty()
            =~= out@.map_values(|v: Vec<FileColumn>| v@));
    }
    out
}

/// What TOP-N yields: the first `n` rows, or all of them when there are
/// fewer.
pub open spec fn top_spec(s: Seq<Seq<FileColumn>>, n: nat) -> Seq<Seq<FileColumn>> {
    if n < s.len() {
        s.take(n as int)
    } else {
        s
    }
}

/// TOP is idempotent under re-application with the same or a larger
/// quantity, and TOP 0 yields an empty result.
pub proof fn lemma_top_idempotent(s: Seq<Seq<FileColumn>>, n: nat, m: nat)
    requires
        n <= m,
    ensures
        top_spec(top_spec(s, n), m) == top_spec(s, n),
        top_spec(s, 0).len() == 0,
{
    if n < s.len() {
        assert(top_spec(s, n).len() == n);
    }
}

/// Truncates the rows to the first `n`.
pub fn top_rows(rows: Vec<Vec<FileColumn>>, n: usize) -> (r: Vec<Vec<FileColumn>>)
    ensures
        r@.map_values(|v: Vec<FileColumn>| v@) == top_spec(
            rows@.map_values(|v: Vec<FileColumn>| v@),
            n as nat,
        ),
{
    let ghost before = rows@.map_values(|v: Vec<FileColumn>| v@);
    let mut rows = rows;
    rows.truncate(n);
    proof {
        if n < before.len() {
            assert(rows@.map_values(|v: Vec<FileColumn>| v@) =~= before.take(n as int));
        } else {
            assert(rows@.map_values(|v: Vec<FileColumn>| v@) =~= before);
        }
    }
    rows
}

// ---------------------------------------------------------------------
// Projection
// ---------------------------------------------------------------------

/// The mathematical value of a sequence of materialized rows.
pub open spec fn rows_view(v: Seq<Vec<FileColumn>>) -> Seq<Seq<FileColumn>> {
    v.map_values(|x: Vec<FileColumn>| x@)
}

/// The mathematical value of a sequence of result cells.
pub open spec fn cells_view(v: Seq<(String, String, String)>) -> Seq<
    (Seq<char>, Seq<char>, Seq<char>),
> {
    v.map_values(|c: (String, String, String)| (c.0@, c.1@, c.2@))
}

/// The result cell for one column value: a stable hash-derived
/// identifier, an empty middle component, and the rendered value.
pub open spec fn cell_of_col(c: FileColumn) -> (Seq<char>, Seq<char>, Seq<char>) {
    (dec_seq(c.ident_hash_spec() as nat), Seq::<char>::empty(), c.display_spec())
}

/// One result cell per column of a row.
pub open spec fn row_cells(row: Seq<FileColumn>) -> Seq<(Seq<char>, Seq<char>, Seq<char>)> {
    row.map_values(|c: FileColumn| cell_of_col(c))
}

/// The first cell of the row that carries the asked-for kind's tag; the
/// kind's absent value when the row holds no such cell.
pub open spec fn find_cell(row: Seq<FileColumn>, k: FileColumn) -> FileColumn
    decreases row.len(),
{
    if row.len() == 0 {
        k
    } else if col_rank(row[0]) == col_rank(k) {
        row[0]
    } else {
        find_cell(row.drop_first(), k)
    }
}

/// The message for a projection shape the engine does not support.
pub open spec fn unsupported_projection_msg() -> Seq<char> {
    "Unsupported projection"@
}

fn unsupported_projection_err() -> (r: CoreError)
    ensures
        r.view_err() == CoreErrorV::GeneralError(unsupported_projection_msg()),
{
    CoreError::GeneralError(String::from_str("Unsupported projection"))
}

/// What projecting one item out of one row yields: for a bare
/// identifier, the single cell of that named column (absent when the
/// row has no such cell); for a wildcard, one cell per column of the
/// row; an unknown column name or any other item shape fails.
pub open spec fn match_item_spec(row: Seq<FileColumn>, item: SqlSelectItemV) -> Result<
    Seq<(Seq<char>, Seq<char>, Seq<char>)>,
    CoreErrorV,
> {
    match item {
        SqlSelectItemV::UnnamedExpr(e) => match e {
            SqlExprV::Identifier(id) => match FileColumn::from_str_spec(id) {
                Some(k) => Ok(seq![cell_of_col(find_cell(row, k))]),
                None => Err(CoreErrorV::GeneralError(crate::query::no_type_msg(id))),
            },
            SqlExprV::Wildcard => Ok(row_cells(row)),
            _ => Err(CoreErrorV::GeneralError(unsupported_projection_msg())),
        },
        SqlSelectItemV::Wildcard => Ok(row_cells(row)),
        _ => Err(CoreErrorV::GeneralError(unsupported_projection_msg())),
    }
}

/// The result cell for one column value.
fn make_cell(c: &FileColumn) -> (r: (String, String, String))
    ensures
        (r.0@, r.1@, r.2@) == cell_of_col(*c),
{
    (u64_to_string(c.ident_hash()), String::new(), c.display_string())
}

/// One cell per column of the row.
fn wildcard_cells(row: &Vec<FileColumn>) -> (r: Vec<(String, String, String)>)
    ensures
        cells_view(r@) == row_cells(row@),
{
    let n: usize = row.len();
    let mut out: Vec<(String, String, String)> = Vec::new();
    let mut i: usize = 0;
    proof {
        assert(cells_view(out@) =~~= row_cells(row@.take(0)));
    }
    while i < n
        invariant
            n == row@.len(),
            0 <= i <= n,
            cells_view(out@) == row_cells(row@.take(i as int)),
        decreases n - i,
    {
        let ghost prev = out@;
        let cell = make_cell(&row[i]);
        proof {
            assert((cell.0@, cell.1@, cell.2@) == cell_of_col(row@[i as int]));
        }
        out.push(cell);
        proof {
            assert(out@ == prev.push(cell));
            assert(prev.len() == cells_view(prev).len());
            assert(cells_view(prev).len() == row_cells(row@.take(i as int)).len());
            assert(row_cells(row@.take(i as int)).len() == row@.take(i as int).len());
            assert(row@.take(i as int).len() == i as int);
            assert(out@.len() == i + 1);
            assert forall|j: int| 0 <= j < i + 1 implies cells_view(out@)[j] == row_cells(
                row@.take(i + 1),
            )[j] by {
                assert(cells_view(out@)[j] == (out@[j].0@, out@[j].1@, out@[j].2@));
                assert(row_cells(row@.take(i + 1))[j] == cell_of_col(row@.take(i + 1)[j]));
                assert(row@.take(i + 1)[j] == row@[j]);
                if j < i {
                    assert(out@[j] == prev[j]);
                    assert(cells_view(prev)[j] == (prev[j].0@, prev[j].1@, prev[j].2@));
                    assert(cells_view(prev)[j] == row_cells(row@.take(i as int))[j]);
                    assert(row_cells(row@.take(i as int))[j] == cell_of_col(row@.take(i as int)[j]));
                    assert(row@.take(i as int)[j] == row@[j]);
                } else {
                    assert(out@[j] == cell);
                }
            }
            assert(cells_view(out@) =~= row_cells(row@.take(i + 1)));
        }
        i = i + 1;
    }
    proof {
        assert(row@.take(n as int) =~= row@);
    }
    out
}

/// Projects one item out of one row, exactly as `match_item_spec`
/// states.
pub fn match_select_item(row: &Vec<FileColumn>, projection: &SqlSelectItem) -> (r: Result<
    Vec<(String, String, String)>,
    CoreError,
>)
    ensures
        match r {
            Ok(v) => match_item_spec(row@, projection.view_item()) == Ok::<
                Seq<(Seq<char>, Seq<char>, Seq<char>)>,
                CoreErrorV,
            >(cells_view(v@)),
            Err(e) => match_item_spec(row@, projection.view_item()) == Err::<
                Seq<(Seq<char>, Seq<char>, Seq<char>)>,
                CoreErrorV,
            >(e.view_err()),
        },
{
    match projection {
        SqlSelectItem::UnnamedExpr(expr) => match expr {
            SqlExpr::Identifier(ident) => {
                let k = match FileColumn::from_str(ident.as_str()) {
                    Ok(k) => k,
                    Err(e) => {
                        return Err(e);
                    }
                };
                let n: usize = row.len();
                let mut i: usize = 0;
                proof {
                    assert(row@.skip(0) =~= row@);
                }
                while i < n
                    invariant
                        n == row@.len(),
                        0 <= i <= n,
                        find_cell(row@, k) == find_cell(row@.skip(i as int), k),
                        FileColumn::from_str_spec(ident@) == Some(k),
                        *projection == SqlSelectItem::UnnamedExpr(SqlExpr::Identifier(*ident)),
                    decreases n - i,
                {
                    proof {
                        assert(row@.skip(i as int)[0] == row@[i as int]);
                        assert(row@.skip(i as int).drop_first() =~= row@.skip(i + 1));
                    }
                    if row[i].same_kind(&k) {
                        let cell = make_cell(&row[i]);
                        let mut out: Vec<(String, String, String)> = Vec::new();
                        out.push(cell);
                        proof {
                            assert(find_cell(row@, k) == row@[i as int]);
                            assert(out@.len() == 1);
                            assert(cells_view(out@).len() == 1);
                            assert(cells_view(out@)[0] == (out@[0].0@, out@[0].1@, out@[0].2@));
                            assert(out@[0] == cell);
                            assert(cells_view(out@) =~= seq![
                                cell_of_col(find_cell(row@, k)),
                            ]);
                            assert(FileColumn::from_str_spec(ident@) == Some(k));
                            assert(match_item_spec(row@, projection.view_item()) == Ok::<
                                Seq<(Seq<char>, Seq<char>, Seq<char>)>,
                                CoreErrorV,
                            >(cells_view(out@)));
                        }
                        return Ok(out);
                    }
                    i = i + 1;
                }
                proof {
                    assert(row@.skip(n as int).len() == 0);
                }
                let cell = make_cell(&k);
                let mut out: Vec<(String, String, String)> = Vec::new();
                out.push(cell);
                proof {
                    assert(find_cell(row@, k) == k);
                    assert(out@.len() == 1);
                    assert(cells_view(out@).len() == 1);
                    assert(cells_view(out@)[0] == (out@[0].0@, out@[0].1@, out@[0].2@));
                    assert(out@[0] == cell);
                    assert(cells_view(out@) =~= seq![cell_of_col(find_cell(row@, k))]);
                    assert(match_item_spec(row@, projection.view_item()) == Ok::<
                        Seq<(Seq<char>, Seq<char>, Seq<char>)>,
                        CoreErrorV,
                    >(cells_view(out@)));
                }
                Ok(out)
            }
            SqlExpr::Wildcard => Ok(wildcard_cells(row)),
            _ => Err(unsupported_projection_err()),
        },
        SqlSelectItem::Wildcard => Ok(wildcard_cells(row)),
        _ => Err(unsupported_projection_err()),
    }
}

/// What projecting one item over all rows yields: the item's cells for
/// each row, in row order; the first failure aborts.
pub open spec fn project_item_spec(rows: Seq<Seq<FileColumn>>, item: SqlSelectItemV) -> Result<
    Seq<(Seq<char>, Seq<char>, Seq<char>)>,
    CoreErrorV,
>
    decreases rows.len(),
{
    if rows.len() == 0 {
        Ok(Seq::empty())
    } else {
        match match_item_spec(rows[0], item) {
            Err(e) => Err(e),
            Ok(cs) => match project_item_spec(rows.drop_first(), item) {
                Err(e) => Err(e),
                Ok(rest) => Ok(cs + rest),
            },
        }
    }
}

/// What the whole projection yields: for each projection item in
/// order, that item's cells over every row; the first failure aborts.
pub open spec fn project_spec(rows: Seq<Seq<FileColumn>>, items: Seq<SqlSelectItemV>) -> Result<
    Seq<(Seq<char>, Seq<char>, Seq<char>)>,
    CoreErrorV,
>
    decreases items.len(),
{
    if items.len() == 0 {
        Ok(Seq::empty())
    } else {
        match project_item_spec(rows, items[0]) {
            Err(e) => Err(e),
            Ok(cs) => match project_spec(rows, items.drop_first()) {
                Err(e) => Err(e),
                Ok(rest) => Ok(cs + rest),
            },
        }
    }
}

/// Projects one item over all rows, exactly as `project_item_spec`
/// states.
fn project_item(rows: &Vec<Vec<FileColumn>>, item: &SqlSelectItem) -> (r: Result<
    Vec<(String, String, String)>,
    CoreError,
>)
    ensures
        match r {
            Ok(v) => project_item_spec(rows_view(rows@), item.view_item()) == Ok::<
                Seq<(Seq<char>, Seq<char>, Seq<char>)>,
                CoreErrorV,
            >(cells_view(v@)),
            Err(e) => project_item_spec(rows_view(rows@), item.view_item()) == Err::<
                Seq<(Seq<char>, Seq<char>, Seq<char>)>,
                CoreErrorV,
            >(e.view_err()),
        },
{
    let ghost rv = rows_view(rows@);
    let ghost itemv = item.view_item();
    let n: usize = rows.len();
    let mut out: Vec<(String, String, String)> = Vec::new();
    let mut i: usize = 0;
    proof {
        assert(rv.skip(0) =~= rv);
        assert(cells_view(out@) =~~= Seq::<(Seq<char>, Seq<char>, Seq<char>)>::empty());
    }
    while i < n
        invariant
            n == rows@.len(),
            rv == rows_view(rows@),
            itemv == item.view_item(),
            0 <= i <= n,
            project_item_spec(rv, itemv) == match project_item_spec(rv.skip(i as int), itemv) {
                Ok(rest) => Ok::<_, CoreErrorV>(cells_view(out@) + rest),
                Err(e) => Err::<Seq<(Seq<char>, Seq<char>, Seq<char>)>, _>(e),
            },
        decreases n - i,
    {
        proof {
            assert(rv.skip(i as int)[0] == rv[i as int]);
            assert(rv[i as int] == rows@[i as int]@);
            assert(rv.skip(i as int).drop_first() =~= rv.skip(i + 1));
        }
        let mut cs = match match_select_item(&rows[i], item) {
            Ok(v) => v,
            Err(e) => {
                return Err(e);
            }
        };
        let ghost prev = out@;
        let ghost csv = cs@;
        out.append(&mut cs);
        proof {
            assert(cells_view(out@) =~~= cells_view(prev) + cells_view(csv));
            if project_item_spec(rv.skip(i + 1), itemv) is Ok {
                let rest = project_item_spec(rv.skip(i + 1), itemv)->Ok_0;
                assert((cells_view(prev) + cells_view(csv)) + rest =~~= cells_view(prev) + (
                cells_view(csv) + rest));
            }
        }
        i = i + 1;
    }
    proof {
        assert(rv.skip(n as int).len() == 0);
        assert(cells_view(out@) + Seq::<(Seq<char>, Seq<char>, Seq<char>)>::empty()
            =~~= cells_view(out@));
    }
    Ok(out)
}

/// Applies the projection list to the materialized rows, exactly as
/// `project_spec` states.
pub fn project(rows: &Vec<Vec<FileColumn>>, items: &Vec<SqlSelectItem>) -> (r: Result<
    Vec<(String, String, String)>,
    CoreError,
>)
    ensures
        match r {
            Ok(v) => project_spec(
                rows_view(rows@),
                items@.map_values(|it: SqlSelectItem| it.view_item()),
            ) == Ok::<Seq<(Seq<char>, Seq<char>, Seq<char>)>, CoreErrorV>(cells_view(v@)),
            Err(e) => project_spec(
                rows_view(rows@),
                items@.map_values(|it: SqlSelectItem| it.view_item()),
            ) == Err::<Seq<(Seq<char>, Seq<char>, Seq<char>)>, CoreErrorV>(e.view_err()),
        },
{
    let ghost rv = rows_view(rows@);
    let ghost itemsv = items@.map_values(|it: SqlSelectItem| it.view_item());
    let n: usize = items.len();
    let mut out: Vec<(String, String, String)> = Vec::new();
    let mut i: usize = 0;
    proof {
        assert(itemsv.skip(0) =~= itemsv);
        assert(cells_view(out@) =~~= Seq::<(Seq<char>, Seq<char>, Seq<char>)>::empty());
    }
    while i < n
        invariant
            n == items@.len(),
            rv == rows_view(rows@),
            itemsv == items@.map_values(|it: SqlSelectItem| it.view_item()),
            0 <= i <= n,
            project_spec(rv, itemsv) == match project_spec(rv, itemsv.skip(i as int)) {
                Ok(rest) => Ok::<_, CoreErrorV>(cells_view(out@) + rest),
                Err(e) => Err::<Seq<(Seq<char>, Seq<char>, Seq<char>)>, _>(e),
            },
        decreases n - i,
    {
        proof {
            assert(itemsv.skip(i as int)[0] == itemsv[i as int]);
            assert(itemsv[i as int] == items@[i as int].view_item());
            assert(itemsv.skip(i as int).drop_first() =~= itemsv.skip(i + 1));
        }
        let mut cs = match project_item(rows, &items[i]) {
            Ok(v) => v,
            Err(e) => {
                return Err(e);
            }
        };
        let ghost prev = out@;
        let ghost csv = cs@;
        out.append(&mut cs);
        proof {
            assert(cells_view(out@) =~~= cells_view(prev) + cells_view(csv));
            if project_spec(rv, itemsv.skip(i + 1)) is Ok {
                let rest = project_spec(rv, itemsv.skip(i + 1))->Ok_0;
                assert((cells_view(prev) + cells_view(csv)) + rest =~~= cells_view(prev) + (
                cells_view(csv) + rest));
            }
        }
        i = i + 1;
    }
    proof {
        assert(itemsv.skip(n as int).len() == 0);
        assert(cells_view(out@) + Seq::<(Seq<char>, Seq<char>, Seq<char>)>::empty()
            =~~= cells_view(out@));
    }
    Ok(out)
}

// ---------------------------------------------------------------------
// The SELECT pipeline: relations, joins, DISTINCT, TOP, projection
// ---------------------------------------------------------------------

/// The message for a SELECT clause the engine does not evaluate.
pub open spec fn unsupported_select_msg() -> Seq<char> {
    "Unsupported SELECT clause"@
}

fn unsupported_select_err() -> (r: CoreError)
    ensures
        r.view_err() == CoreErrorV::GeneralError(unsupported_select_msg()),
{
    CoreError::GeneralError(String::from_str("Unsupported SELECT clause"))
}

/// The message for a join shape the engine does not evaluate.
pub open spec fn unsupported_join_msg() -> Seq<char> {
    "Unsupported join"@
}

fn unsupported_join_err() -> (r: CoreError)
    ensures
        r.view_err() == CoreErrorV::GeneralError(unsupported_join_msg()),
{
    CoreError::GeneralError(String::from_str("Unsupported join"))
}

/// The message for a join whose two key selectors name different
/// column kinds.
pub open spec fn join_kind_msg() -> Seq<char> {
    "Join keys must be the same column kind"@
}

fn join_kind_err() -> (r: CoreError)
    ensures
        r.view_err() == CoreErrorV::GeneralError(join_kind_msg()),
{
    CoreError::GeneralError(String::from_str("Join keys must be the same column kind"))
}

/// The materialized row of each file, in canonical column order.
pub open spec fn rows_of_files_spec(files: Seq<CoreFile>) -> Seq<Seq<FileColumn>> {
    files.map_values(|f: CoreFile| f.columns_spec())
}

/// The materialized rows of an inner-join result: both sides' columns.
pub open spec fn inner_rows_spec(pairs: Seq<(CoreFile, CoreFile)>) -> Seq<Seq<FileColumn>> {
    pairs.map_values(|p: (CoreFile, CoreFile)| p.0.columns_spec() + p.1.columns_spec())
}

/// A fully absent right side: one `Null`-tagged cell per canonical
/// column, so that missing columns render through the `Null` tag
/// rather than omission and every joined row keeps a uniform width.
pub open spec fn null_row() -> Seq<FileColumn> {
    Seq::new(FileColumn::canonical_spec().len(), |i: int| FileColumn::Null)
}

/// The materialized rows of a left-outer-join result: the left side's
/// columns, then the right side's columns, or a full row of
/// `Null`-tagged cells when the right side is absent.
pub open spec fn left_rows_spec(pairs: Seq<(CoreFile, Option<CoreFile>)>) -> Seq<
    Seq<FileColumn>,
> {
    pairs.map_values(
        |p: (CoreFile, Option<CoreFile>)| p.0.columns_spec() + match p.1 {
            Option::Some(f) => f.columns_spec(),
            Option::None => null_row(),
        },
    )
}

/// Materializes the row of each file.
fn rows_of_files(files: &Vec<CoreFile>) -> (r: Vec<Vec<FileColumn>>)
    ensures
        rows_view(r@) == rows_of_files_spec(files@),
{
    let n: usize = files.len();
    let mut out: Vec<Vec<FileColumn>> = Vec::new();
    let mut i: usize = 0;
    proof {
        assert(rows_view(out@) =~= rows_of_files_spec(files@.take(0)));
    }
    while i < n
        invariant
            n == files@.len(),
            0 <= i <= n,
            rows_view(out@) == rows_of_files_spec(files@.take(i as int)),
        decreases n - i,
    {
        let ghost prev = out@;
        out.push(files[i].columns());
        proof {
            assert(prev.len() == rows_view(prev).len());
            assert(rows_view(prev).len() == rows_of_files_spec(files@.take(i as int)).len());
            assert(rows_of_files_spec(files@.take(i as int)).len() == i as int);
            assert forall|j: int| 0 <= j < i + 1 implies rows_view(out@)[j] == rows_of_files_spec(
                files@.take(i + 1),
            )[j] by {
                assert(rows_view(out@)[j] == out@[j]@);
                assert(rows_of_files_spec(files@.take(i + 1))[j] == files@.take(i + 1)[
                    j
                ].columns_spec());
                assert(files@.take(i + 1)[j] == files@[j]);
                if j < i {
                    assert(out@[j] == prev[j]);
                    assert(rows_view(prev)[j] == prev[j]@);
                    assert(rows_view(prev)[j] == rows_of_files_spec(files@.take(i as int))[j]);
                    assert(rows_of_files_spec(files@.take(i as int))[j] == files@.take(
                        i as int,
                    )[j].columns_spec());
                    assert(files@.take(i as int)[j] == files@[j]);
                }
            }
            assert(rows_view(out@) =~= rows_of_files_spec(files@.take(i + 1)));
        }
        i = i + 1;
    }
    proof {
        assert(files@.take(n as int) =~= files@);
    }
    out
}

/// Materializes the rows of an inner-join result.
fn inner_pairs_rows(pairs: &Vec<(CoreFile, CoreFile)>) -> (r: Vec<Vec<FileColumn>>)
    ensures
        rows_view(r@) == inner_rows_spec(pairs@),
{
    let n: usize = pairs.len();
    let mut out: Vec<Vec<FileColumn>> = Vec::new();
    let mut i: usize = 0;
    proof {
        assert(rows_view(out@) =~= inner_rows_spec(pairs@.take(0)));
    }
    while i < n
        invariant
            n == pairs@.len(),
            0 <= i <= n,
            rows_view(out@) == inner_rows_spec(pairs@.take(i as int)),
        decreases n - i,
    {
        let ghost prev = out@;
        let mut row = pairs[i].0.columns();
        let mut rb = pairs[i].1.columns();
        row.append(&mut rb);
        out.push(row);
        proof {
            assert(prev.len() == rows_view(prev).len());
            assert(rows_view(prev).len() == inner_rows_spec(pairs@.take(i as int)).len());
            assert(inner_rows_spec(pairs@.take(i as int)).len() == i as int);
            assert forall|j: int| 0 <= j < i + 1 implies rows_view(out@)[j] == inner_rows_spec(
                pairs@.take(i + 1),
            )[j] by {
                assert(rows_view(out@)[j] == out@[j]@);
                assert(inner_rows_spec(pairs@.take(i + 1))[j] == pairs@.take(i + 1)[
                    j
                ].0.columns_spec() + pairs@.take(i + 1)[j].1.columns_spec());
                assert(pairs@.take(i + 1)[j] == pairs@[j]);
                if j < i {
                    assert(out@[j] == prev[j]);
                    assert(rows_view(prev)[j] == prev[j]@);
                    assert(rows_view(prev)[j] == inner_rows_spec(pairs@.take(i as int))[j]);
                    assert(inner_rows_spec(pairs@.take(i as int))[j] == pairs@.take(i as int)[
                        j
                    ].0.columns_spec() + pairs@.take(i as int)[j].1.columns_spec());
                    assert(pairs@.take(i as int)[j] == pairs@[j]);
                }
            }
            assert(rows_view(out@) =~= inner_rows_spec(pairs@.take(i + 1)));
        }
        i = i + 1;
    }
    proof {
        assert(pairs@.take(n as int) =~= pairs@);
    }
    out
}

/// Materializes the rows of a left-outer-join result.
fn left_pairs_rows(pairs: &Vec<(CoreFile, Option<CoreFile>)>) -> (r: Vec<Vec<FileColumn>>)
    ensures
        rows_view(r@) == left_rows_spec(pairs@),
{
    let n: usize = pairs.len();
    let mut out: Vec<Vec<FileColumn>> = Vec::new();
    let mut i: usize = 0;
    proof {
        assert(rows_view(out@) =~= left_rows_spec(pairs@.take(0)));
    }
    while i < n
        invariant
            n == pairs@.len(),
            0 <= i <= n,
            rows_view(out@) == left_rows_spec(pairs@.take(i as int)),
        decreases n - i,
    {
        let ghost prev = out@;
        let mut row = pairs[i].0.columns();
        match &pairs[i].1 {
            Option::Some(f) => {
                let mut rb = f.columns();
                row.append(&mut rb);
            }
            Option::None => {
                let ghost left_cells = row@;
                let mut k: usize = 0;
                while k < 7
                    invariant
                        0 <= k <= 7,
                        row@ =~= left_cells + Seq::new(k as nat, |m: int| FileColumn::Null),
                    decreases 7 - k,
                {
                    row.push(FileColumn::Null);
                    proof {
                        assert(row@ =~= left_cells + Seq::new(
                            (k + 1) as nat,
                            |m: int| FileColumn::Null,
                        ));
                    }
                    k = k + 1;
                }
                proof {
                    assert(null_row() =~= Seq::new(7nat, |m: int| FileColumn::Null));
                    assert(row@ =~= left_cells + null_row());
                }
            }
        }
        out.push(row);
        proof {
            assert(prev.len() == rows_view(prev).len());
            assert(rows_view(prev).len() == left_rows_spec(pairs@.take(i as int)).len());
            assert(left_rows_spec(pairs@.take(i as int)).len() == i as int);
            assert forall|j: int| 0 <= j < i + 1 implies rows_view(out@)[j] == left_rows_spec(
                pairs@.take(i + 1),
            )[j] by {
                assert(rows_view(out@)[j] == out@[j]@);
                assert(pairs@.take(i + 1)[j] == pairs@[j]);
                assert(left_rows_spec(pairs@.take(i + 1))[j] == pairs@[j].0.columns_spec()
                    + match pairs@[j].1 {
                    Option::Some(f) => f.columns_spec(),
                    Option::None => null_row(),
                });
                if j < i {
                    assert(out@[j] == prev[j]);
                    assert(rows_view(prev)[j] == prev[j]@);
                    assert(rows_view(prev)[j] == left_rows_spec(pairs@.take(i as int))[j]);
                    assert(pairs@.take(i as int)[j] == pairs@[j]);
                    assert(left_rows_spec(pairs@.take(i as int))[j] == pairs@[j].0.columns_spec()
                        + match pairs@[j].1 {
                        Option::Some(f) => f.columns_spec(),
                        Option::None => null_row(),
                    });
                }
            }
            assert(rows_view(out@) =~= left_rows_spec(pairs@.take(i + 1)));
        }
        i = i + 1;
    }
    proof {
        assert(pairs@.take(n as int) =~= pairs@);
    }
    out
}

/// What evaluating one JOIN clause against the base row set yields.
///
/// The joined relation is loaded; the ON condition must evaluate to a
/// deferred binary operation; the operator must be equality and both
/// key selectors must name the same column kind; the matching join
/// algorithm then replaces the working row set. Every other join
/// operator or constraint shape is unsupported.
pub open spec fn join_rows_spec(
    files: Seq<CoreFile>,
    j: SqlJoinV,
    entries: Seq<(String, Result<Vec<CoreFile>, String>)>,
) -> Result<Seq<Seq<FileColumn>>, CoreErrorV> {
    match consume_relation_spec(j.relation, entries) {
        Err(e) => Err(e),
        Ok((jname, jfiles)) => match j.join_operator {
            SqlJoinOperatorV::Inner(SqlJoinConstraintV::On(expr)) => match consume_expr_spec(
                expr,
                true,
            ) {
                Err(e) => Err(e),
                Ok(ExprResultV::BinaryOp((lt, lk), op, (rt, rk))) => {
                    if op != SqlOperator::Eq {
                        Err(CoreErrorV::GeneralError(unsupported_join_msg()))
                    } else if col_rank(lk) != col_rank(rk) {
                        Err(CoreErrorV::GeneralError(join_kind_msg()))
                    } else {
                        Ok(inner_rows_spec(inner_join_spec(files, jfiles, lk, rk)))
                    }
                }
                Ok(_) => Err(CoreErrorV::GeneralError(unsupported_expr_msg())),
            },
            SqlJoinOperatorV::LeftOuter(SqlJoinConstraintV::On(expr)) => match consume_expr_spec(
                expr,
                true,
            ) {
                Err(e) => Err(e),
                Ok(ExprResultV::BinaryOp((lt, lk), op, (rt, rk))) => {
                    if op != SqlOperator::Eq {
                        Err(CoreErrorV::GeneralError(unsupported_join_msg()))
                    } else if col_rank(lk) != col_rank(rk) {
                        Err(CoreErrorV::GeneralError(join_kind_msg()))
                    } else {
                        Ok(left_rows_spec(left_join_spec(files, jfiles, lk, rk)))
                    }
                }
                Ok(_) => Err(CoreErrorV::GeneralError(unsupported_expr_msg())),
            },
            _ => Err(CoreErrorV::GeneralError(unsupported_join_msg())),
        },
    }
}

/// Evaluates one JOIN clause, exactly as `join_rows_spec` states.
fn join_rows(files: &Vec<CoreFile>, join: &SqlJoin, tables: &Tables) -> (r: Result<
    Vec<Vec<FileColumn>>,
    CoreError,
>)
    ensures
        match r {
            Ok(v) => join_rows_spec(files@, join.view_join(), tables.entries@) == Ok::<
                Seq<Seq<FileColumn>>,
                CoreErrorV,
            >(rows_view(v@)),
            Err(e) => join_rows_spec(files@, join.view_join(), tables.entries@) == Err::<
                Seq<Seq<FileColumn>>,
                CoreErrorV,
            >(e.view_err()),
        },
{
    let rel = match consume_relation(&join.relation, tables) {
        Ok(p) => p,
        Err(e) => {
            return Err(e);
        }
    };
    let jfiles = rel.1;
    match &join.join_operator {
        SqlJoinOperator::Inner(c) => match c {
            SqlJoinConstraint::On(expr) => {
                let er = match consume_expr(expr, true) {
                    Ok(v) => v,
                    Err(e) => {
                        return Err(e);
                    }
                };
                match er {
                    ExprResult::BinaryOp((lt, lk), op, (rt, rk)) => {
                        if !(op == SqlOperator::Eq) {
                            return Err(unsupported_join_err());
                        }
                        if !lk.same_kind(&rk) {
                            return Err(join_kind_err());
                        }
                        let pairs = inner_join(
                            crate::tables::dup_files(files),
                            jfiles,
                            &lk,
                            &rk,
                        );
                        Ok(inner_pairs_rows(&pairs))
                    }
                    _ => Err(crate::query::unsupported_expr_err()),
                }
            }
            SqlJoinConstraint::Unsupported => Err(unsupported_join_err()),
        },
        SqlJoinOperator::LeftOuter(c) => match c {
            SqlJoinConstraint::On(expr) => {
                let er = match consume_expr(expr, true) {
                    Ok(v) => v,
                    Err(e) => {
                        return Err(e);
                    }
                };
                match er {
                    ExprResult::BinaryOp((lt, lk), op, (rt, rk)) => {
                        if !(op == SqlOperator::Eq) {
                            return Err(unsupported_join_err());
                        }
                        if !lk.same_kind(&rk) {
                            return Err(join_kind_err());
                        }
                        let pairs = left_join(
                            crate::tables::dup_files(files),
                            jfiles,
                            &lk,
                            &rk,
                        );
                        Ok(left_pairs_rows(&pairs))
                    }
                    _ => Err(crate::query::unsupported_expr_err()),
                }
            }
            SqlJoinConstraint::Unsupported => Err(unsupported_join_err()),
        },
        SqlJoinOperator::Unsupported => Err(unsupported_join_err()),
    }
}

/// What folding the JOIN clauses yields: each successful join replaces
/// the working row set; the first failure aborts.
pub open spec fn joins_fold_spec(
    files: Seq<CoreFile>,
    joins: Seq<SqlJoinV>,
    entries: Seq<(String, Result<Vec<CoreFile>, String>)>,
    acc: Seq<Seq<FileColumn>>,
) -> Result<Seq<Seq<FileColumn>>, CoreErrorV>
    decreases joins.len(),
{
    if joins.len() == 0 {
        Ok(acc)
    } else {
        match join_rows_spec(files, joins[0], entries) {
            Err(e) => Err(e),
            Ok(rc) => joins_fold_spec(files, joins.drop_first(), entries, rc),
        }
    }
}

/// The TOP quantity, when the clause carries a literal that reads as a
/// number: a numeric or string literal parsed as an unsigned decimal,
/// or a boolean read as zero or one. Anything else, an absent
/// quantity included, disables truncation and never fails.
pub open spec fn top_quantity_spec(t: Option<SqlTopV>) -> Option<nat> {
    match t {
        Option::None => None,
        Option::Some(tv) => match tv.quantity {
            Option::None => None,
            Option::Some(q) => match q {
                SqlExprV::Value(v) => match v {
                    SqlValueV::Number(s) => parse_quantity_spec(s),
                    SqlValueV::SingleQuotedString(s) => parse_quantity_spec(s),
                    SqlValueV::NationalStringLiteral(s) => parse_quantity_spec(s),
                    SqlValueV::HexStringLiteral(s) => parse_quantity_spec(s),
                    SqlValueV::Boolean(b) => Some(if b { 1nat } else { 0nat }),
                    SqlValueV::Interval => None,
                    SqlValueV::Null => None,
                },
                _ => None,
            },
        },
    }
}

/// An unsigned decimal that fits the platform's size type.
pub open spec fn parse_quantity_spec(s: Seq<char>) -> Option<nat> {
    match parse_u64_spec(s) {
        Option::Some(n) => if n <= usize::MAX {
            Some(n as nat)
        } else {
            None
        },
        Option::None => None,
    }
}

/// Parses a TOP quantity string.
fn parse_quantity(s: &String) -> (r: Option<usize>)
    ensures
        match r {
            Some(n) => parse_quantity_spec(s@) == Some(n as nat),
            None => parse_quantity_spec(s@) is None,
        },
{
    match parse_u64(s.as_str()) {
        Option::Some(n) => {
            if n <= (usize::MAX as u64) {
                Some(n as usize)
            } else {
                None
            }
        }
        Option::None => None,
    }
}

/// What the working row set of a SELECT is, before projection.
///
/// GROUP BY, WHERE and HAVING are unsupported and rejected. With no
/// FROM item the row set is empty. Otherwise the first FROM item's
/// relation is loaded and materialized, each JOIN clause in turn
/// replaces the row set, DISTINCT sorts the rows and removes adjacent
/// duplicates, and a TOP quantity truncates.
pub open spec fn select_rows_spec(
    s: SqlSelectV,
    entries: Seq<(String, Result<Vec<CoreFile>, String>)>,
) -> Result<Seq<Seq<FileColumn>>, CoreErrorV> {
    if s.group_by.len() > 0 || s.selection is Some || s.having is Some {
        Err(CoreErrorV::GeneralError(unsupported_select_msg()))
    } else if s.from.len() == 0 {
        Ok(Seq::empty())
    } else {
        match consume_relation_spec(s.from[0].relation, entries) {
            Err(e) => Err(e),
            Ok((name, files)) => match joins_fold_spec(
                files,
                s.from[0].joins,
                entries,
                rows_of_files_spec(files),
            ) {
                Err(e) => Err(e),
                Ok(rc) => {
                    let d = if s.distinct {
                        distinct_spec(rc)
                    } else {
                        rc
                    };
                    Ok(
                        match top_quantity_spec(s.top) {
                            Option::Some(n) => top_spec(d, n),
                            Option::None => d,
                        },
                    )
                }
            },
        }
    }
}

/// Computes the working row set of a SELECT, exactly as
/// `select_rows_spec` states.
#[verifier::loop_isolation(false)]
pub fn consume_select_rows(select: &SqlSelect, tables: &Tables) -> (r: Result<
    Vec<Vec<FileColumn>>,
    CoreError,
>)
    ensures
        match r {
            Ok(v) => select_rows_spec(select.view_select(), tables.entries@) == Ok::<
                Seq<Seq<FileColumn>>,
                CoreErrorV,
            >(rows_view(v@)),
            Err(e) => select_rows_spec(select.view_select(), tables.entries@) == Err::<
                Seq<Seq<FileColumn>>,
                CoreErrorV,
            >(e.view_err()),
        },
{
    let ghost sv = select.view_select();
    if select.group_by.len() > 0 {
        return Err(unsupported_select_err());
    }
    match &select.selection {
        Option::Some(_) => {
            return Err(unsupported_select_err());
        }
        Option::None => {}
    }
    match &select.having {
        Option::Some(_) => {
            return Err(unsupported_select_err());
        }
        Option::None => {}
    }
    if select.from.len() == 0 {
        let out: Vec<Vec<FileColumn>> = Vec::new();
        proof {
            assert(rows_view(out@) =~= Seq::<Seq<FileColumn>>::empty());
        }
        return Ok(out);
    }
    let twj = &select.from[0];
    proof {
        assert(sv.from[0] == select.from@[0].view_twj());
    }
    let rel = match consume_relation(&twj.relation, tables) {
        Ok(p) => p,
        Err(e) => {
            return Err(e);
        }
    };
    let files = rel.1;
    let mut result_columns = rows_of_files(&files);
    let ghost joinsv = sv.from[0].joins;
    let nj: usize = twj.joins.len();
    let mut j: usize = 0;
    proof {
        assert(joinsv.skip(0) =~= joinsv);
    }
    while j < nj
        invariant
            nj == twj.joins@.len(),
            joinsv == twj.view_twj().joins,
            0 <= j <= nj,
            tables.entries@ == tables.entries@,
            joins_fold_spec(files@, joinsv, tables.entries@, rows_of_files_spec(files@))
                == joins_fold_spec(
                files@,
                joinsv.skip(j as int),
                tables.entries@,
                rows_view(result_columns@),
            ),
        decreases nj - j,
    {
        proof {
            assert(joinsv.skip(j as int)[0] == joinsv[j as int]);
            assert(joinsv[j as int] == twj.joins@[j as int].view_join());
            assert(joinsv.skip(j as int).drop_first() =~= joinsv.skip(j + 1));
        }
        let rc = match join_rows(&files, &twj.joins[j], tables) {
            Ok(v) => v,
            Err(e) => {
                return Err(e);
            }
        };
        result_columns = rc;
        j = j + 1;
    }
    proof {
        assert(joinsv.skip(nj as int).len() == 0);
    }
    if select.distinct {
        result_columns = distinct(result_columns);
    }
    match &select.top {
        Option::Some(t) => {
            proof {
                assert(sv.top matches Some(tv) && tv == t.view_top());
            }
            match &t.quantity {
                Option::Some(q) => match q {
                    SqlExpr::Value(v) => {
                        let quantity: Option<usize> = match v {
                            SqlValue::Number(s) => parse_quantity(s),
                            SqlValue::SingleQuotedString(s) => parse_quantity(s),
                            SqlValue::NationalStringLiteral(s) => parse_quantity(s),
                            SqlValue::HexStringLiteral(s) => parse_quantity(s),
                            SqlValue::Boolean(b) => if *b {
                                Some(1)
                            } else {
                                Some(0)
                            },
                            SqlValue::Interval => None,
                            SqlValue::Null => None,
                        };
                        match quantity {
                            Option::Some(n) => {
                                result_columns = top_rows(result_columns, n);
                            }
                            Option::None => {}
                        }
                    }
                    _ => {}
                },
                Option::None => {}
            }
        }
        Option::None => {}
    }
    Ok(result_columns)
}

/// What a SELECT yields: the projection applied to the working row
/// set.
pub open spec fn consume_select_spec(
    s: SqlSelectV,
    entries: Seq<(String, Result<Vec<CoreFile>, String>)>,
) -> Result<Seq<(Seq<char>, Seq<char>, Seq<char>)>, CoreErrorV> {
    match select_rows_spec(s, entries) {
        Err(e) => Err(e),
        Ok(rows) => project_spec(rows, s.projection),
    }
}

/// Evaluates a SELECT against the preloaded tables, exactly as
/// `consume_select_spec` states: one cell per projected column per
/// row, each cell carrying a stable hash-derived identifier and the
/// rendered value.
pub fn consume_select(select: &SqlSelect, tables: &Tables) -> (r: Result<
    Vec<(String, String, String)>,
    CoreError,
>)
    ensures
        match r {
            Ok(v) => consume_select_spec(select.view_select(), tables.entries@) == Ok::<
                Seq<(Seq<char>, Seq<char>, Seq<char>)>,
                CoreErrorV,
            >(cells_view(v@)),
            Err(e) => consume_select_spec(select.view_select(), tables.entries@) == Err::<
                Seq<(Seq<char>, Seq<char>, Seq<char>)>,
                CoreErrorV,
            >(e.view_err()),
        },
{
    let rows = match consume_select_rows(select, tables) {
        Ok(v) => v,
        Err(e) => {
            return Err(e);
        }
    };
    project(&rows, &select.projection)
}

} // verus!
