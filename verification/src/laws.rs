use vstd::prelude::*;

use crate::value::Value;
use crate::value::val_eq;
use crate::report::DiffReport;
use crate::report::col_stat_ok;
use crate::report::key_idxs;
use crate::report::matched_of;
use crate::report::report_ok;
use crate::schema::Dataset;
use crate::schema::find_col;
use crate::schema::is_key_name;
use crate::stats::PairWeight;
use crate::stats::keys_match;
use crate::stats::pair_sum;
use crate::stats::pair_sum_row;
use crate::stats::w_col_diff;
use crate::stats::w_one;

verus! {

/// Law: null-aware equality treats two missing values as equal, so a
/// both-null cell pair never counts as a disagreement.
pub proof fn lemma_null_cells_agree(x: Value, y: Value)
    requires
        x is Null,
        y is Null,
    ensures
        val_eq(x, y),
{
}

/// Law: a row pair whose cells are both null on a compared column adds
/// nothing to that column's disagreement count.
pub proof fn lemma_null_pair_no_disagreement(ra: Vec<Value>, rb: Vec<Value>, ca: usize, cb: usize)
    requires
        ra@[ca as int] is Null,
        rb@[cb as int] is Null,
    ensures
        w_col_diff(ca, cb)(ra, rb) == 0,
{
}

/// Two rows carry the same compound key (null-aware).
pub open spec fn same_keys(x: Vec<Value>, y: Vec<Value>, ks: Seq<usize>) -> bool {
    keys_match(x, y, ks, ks)
}

/// No two rows carry the same compound key.
pub open spec fn keys_unique(rows: Seq<Vec<Value>>, ks: Seq<usize>) -> bool {
    forall|j1: int, j2: int|
        0 <= j1 < j2 < rows.len() ==> !same_keys(rows[j1], rows[j2], ks)
}

proof fn lemma_keys_match_sym(x: Vec<Value>, y: Vec<Value>, ka: Seq<usize>, kb: Seq<usize>)
    requires
        ka.len() == kb.len(),
    ensures
        keys_match(x, y, ka, kb) == keys_match(y, x, kb, ka),
{
    assert forall|t: int| 0 <= t < ka.len() implies val_eq(x@[ka[t] as int], y@[kb[t] as int])
        == val_eq(y@[kb[t] as int], x@[ka[t] as int]) by {
        crate::value::lemma_val_eq_sym(x@[ka[t] as int], y@[kb[t] as int]);
    }
}

proof fn lemma_keys_match_trans(
    x: Vec<Value>,
    y: Vec<Value>,
    z: Vec<Value>,
    ka: Seq<usize>,
    kb: Seq<usize>,
)
    requires
        ka.len() == kb.len(),
        keys_match(x, y, ka, kb),
        keys_match(x, z, ka, kb),
    ensures
        keys_match(y, z, kb, kb),
{
    assert forall|t: int| 0 <= t < kb.len() implies val_eq(y@[kb[t] as int], z@[kb[t] as int]) by {
        crate::value::lemma_val_eq_sym(x@[ka[t] as int], y@[kb[t] as int]);
        crate::value::lemma_val_eq_trans(y@[kb[t] as int], x@[ka[t] as int], z@[kb[t] as int]);
    }
}

proof fn lemma_row_shift(
    x: Vec<Value>,
    s: Seq<Vec<Value>>,
    ka: Seq<usize>,
    kb: Seq<usize>,
    f: PairWeight,
    j: int,
)
    requires
        0 <= j,
        s.len() >= 1,
    ensures
        pair_sum_row(x, s, ka, kb, f, j + 1) == pair_sum_row(x, s.drop_first(), ka, kb, f, j),
    decreases s.len() - j,
{
    if j + 1 < s.len() {
        lemma_row_shift(x, s, ka, kb, f, j + 1);
        assert(s.drop_first()[j] == s[j + 1]);
    }
}

proof fn lemma_outer_shift(
    s: Seq<Vec<Value>>,
    b: Seq<Vec<Value>>,
    ka: Seq<usize>,
    kb: Seq<usize>,
    f: PairWeight,
    i: int,
)
    requires
        0 <= i,
        s.len() >= 1,
    ensures
        pair_sum(s, b, ka, kb, f, i + 1) == pair_sum(s.drop_first(), b, ka, kb, f, i),
    decreases s.len() - i,
{
    if i + 1 < s.len() {
        lemma_outer_shift(s, b, ka, kb, f, i + 1);
        assert(s.drop_first()[i] == s[i + 1]);
    }
}

/// Dropping the first inner row removes exactly that row's matches from
/// every outer row's count.
proof fn lemma_inner_drop(
    b: Seq<Vec<Value>>,
    a: Seq<Vec<Value>>,
    ka: Seq<usize>,
    kb: Seq<usize>,
    i: int,
)
    requires
        ka.len() == kb.len(),
        a.len() >= 1,
        0 <= i <= b.len(),
    ensures
        pair_sum(b, a, kb, ka, w_one(), i) == pair_sum(b, a.drop_first(), kb, ka, w_one(), i)
            + pair_sum_row(a[0], b, ka, kb, w_one(), i),
    decreases b.len() - i,
{
    if i < b.len() {
        lemma_inner_drop(b, a, ka, kb, i + 1);
        lemma_row_shift(b[i], a, kb, ka, w_one(), 0);
        lemma_keys_match_sym(a[0], b[i], ka, kb);
        assert(pair_sum_row(b[i], a, kb, ka, w_one(), 0) == (if keys_match(b[i], a[0], kb, ka) {
            w_one()(b[i], a[0])
        } else {
            0nat
        }) + pair_sum_row(b[i], a, kb, ka, w_one(), 1));
    }
}

/// Law (count symmetry, core): the joined-row count does not depend on
/// which dataset stands on which side of the join.
pub proof fn lemma_pair_count_sym(
    a: Seq<Vec<Value>>,
    b: Seq<Vec<Value>>,
    ka: Seq<usize>,
    kb: Seq<usize>,
)
    requires
        ka.len() == kb.len(),
    ensures
        pair_sum(a, b, ka, kb, w_one(), 0) == pair_sum(b, a, kb, ka, w_one(), 0),
    decreases a.len(),
{
    if a.len() == 0 {
        lemma_pair_sum_empty_inner(b, a, kb, ka, 0);
    } else {
        lemma_pair_count_sym(a.drop_first(), b, ka, kb);
        lemma_outer_shift(a, b, ka, kb, w_one(), 0);
        lemma_inner_drop(b, a, ka, kb, 0);
    }
}

proof fn lemma_pair_sum_empty_inner(
    b: Seq<Vec<Value>>,
    a: Seq<Vec<Value>>,
    kb: Seq<usize>,
    ka: Seq<usize>,
    i: int,
)
    requires
        a.len() == 0,
        0 <= i,
    ensures
        pair_sum(b, a, kb, ka, w_one(), i) == 0,
    decreases b.len() - i,
{
    if i < b.len() {
        lemma_pair_sum_empty_inner(b, a, kb, ka, i + 1);
    }
}

/// No row of `b` from `j` on carries `x`'s key.
proof fn lemma_row_sum_zero(
    x: Vec<Value>,
    b: Seq<Vec<Value>>,
    ka: Seq<usize>,
    kb: Seq<usize>,
    j: int,
)
    requires
        forall|q: int| j <= q < b.len() ==> !keys_match(x, b[q], ka, kb),
    ensures
        pair_sum_row(x, b, ka, kb, w_one(), j) == 0,
    decreases b.len() - j,
{
    if 0 <= j < b.len() {
        lemma_row_sum_zero(x, b, ka, kb, j + 1);
    }
}

/// With unique keys on the inner side, each outer row matches at most
/// one inner row.
proof fn lemma_row_sum_le_1(
    x: Vec<Value>,
    b: Seq<Vec<Value>>,
    ka: Seq<usize>,
    kb: Seq<usize>,
    j: int,
)
    requires
        ka.len() == kb.len(),
        keys_unique(b, kb),
        0 <= j,
    ensures
        pair_sum_row(x, b, ka, kb, w_one(), j) <= 1,
    decreases b.len() - j,
{
    if j < b.len() {
        if keys_match(x, b[j], ka, kb) {
            assert forall|q: int| j + 1 <= q < b.len() implies !keys_match(x, b[q], ka, kb) by {
                if keys_match(x, b[q], ka, kb) {
                    lemma_keys_match_trans(x, b[j], b[q], ka, kb);
                    assert(same_keys(b[j], b[q], kb));
                }
            }
            lemma_row_sum_zero(x, b, ka, kb, j + 1);
        } else {
            lemma_row_sum_le_1(x, b, ka, kb, j + 1);
        }
    }
}

/// With unique keys on the inner side, the joined-row count is at most
/// the outer row count.
pub proof fn lemma_matched_le_outer(
    a: Seq<Vec<Value>>,
    b: Seq<Vec<Value>>,
    ka: Seq<usize>,
    kb: Seq<usize>,
    i: int,
)
    requires
        ka.len() == kb.len(),
        keys_unique(b, kb),
        0 <= i <= a.len(),
    ensures
        pair_sum(a, b, ka, kb, w_one(), i) <= a.len() - i,
    decreases a.len() - i,
{
    if i < a.len() {
        lemma_row_sum_le_1(a[i], b, ka, kb, 0);
        lemma_matched_le_outer(a, b, ka, kb, i + 1);
    }
}

/// Law: the joined-row count is symmetric in the two datasets.
pub proof fn lemma_matched_symmetric(a: Dataset, b: Dataset, keys: Seq<String>)
    ensures
        matched_of(a, b, keys) == matched_of(b, a, keys),
{
    lemma_pair_count_sym(a.rows@, b.rows@, key_idxs(a, keys), key_idxs(b, keys));
}

/// Law: `matchedCount + removedCount == totalRowsA`, for any report of a
/// run whose right-hand dataset has unique join keys. (With duplicate
/// keys on the right, the joined-row count can exceed `totalRowsA` and
/// `removedCount` saturates at zero.)
pub proof fn lemma_matched_removed_balance(
    rep: DiffReport,
    a: Dataset,
    b: Dataset,
    keys: Seq<String>,
    gcap: nat,
    ccap: nat,
)
    requires
        report_ok(rep, a, b, keys, gcap, ccap),
        keys_unique(b.rows@, key_idxs(b, keys)),
    ensures
        rep.matched_count + rep.removed_count == rep.total_rows_a,
{
    lemma_matched_le_outer(a.rows@, b.rows@, key_idxs(a, keys), key_idxs(b, keys), 0);
}

/// Law: `matchedCount + addedCount == totalRowsB`, for any report of a
/// run whose left-hand dataset has unique join keys.
pub proof fn lemma_matched_added_balance(
    rep: DiffReport,
    a: Dataset,
    b: Dataset,
    keys: Seq<String>,
    gcap: nat,
    ccap: nat,
)
    requires
        report_ok(rep, a, b, keys, gcap, ccap),
        keys_unique(a.rows@, key_idxs(a, keys)),
    ensures
        rep.matched_count + rep.added_count == rep.total_rows_b,
{
    lemma_matched_symmetric(a, b, keys);
    lemma_matched_le_outer(b.rows@, a.rows@, key_idxs(b, keys), key_idxs(a, keys), 0);
}

/// Law: `identicalRowsCount + modifiedRowsCount == matchedCount`, for
/// every report, always.
pub proof fn lemma_identical_modified_balance(
    rep: DiffReport,
    a: Dataset,
    b: Dataset,
    keys: Seq<String>,
    gcap: nat,
    ccap: nat,
)
    requires
        report_ok(rep, a, b, keys, gcap, ccap),
    ensures
        rep.identical_rows_count + rep.modified_rows_count == rep.matched_count,
{
}

/// Law: every key column present on both sides reports full agreement:
/// no mismatches, and a match count equal to the matched-row count.
pub proof fn lemma_key_column_full_match(
    rep: DiffReport,
    a: Dataset,
    b: Dataset,
    keys: Seq<String>,
    gcap: nat,
    ccap: nat,
    c: int,
)
    requires
        report_ok(rep, a, b, keys, gcap, ccap),
        0 <= c < a.schema@.len(),
        is_key_name(keys, a.schema@[c].name@),
        find_col(b.schema@, a.schema@[c].name@) >= 0,
    ensures
        rep.column_stats@[c].non_match_count == 0,
        rep.column_stats@[c].match_count == rep.column_stats@[c].total_count,
        rep.column_stats@[c].all_match,
{
    assert(col_stat_ok(rep.column_stats@[c], a, b, keys, gcap, ccap, c));
}

/// Law: the added count of one direction is the removed count of the
/// other, and the matched counts agree, for any two reports of the same
/// datasets diffed both ways.
pub proof fn lemma_count_symmetry(
    rep_ab: DiffReport,
    rep_ba: DiffReport,
    a: Dataset,
    b: Dataset,
    keys: Seq<String>,
    gcap: nat,
    ccap: nat,
)
    requires
        report_ok(rep_ab, a, b, keys, gcap, ccap),
        report_ok(rep_ba, b, a, keys, gcap, ccap),
    ensures
        rep_ab.matched_count == rep_ba.matched_count,
        rep_ab.added_count == rep_ba.removed_count,
        rep_ab.removed_count == rep_ba.added_count,
{
    lemma_matched_symmetric(a, b, keys);
}

/// The two column statistics agree on every field (string fields by
/// their characters).
pub open spec fn stats_equivalent(
    s1: crate::report::ColumnStat,
    s2: crate::report::ColumnStat,
) -> bool {
    &&& s1.column_name@ == s2.column_name@
    &&& s1.is_key == s2.is_key
    &&& s1.source_type == s2.source_type
    &&& s1.target_type == s2.target_type
    &&& s1.total_count == s2.total_count
    &&& s1.match_count == s2.match_count
    &&& s1.non_match_count == s2.non_match_count
    &&& s1.all_match == s2.all_match
    &&& s1.max_abs_numeric_delta == s2.max_abs_numeric_delta
    &&& s1.null_count_delta == s2.null_count_delta
    &&& s1.samples@.len() == s2.samples@.len()
    &&& forall|k: int|
        0 <= k < s1.samples@.len() ==> (#[trigger] s1.samples@[k]).key_desc@
            == s2.samples@[k].key_desc@ && s1.samples@[k].change@ == s2.samples@[k].change@
}

/// The two reports agree on every count and on every column statistic.
pub open spec fn reports_equivalent(r1: DiffReport, r2: DiffReport) -> bool {
    &&& r1.total_rows_a == r2.total_rows_a
    &&& r1.total_rows_b == r2.total_rows_b
    &&& r1.matched_count == r2.matched_count
    &&& r1.added_count == r2.added_count
    &&& r1.removed_count == r2.removed_count
    &&& r1.identical_rows_count == r2.identical_rows_count
    &&& r1.modified_rows_count == r2.modified_rows_count
    &&& r1.column_stats@.len() == r2.column_stats@.len()
    &&& forall|c: int|
        0 <= c < r1.column_stats@.len() ==> stats_equivalent(
            #[trigger] r1.column_stats@[c],
            r2.column_stats@[c],
        )
}

/// Law (idempotence): any two reports of the same datasets and key set
/// agree field for field — the report is a function of its inputs.
pub proof fn lemma_diff_deterministic(
    r1: DiffReport,
    r2: DiffReport,
    a: Dataset,
    b: Dataset,
    keys: Seq<String>,
    gcap: nat,
    ccap: nat,
)
    requires
        report_ok(r1, a, b, keys, gcap, ccap),
        report_ok(r2, a, b, keys, gcap, ccap),
    ensures
        reports_equivalent(r1, r2),
{
    assert forall|c: int| 0 <= c < r1.column_stats@.len() implies stats_equivalent(
        #[trigger] r1.column_stats@[c],
        r2.column_stats@[c],
    ) by {
        crate::schema::lemma_find_col_in_range(b.schema@, a.schema@[c].name@, 0);
        assert(col_stat_ok(r1.column_stats@[c], a, b, keys, gcap, ccap, c));
        assert(col_stat_ok(r2.column_stats@[c], a, b, keys, gcap, ccap, c));
    }
}

} // verus!
