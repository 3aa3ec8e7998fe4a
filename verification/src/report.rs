use vstd::prelude::*;

use crate::value::DataType;
use crate::guard::col_vals;
use crate::guard::distinct_count;
use crate::samples::Sample;
use crate::samples::col_samples;
use crate::samples::sb;
use crate::schema::Dataset;
use crate::schema::find_col;
use crate::schema::find_column;
use crate::schema::is_key_name;
use crate::schema::name_is_key;
use crate::stats::CmpCol;
use crate::stats::pair_max;
use crate::stats::pair_sum;
use crate::stats::w_col_diff;
use crate::stats::w_delta;
use crate::stats::w_modified;
use crate::stats::w_null_a;
use crate::stats::w_null_b;
use crate::stats::w_one;

verus! {

/// Why a diff run was refused.
#[derive(Debug)]
pub enum DiffError {
    /// A join-key column is absent from one side's schema, found before
    /// any join work begins.
    MissingKeyColumn { column: String, on_right: bool },
    /// Both sides hold more duplicate leading-key values than the
    /// threshold allows: the inner join could explode combinatorially.
    JoinExplosion { duplicates_a: usize, duplicates_b: usize },
}

/// Non-fatal notice: one side's join keys are not unique.
#[derive(Clone, Copy, PartialEq, Eq, Structural, Debug)]
pub struct DupKeyWarning {
    pub on_right: bool,
    pub unique_keys: usize,
    pub total_rows: usize,
}

/// Tunable limits of a diff run.
#[derive(Clone, Copy, PartialEq, Eq, Structural, Debug)]
pub struct DiffConfig {
    pub explosion_threshold: usize,
    pub per_column_sample_cap: usize,
    pub global_sample_cap: usize,
}

impl Default for DiffConfig {
    fn default() -> (c: DiffConfig)
        ensures
            c.explosion_threshold == 1000,
            c.per_column_sample_cap == 5,
            c.global_sample_cap == 100,
    {
        DiffConfig { explosion_threshold: 1000, per_column_sample_cap: 5, global_sample_cap: 100 }
    }
}

/// Per-column agreement statistics of the report.
#[derive(PartialEq, Debug)]
pub struct ColumnStat {
    pub column_name: String,
    pub is_key: bool,
    pub source_type: DataType,
    /// `None` when the column is absent from the right-hand schema.
    pub target_type: Option<DataType>,
    pub total_count: usize,
    pub match_count: usize,
    pub non_match_count: usize,
    pub all_match: bool,
    /// Present exactly when both sides' declared types are numeric.
    pub max_abs_numeric_delta: Option<u64>,
    /// Nulls on the right minus nulls on the left, over matched rows.
    pub null_count_delta: Option<i128>,
    pub samples: Vec<Sample>,
}

/// The difference report of one diff run.
#[derive(PartialEq, Debug)]
pub struct DiffReport {
    pub total_rows_a: usize,
    pub total_rows_b: usize,
    pub matched_count: usize,
    pub added_count: usize,
    pub removed_count: usize,
    pub identical_rows_count: usize,
    pub modified_rows_count: usize,
    pub column_stats: Vec<ColumnStat>,
}

/// A successful diff run: the report and the non-fatal warnings
/// gathered along the way.
#[derive(PartialEq, Debug)]
pub struct DiffOutcome {
    pub report: DiffReport,
    pub warnings: Vec<DupKeyWarning>,
}

pub open spec fn dtype_chars(d: DataType) -> Seq<char> {
    match d {
        DataType::Int => "Int"@,
        DataType::Float => "Float"@,
        DataType::Bool => "Bool"@,
        DataType::Str => "Str"@,
        DataType::Null => "Null"@,
        DataType::Other => "Other"@,
    }
}

/// Readable name of a data type.
pub fn dtype_label(d: &DataType) -> (s: String)
    ensures
        s@ == dtype_chars(*d),
{
    match d {
        DataType::Int => "Int".to_owned(),
        DataType::Float => "Float".to_owned(),
        DataType::Bool => "Bool".to_owned(),
        DataType::Str => "Str".to_owned(),
        DataType::Null => "Null".to_owned(),
        DataType::Other => "Other".to_owned(),
    }
}

pub open spec fn target_label_chars(st: ColumnStat) -> Seq<char> {
    match st.target_type {
        Option::None => "MISSING"@,
        Option::Some(d) => dtype_chars(d),
    }
}

impl ColumnStat {
    /// Right-side type label, with the `MISSING` sentinel for a column
    /// absent from the right-hand schema.
    pub fn target_type_label(&self) -> (s: String)
        ensures
            s@ == target_label_chars(*self),
    {
        match &self.target_type {
            Option::None => "MISSING".to_owned(),
            Option::Some(d) => dtype_label(d),
        }
    }
}

/// All key names resolve to a column of `d`.
pub open spec fn keys_ok(d: Dataset, keys: Seq<String>) -> bool {
    forall|t: int| 0 <= t < keys.len() ==> find_col(d.schema@, keys[t]@) >= 0
}

/// Index of the first key name missing from `d`'s schema, scanning from
/// `t`; `keys.len()` when none is missing.
pub open spec fn first_missing(d: Dataset, keys: Seq<String>, t: int) -> int
    decreases keys.len() - t,
{
    if t < 0 || t >= keys.len() {
        keys.len() as int
    } else if find_col(d.schema@, keys[t]@) == -1 {
        t
    } else {
        first_missing(d, keys, t + 1)
    }
}

/// The key columns' positions in `d`'s schema, in key order.
pub open spec fn key_idxs(d: Dataset, keys: Seq<String>) -> Seq<usize> {
    Seq::new(keys.len(), |t: int| find_col(d.schema@, keys[t]@) as usize)
}

/// The compared columns: schema-a columns from `c` on that are not key
/// columns and are present in schema b, in schema-a order.
pub open spec fn cc_from(a: Dataset, b: Dataset, keys: Seq<String>, c: int) -> Seq<CmpCol>
    decreases a.schema@.len() - c,
{
    if c < 0 || c >= a.schema@.len() {
        Seq::empty()
    } else {
        let name = a.schema@[c].name@;
        let cb = find_col(b.schema@, name);
        let rest = cc_from(a, b, keys, c + 1);
        if !is_key_name(keys, name) && cb >= 0 {
            seq![
                CmpCol {
                    ca: c as usize,
                    cb: cb as usize,
                    numeric: a.schema@[c].dtype.spec_is_numeric()
                        && b.schema@[cb].dtype.spec_is_numeric(),
                },
            ] + rest
        } else {
            rest
        }
    }
}

pub open spec fn compared_of(a: Dataset, b: Dataset, keys: Seq<String>) -> Seq<CmpCol> {
    cc_from(a, b, keys, 0)
}

pub open spec fn matched_of(a: Dataset, b: Dataset, keys: Seq<String>) -> nat {
    pair_sum(a.rows@, b.rows@, key_idxs(a, keys), key_idxs(b, keys), w_one(), 0)
}

pub open spec fn modified_of(a: Dataset, b: Dataset, keys: Seq<String>) -> nat {
    pair_sum(
        a.rows@,
        b.rows@,
        key_idxs(a, keys),
        key_idxs(b, keys),
        w_modified(compared_of(a, b, keys)),
        0,
    )
}

pub open spec fn col_diff_of(a: Dataset, b: Dataset, keys: Seq<String>, ca: usize, cb: usize) -> nat {
    pair_sum(a.rows@, b.rows@, key_idxs(a, keys), key_idxs(b, keys), w_col_diff(ca, cb), 0)
}

pub open spec fn nulls_a_of(a: Dataset, b: Dataset, keys: Seq<String>, ca: usize) -> nat {
    pair_sum(a.rows@, b.rows@, key_idxs(a, keys), key_idxs(b, keys), w_null_a(ca), 0)
}

pub open spec fn nulls_b_of(a: Dataset, b: Dataset, keys: Seq<String>, cb: usize) -> nat {
    pair_sum(a.rows@, b.rows@, key_idxs(a, keys), key_idxs(b, keys), w_null_b(cb), 0)
}

pub open spec fn max_delta_of(a: Dataset, b: Dataset, keys: Seq<String>, ca: usize, cb: usize) -> nat {
    pair_max(a.rows@, b.rows@, key_idxs(a, keys), key_idxs(b, keys), w_delta(ca, cb), 0)
}

/// Distinct values of the leading key column: the uniqueness probe.
pub open spec fn unique_of(d: Dataset, keys: Seq<String>) -> nat {
    distinct_count(col_vals(d.rows@, find_col(d.schema@, keys[0]@) as usize))
}

/// Duplicate-row estimate of the leading key column.
pub open spec fn dups_of(d: Dataset, keys: Seq<String>) -> nat {
    (d.rows@.len() - unique_of(d, keys)) as nat
}

/// The shared sample buffer of one run: the first `gcap` modified joined
/// row pairs.
pub open spec fn spec_buffer(a: Dataset, b: Dataset, keys: Seq<String>, gcap: nat) -> Seq<
    (usize, usize),
> {
    sb(a.rows@, b.rows@, key_idxs(a, keys), key_idxs(b, keys), compared_of(a, b, keys), 0, gcap)
}

/// The duplicate-key warnings of one run: left side first.
pub open spec fn warn_seq(a: Dataset, b: Dataset, keys: Seq<String>) -> Seq<DupKeyWarning> {
    (if unique_of(a, keys) < a.rows@.len() {
        seq![
            DupKeyWarning {
                on_right: false,
                unique_keys: unique_of(a, keys) as usize,
                total_rows: a.rows@.len() as usize,
            },
        ]
    } else {
        Seq::empty()
    }) + (if unique_of(b, keys) < b.rows@.len() {
        seq![
            DupKeyWarning {
                on_right: true,
                unique_keys: unique_of(b, keys) as usize,
                total_rows: b.rows@.len() as usize,
            },
        ]
    } else {
        Seq::empty()
    })
}

/// Resolves each key name to its column position, or reports the first
/// missing one.
#[verifier::loop_isolation(false)]
pub fn resolve_keys(d: &Dataset, keys: &Vec<String>) -> (r: Result<Vec<usize>, usize>)
    ensures
        match r {
            Ok(ks) => {
                &&& keys_ok(*d, keys@)
                &&& ks@ == key_idxs(*d, keys@)
                &&& forall|t: int| 0 <= t < ks@.len() ==> #[trigger] ks@[t] < d.schema@.len()
            },
            Err(t) => {
                &&& !keys_ok(*d, keys@)
                &&& t == first_missing(*d, keys@, 0)
                &&& t < keys@.len()
                &&& find_col(d.schema@, keys@[t as int]@) == -1
            },
        },
{
    let mut ks: Vec<usize> = Vec::new();
    let mut t: usize = 0;
    while t < keys.len()
        invariant
            0 <= t <= keys@.len(),
            ks@.len() == t,
            forall|q: int| 0 <= q < t ==> #[trigger] find_col(d.schema@, keys@[q]@) >= 0,
            forall|q: int|
                0 <= q < t ==> #[trigger] ks@[q] == find_col(d.schema@, keys@[q]@) && ks@[q]
                    < d.schema@.len(),
            first_missing(*d, keys@, 0) == first_missing(*d, keys@, t as int),
        decreases keys@.len() - t,
    {
        proof {
            crate::schema::lemma_find_col_in_range(d.schema@, keys@[t as int]@, 0);
        }
        let ghost ks0 = ks@;
        match find_column(&d.schema, &keys[t]) {
            Some(c) => {
                ks.push(c);
                proof {
                    assert(ks@[t as int] == c);
                    assert(forall|q: int| 0 <= q < t ==> #[trigger] ks@[q] == ks0[q]);
                    assert(find_col(d.schema@, keys@[t as int]@) == c);
                }
            },
            None => {
                return Err(t);
            },
        }
        t += 1;
    }
    proof {
        assert(ks@ =~= key_idxs(*d, keys@));
    }
    Ok(ks)
}

/// Builds the compared-column list, in schema-a order.
#[verifier::loop_isolation(false)]
pub fn build_compared(a: &Dataset, b: &Dataset, keys: &Vec<String>) -> (cols: Vec<CmpCol>)
    ensures
        cols@ == compared_of(*a, *b, keys@),
        forall|t: int|
            0 <= t < cols@.len() ==> (#[trigger] cols@[t]).ca < a.schema@.len() && cols@[t].cb
                < b.schema@.len(),
{
    let mut cols: Vec<CmpCol> = Vec::new();
    let mut c: usize = 0;
    while c < a.schema.len()
        invariant
            0 <= c <= a.schema@.len(),
            compared_of(*a, *b, keys@) =~= cols@ + cc_from(*a, *b, keys@, c as int),
            forall|t: int|
                0 <= t < cols@.len() ==> (#[trigger] cols@[t]).ca < a.schema@.len() && cols@[t].cb
                    < b.schema@.len(),
        decreases a.schema@.len() - c,
    {
        let name = &a.schema[c].name;
        let is_key = name_is_key(keys, name);
        if !is_key {
            match find_column(&b.schema, name) {
                Some(cb) => {
                    let numeric = a.schema[c].dtype.is_numeric() && b.schema[cb].dtype.is_numeric();
                    cols.push(CmpCol { ca: c, cb, numeric });
                    proof {
                        assert(compared_of(*a, *b, keys@) =~= cols@ + cc_from(
                            *a,
                            *b,
                            keys@,
                            c + 1,
                        ));
                    }
                },
                None => {
                },
            }
        }
        c += 1;
    }
    proof {
        assert(compared_of(*a, *b, keys@) =~= cols@);
    }
    cols
}

/// The sample list carries exactly the expected key/change strings.
pub open spec fn samples_ok(ss: Seq<Sample>, expected: Seq<(Seq<char>, Seq<char>)>) -> bool {
    &&& ss.len() == expected.len()
    &&& forall|k: int|
        0 <= k < ss.len() ==> (#[trigger] ss[k]).key_desc@ == expected[k].0 && ss[k].change@
            == expected[k].1
}

/// The formatted samples owed to the column pair (ca, cb).
pub open spec fn col_samples_of(
    a: Dataset,
    b: Dataset,
    keys: Seq<String>,
    ca: usize,
    cb: usize,
    gcap: nat,
    ccap: nat,
) -> Seq<(Seq<char>, Seq<char>)> {
    col_samples(
        spec_buffer(a, b, keys, gcap),
        a.rows@,
        b.rows@,
        keys,
        key_idxs(a, keys),
        ca,
        cb,
        ccap,
    )
}

/// What the report owes for the schema-a column at position `c`.
pub open spec fn col_stat_ok(
    st: ColumnStat,
    a: Dataset,
    b: Dataset,
    keys: Seq<String>,
    gcap: nat,
    ccap: nat,
    c: int,
) -> bool {
    let col = a.schema@[c];
    let cb = find_col(b.schema@, col.name@);
    let m = matched_of(a, b, keys);
    &&& st.column_name@ == col.name@
    &&& st.is_key == is_key_name(keys, col.name@)
    &&& st.source_type == col.dtype
    &&& (cb == -1 ==> {
        &&& st.target_type is None
        &&& !st.all_match
        &&& st.total_count == 0 && st.match_count == 0 && st.non_match_count == 0
        &&& st.max_abs_numeric_delta is None
        &&& st.null_count_delta is None
        &&& st.samples@.len() == 0
    })
    &&& (cb >= 0 ==> {
        &&& st.target_type == Some(b.schema@[cb].dtype)
        &&& st.total_count == m
        &&& (st.is_key ==> st.match_count == m && st.non_match_count == 0 && st.all_match
            && st.max_abs_numeric_delta is None && st.null_count_delta is None && st.samples@.len()
            == 0)
        &&& (!st.is_key ==> {
            let d = col_diff_of(a, b, keys, c as usize, cb as usize);
            &&& st.non_match_count == d
            &&& st.match_count + d == m
            &&& st.all_match == (d == 0)
            &&& st.max_abs_numeric_delta == (if col.dtype.spec_is_numeric()
                && b.schema@[cb].dtype.spec_is_numeric() {
                Some(max_delta_of(a, b, keys, c as usize, cb as usize) as u64)
            } else {
                Option::<u64>::None
            })
            &&& st.null_count_delta == Some(
                (nulls_b_of(a, b, keys, cb as usize) - nulls_a_of(a, b, keys, c as usize)) as i128,
            )
            &&& (d > 0 ==> samples_ok(
                st.samples@,
                col_samples_of(a, b, keys, c as usize, cb as usize, gcap, ccap),
            ))
            &&& (d == 0 ==> st.samples@.len() == 0)
        })
    })
}

/// Everything the report owes: row counts, their saturating balance, and
/// one `col_stat_ok` per schema-a column, in schema-a order.
pub open spec fn report_ok(
    rep: DiffReport,
    a: Dataset,
    b: Dataset,
    keys: Seq<String>,
    gcap: nat,
    ccap: nat,
) -> bool {
    let m = matched_of(a, b, keys);
    let md = modified_of(a, b, keys);
    &&& rep.total_rows_a == a.rows@.len()
    &&& rep.total_rows_b == b.rows@.len()
    &&& rep.matched_count == m
    &&& rep.removed_count == (if m <= a.rows@.len() {
        a.rows@.len() - m
    } else {
        0int
    })
    &&& rep.added_count == (if m <= b.rows@.len() {
        b.rows@.len() - m
    } else {
        0int
    })
    &&& rep.modified_rows_count == md
    &&& rep.identical_rows_count + md == m
    &&& rep.column_stats@.len() == a.schema@.len()
    &&& forall|c: int|
        0 <= c < a.schema@.len() ==> col_stat_ok(
            #[trigger] rep.column_stats@[c],
            a,
            b,
            keys,
            gcap,
            ccap,
            c,
        )
}

/// The full contract of one diff run: when each error is returned, and
/// what the report and warnings hold on success.
pub open spec fn diff_post(
    r: Result<DiffOutcome, DiffError>,
    a: Dataset,
    b: Dataset,
    keys: Seq<String>,
    threshold: usize,
    gcap: nat,
    ccap: nat,
) -> bool {
    let ok_a = keys_ok(a, keys);
    let ok_b = keys_ok(b, keys);
    match r {
        Result::Err(e) => match e {
            DiffError::MissingKeyColumn { column, on_right } => {
                &&& !(ok_a && ok_b)
                &&& if !ok_a {
                    !on_right && column@ == keys[first_missing(a, keys, 0)]@
                } else {
                    on_right && column@ == keys[first_missing(b, keys, 0)]@
                }
            },
            DiffError::JoinExplosion { duplicates_a, duplicates_b } => {
                &&& ok_a && ok_b
                &&& duplicates_a == dups_of(a, keys)
                &&& duplicates_b == dups_of(b, keys)
                &&& duplicates_a > threshold && duplicates_b > threshold
            },
        },
        Result::Ok(out) => {
            &&& ok_a && ok_b
            &&& !(dups_of(a, keys) > threshold && dups_of(b, keys) > threshold)
            &&& report_ok(out.report, a, b, keys, gcap, ccap)
            &&& out.warnings@ == warn_seq(a, b, keys)
        },
    }
}

} // verus!
