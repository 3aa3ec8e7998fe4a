use vstd::prelude::*;

use crate::value::Value;
use crate::value::int_delta;
use crate::value::val_eq;
use crate::value::value_delta;
use crate::value::value_eq;
use crate::value::value_is_null;
use crate::schema::Dataset;

verus! {

/// A non-key column present in both schemas, resolved to its position
/// on each side, with the both-sides-numeric flag that gates the
/// magnitude-drift statistic.
#[derive(Clone, Copy, PartialEq, Eq, Structural, Debug)]
pub struct CmpCol {
    pub ca: usize,
    pub cb: usize,
    pub numeric: bool,
}

/// Weight of one joined row pair, the quantity a statistic accumulates.
pub type PairWeight = spec_fn(Vec<Value>, Vec<Value>) -> nat;

/// Two rows agree on the compound join key (null-aware, column by column).
pub open spec fn keys_match(ra: Vec<Value>, rb: Vec<Value>, ka: Seq<usize>, kb: Seq<usize>) -> bool {
    forall|t: int| 0 <= t < ka.len() ==> val_eq(ra@[ka[t] as int], rb@[kb[t] as int])
}

/// The two rows disagree (null-aware) on the column pair (ca, cb).
pub open spec fn cell_differs(ra: Vec<Value>, rb: Vec<Value>, ca: usize, cb: usize) -> bool {
    !val_eq(ra@[ca as int], rb@[cb as int])
}

/// The row pair disagrees on at least one compared column.
pub open spec fn row_modified(ra: Vec<Value>, rb: Vec<Value>, cols: Seq<CmpCol>) -> bool {
    exists|t: int| 0 <= t < cols.len() && cell_differs(ra, rb, cols[t].ca, cols[t].cb)
}

pub open spec fn w_one() -> PairWeight {
    |ra: Vec<Value>, rb: Vec<Value>| 1nat
}

pub open spec fn w_col_diff(ca: usize, cb: usize) -> PairWeight {
    |ra: Vec<Value>, rb: Vec<Value>| if cell_differs(ra, rb, ca, cb) {
        1nat
    } else {
        0nat
    }
}

pub open spec fn w_null_a(ca: usize) -> PairWeight {
    |ra: Vec<Value>, rb: Vec<Value>| if ra@[ca as int] is Null {
        1nat
    } else {
        0nat
    }
}

pub open spec fn w_null_b(cb: usize) -> PairWeight {
    |ra: Vec<Value>, rb: Vec<Value>| if rb@[cb as int] is Null {
        1nat
    } else {
        0nat
    }
}

pub open spec fn w_modified(cols: Seq<CmpCol>) -> PairWeight {
    |ra: Vec<Value>, rb: Vec<Value>| if row_modified(ra, rb, cols) {
        1nat
    } else {
        0nat
    }
}

pub open spec fn w_delta(ca: usize, cb: usize) -> PairWeight {
    |ra: Vec<Value>, rb: Vec<Value>| int_delta(ra@[ca as int], rb@[cb as int])
}

pub open spec fn nmax(a: nat, b: nat) -> nat {
    if a >= b {
        a
    } else {
        b
    }
}

/// Sum of `f` over the pairs (ra, b[j]) with matching keys, j >= from.
pub open spec fn pair_sum_row(
    ra: Vec<Value>,
    b: Seq<Vec<Value>>,
    ka: Seq<usize>,
    kb: Seq<usize>,
    f: PairWeight,
    from: int,
) -> nat
    decreases b.len() - from,
{
    if from < 0 || from >= b.len() {
        0
    } else {
        (if keys_match(ra, b[from], ka, kb) {
            f(ra, b[from])
        } else {
            0
        }) + pair_sum_row(ra, b, ka, kb, f, from + 1)
    }
}

/// Sum of `f` over all key-matching pairs (a[i], b[j]) with i >= from:
/// the aggregate of `f` over the inner join of `a` and `b`.
pub open spec fn pair_sum(
    a: Seq<Vec<Value>>,
    b: Seq<Vec<Value>>,
    ka: Seq<usize>,
    kb: Seq<usize>,
    f: PairWeight,
    from: int,
) -> nat
    decreases a.len() - from,
{
    if from < 0 || from >= a.len() {
        0
    } else {
        pair_sum_row(a[from], b, ka, kb, f, 0) + pair_sum(a, b, ka, kb, f, from + 1)
    }
}

/// Maximum of `f` over the pairs (ra, b[j]) with matching keys, j >= from;
/// zero when no pair matches.
pub open spec fn pair_max_row(
    ra: Vec<Value>,
    b: Seq<Vec<Value>>,
    ka: Seq<usize>,
    kb: Seq<usize>,
    f: PairWeight,
    from: int,
) -> nat
    decreases b.len() - from,
{
    if from < 0 || from >= b.len() {
        0
    } else {
        nmax(
            if keys_match(ra, b[from], ka, kb) {
                f(ra, b[from])
            } else {
                0
            },
            pair_max_row(ra, b, ka, kb, f, from + 1),
        )
    }
}

/// Maximum of `f` over all key-matching pairs; zero when none match.
pub open spec fn pair_max(
    a: Seq<Vec<Value>>,
    b: Seq<Vec<Value>>,
    ka: Seq<usize>,
    kb: Seq<usize>,
    f: PairWeight,
    from: int,
) -> nat
    decreases a.len() - from,
{
    if from < 0 || from >= a.len() {
        0
    } else {
        nmax(pair_max_row(a[from], b, ka, kb, f, 0), pair_max(a, b, ka, kb, f, from + 1))
    }
}

pub proof fn lemma_pair_sum_row_bound(
    ra: Vec<Value>,
    b: Seq<Vec<Value>>,
    ka: Seq<usize>,
    kb: Seq<usize>,
    f: PairWeight,
    from: int,
)
    requires
        forall|x: Vec<Value>, y: Vec<Value>| #[trigger] f(x, y) <= 1,
        0 <= from <= b.len(),
    ensures
        pair_sum_row(ra, b, ka, kb, f, from) <= b.len() - from,
    decreases b.len() - from,
{
    if from < b.len() {
        lemma_pair_sum_row_bound(ra, b, ka, kb, f, from + 1);
    }
}

pub proof fn lemma_pair_sum_bound(
    a: Seq<Vec<Value>>,
    b: Seq<Vec<Value>>,
    ka: Seq<usize>,
    kb: Seq<usize>,
    f: PairWeight,
    from: int,
)
    requires
        forall|x: Vec<Value>, y: Vec<Value>| #[trigger] f(x, y) <= 1,
        0 <= from <= a.len(),
    ensures
        pair_sum(a, b, ka, kb, f, from) <= (a.len() - from) * b.len(),
    decreases a.len() - from,
{
    if from < a.len() {
        lemma_pair_sum_row_bound(a[from], b, ka, kb, f, 0);
        lemma_pair_sum_bound(a, b, ka, kb, f, from + 1);
        assert((a.len() - from) * b.len() == b.len() + (a.len() - from - 1) * b.len())
            by (nonlinear_arith);
    }
}

/// A pointwise smaller weight sums to a smaller aggregate.
pub proof fn lemma_pair_sum_row_mono(
    ra: Vec<Value>,
    b: Seq<Vec<Value>>,
    ka: Seq<usize>,
    kb: Seq<usize>,
    f: PairWeight,
    g: PairWeight,
    from: int,
)
    requires
        forall|x: Vec<Value>, y: Vec<Value>| #[trigger] f(x, y) <= #[trigger] g(x, y),
    ensures
        pair_sum_row(ra, b, ka, kb, f, from) <= pair_sum_row(ra, b, ka, kb, g, from),
    decreases b.len() - from,
{
    if 0 <= from < b.len() {
        lemma_pair_sum_row_mono(ra, b, ka, kb, f, g, from + 1);
    }
}

pub proof fn lemma_pair_sum_mono(
    a: Seq<Vec<Value>>,
    b: Seq<Vec<Value>>,
    ka: Seq<usize>,
    kb: Seq<usize>,
    f: PairWeight,
    g: PairWeight,
    from: int,
)
    requires
        forall|x: Vec<Value>, y: Vec<Value>| #[trigger] f(x, y) <= #[trigger] g(x, y),
    ensures
        pair_sum(a, b, ka, kb, f, from) <= pair_sum(a, b, ka, kb, g, from),
    decreases a.len() - from,
{
    if 0 <= from < a.len() {
        lemma_pair_sum_row_mono(a[from], b, ka, kb, f, g, 0);
        lemma_pair_sum_mono(a, b, ka, kb, f, g, from + 1);
    }
}

/// Executable compound-key comparison, mirroring `keys_match`.
pub fn rows_keys_match(ra: &Vec<Value>, rb: &Vec<Value>, ka: &Vec<usize>, kb: &Vec<usize>) -> (r:
    bool)
    requires
        ka@.len() == kb@.len(),
        forall|t: int| 0 <= t < ka@.len() ==> ka@[t] < ra@.len(),
        forall|t: int| 0 <= t < kb@.len() ==> kb@[t] < rb@.len(),
    ensures
        r == keys_match(*ra, *rb, ka@, kb@),
{
    let mut t: usize = 0;
    while t < ka.len()
        invariant
            0 <= t <= ka@.len(),
            ka@.len() == kb@.len(),
            forall|q: int| 0 <= q < ka@.len() ==> ka@[q] < ra@.len(),
            forall|q: int| 0 <= q < kb@.len() ==> kb@[q] < rb@.len(),
            forall|q: int| 0 <= q < t ==> val_eq(ra@[ka@[q] as int], rb@[kb@[q] as int]),
        decreases ka@.len() - t,
    {
        if !value_eq(&ra[ka[t]], &rb[kb[t]]) {
            proof {
                assert(!val_eq(ra@[ka@[t as int] as int], rb@[kb@[t as int] as int]));
            }
            return false;
        }
        t += 1;
    }
    true
}

/// Accumulators for one compared column.
#[derive(Clone, Copy, PartialEq, Eq, Structural, Debug)]
pub struct ColAgg {
    pub diff_count: usize,
    pub nulls_a: usize,
    pub nulls_b: usize,
    pub max_delta: u64,
}

/// All aggregates of one statistics pass over the joined rowset.
pub struct AggOutput {
    pub matched: usize,
    pub modified: usize,
    pub cols: Vec<ColAgg>,
}

/// Folds one key-matching row pair into every per-column accumulator.
#[verifier::loop_isolation(false)]
fn accumulate_pair(accs: &mut Vec<ColAgg>, ra: &Vec<Value>, rb: &Vec<Value>, cols: &Vec<CmpCol>) -> (any_diff:
    bool)
    requires
        old(accs)@.len() == cols@.len(),
        forall|t: int|
            0 <= t < cols@.len() ==> cols@[t].ca < ra@.len() && cols@[t].cb < rb@.len(),
        forall|t: int|
            #![trigger cols@[t]]
            0 <= t < cols@.len() ==> {
                &&& (cell_differs(*ra, *rb, cols@[t].ca, cols@[t].cb) ==> old(accs)@[t].diff_count
                    < usize::MAX)
                &&& (ra@[cols@[t].ca as int] is Null ==> old(accs)@[t].nulls_a < usize::MAX)
                &&& (rb@[cols@[t].cb as int] is Null ==> old(accs)@[t].nulls_b < usize::MAX)
            },
    ensures
        final(accs)@.len() == cols@.len(),
        any_diff == row_modified(*ra, *rb, cols@),
        forall|t: int|
            #![trigger cols@[t]]
            0 <= t < cols@.len() ==> {
                let c0 = old(accs)@[t];
                let c1 = final(accs)@[t];
                &&& c1.diff_count == c0.diff_count + (if cell_differs(
                    *ra,
                    *rb,
                    cols@[t].ca,
                    cols@[t].cb,
                ) {
                    1int
                } else {
                    0int
                })
                &&& c1.nulls_a == c0.nulls_a + (if ra@[cols@[t].ca as int] is Null {
                    1int
                } else {
                    0int
                })
                &&& c1.nulls_b == c0.nulls_b + (if rb@[cols@[t].cb as int] is Null {
                    1int
                } else {
                    0int
                })
                &&& c1.max_delta == nmax(
                    c0.max_delta as nat,
                    int_delta(ra@[cols@[t].ca as int], rb@[cols@[t].cb as int]),
                )
            },
{
    let mut any_diff = false;
    let mut t: usize = 0;
    while t < cols.len()
        invariant
            accs@.len() == cols@.len(),
            old(accs)@.len() == cols@.len(),
            0 <= t <= cols@.len(),
            forall|q: int|
                0 <= q < cols@.len() ==> cols@[q].ca < ra@.len() && cols@[q].cb < rb@.len(),
            forall|q: int|
                t <= q < cols@.len() ==> accs@[q] == old(accs)@[q],
            forall|q: int|
                #![trigger cols@[q]]
                0 <= q < cols@.len() ==> {
                    &&& (cell_differs(*ra, *rb, cols@[q].ca, cols@[q].cb) ==> old(
                        accs,
                    )@[q].diff_count < usize::MAX)
                    &&& (ra@[cols@[q].ca as int] is Null ==> old(accs)@[q].nulls_a < usize::MAX)
                    &&& (rb@[cols@[q].cb as int] is Null ==> old(accs)@[q].nulls_b < usize::MAX)
                },
            any_diff == exists|q: int|
                0 <= q < t && cell_differs(*ra, *rb, cols@[q].ca, cols@[q].cb),
            forall|q: int|
                #![trigger cols@[q]]
                0 <= q < t ==> {
                    let c0 = old(accs)@[q];
                    let c1 = accs@[q];
                    &&& c1.diff_count == c0.diff_count + (if cell_differs(
                        *ra,
                        *rb,
                        cols@[q].ca,
                        cols@[q].cb,
                    ) {
                        1int
                    } else {
                        0int
                    })
                    &&& c1.nulls_a == c0.nulls_a + (if ra@[cols@[q].ca as int] is Null {
                        1int
                    } else {
                        0int
                    })
                    &&& c1.nulls_b == c0.nulls_b + (if rb@[cols@[q].cb as int] is Null {
                        1int
                    } else {
                        0int
                    })
                    &&& c1.max_delta == nmax(
                        c0.max_delta as nat,
                        int_delta(ra@[cols@[q].ca as int], rb@[cols@[q].cb as int]),
                    )
                },
        decreases cols@.len() - t,
    {
        let cc = cols[t];
        let va = &ra[cc.ca];
        let vb = &rb[cc.cb];
        let mut agg = accs[t];
        if !value_eq(va, vb) {
            agg.diff_count += 1;
            any_diff = true;
        }
        if value_is_null(va) {
            agg.nulls_a += 1;
        }
        if value_is_null(vb) {
            agg.nulls_b += 1;
        }
        let d = value_delta(va, vb);
        if d > agg.max_delta {
            agg.max_delta = d;
        }
        accs.set(t, agg);
        t += 1;
    }
    any_diff
}

/// One aggregation pass over the joined rowset: every per-column
/// reduction, the matched-row count and the modified-row count are
/// computed together, without re-scanning per column.
#[verifier::loop_isolation(false)]
pub fn compute_stats(
    a: &Dataset,
    b: &Dataset,
    ka: &Vec<usize>,
    kb: &Vec<usize>,
    cols: &Vec<CmpCol>,
) -> (r: AggOutput)
    requires
        a.wf(),
        b.wf(),
        ka@.len() == kb@.len(),
        forall|t: int| 0 <= t < ka@.len() ==> ka@[t] < a.schema@.len(),
        forall|t: int| 0 <= t < kb@.len() ==> kb@[t] < b.schema@.len(),
        forall|t: int|
            0 <= t < cols@.len() ==> cols@[t].ca < a.schema@.len() && cols@[t].cb
                < b.schema@.len(),
        a.rows@.len() * b.rows@.len() <= usize::MAX,
    ensures
        r.matched == pair_sum(a.rows@, b.rows@, ka@, kb@, w_one(), 0),
        r.modified == pair_sum(a.rows@, b.rows@, ka@, kb@, w_modified(cols@), 0),
        r.cols@.len() == cols@.len(),
        forall|t: int|
            #![trigger cols@[t]]
            0 <= t < cols@.len() ==> {
                let st = r.cols@[t];
                &&& st.diff_count == pair_sum(
                    a.rows@,
                    b.rows@,
                    ka@,
                    kb@,
                    w_col_diff(cols@[t].ca, cols@[t].cb),
                    0,
                )
                &&& st.nulls_a == pair_sum(a.rows@, b.rows@, ka@, kb@, w_null_a(cols@[t].ca), 0)
                &&& st.nulls_b == pair_sum(a.rows@, b.rows@, ka@, kb@, w_null_b(cols@[t].cb), 0)
                &&& st.max_delta == pair_max(
                    a.rows@,
                    b.rows@,
                    ka@,
                    kb@,
                    w_delta(cols@[t].ca, cols@[t].cb),
                    0,
                )
            },
{
    let ghost aseq = a.rows@;
    let ghost bseq = b.rows@;
    let ghost kas = ka@;
    let ghost kbs = kb@;
    let ghost cs = cols@;
    proof {
        assert(forall|x: Vec<Value>, y: Vec<Value>| #[trigger] w_one()(x, y) <= 1);
        assert(forall|x: Vec<Value>, y: Vec<Value>| #[trigger] w_modified(cs)(x, y) <= 1);
        lemma_pair_sum_bound(aseq, bseq, kas, kbs, w_one(), 0);
        lemma_pair_sum_bound(aseq, bseq, kas, kbs, w_modified(cs), 0);
        assert forall|t: int| 0 <= t < cs.len() implies {
            &&& pair_sum(aseq, bseq, kas, kbs, w_col_diff(cs[t].ca, cs[t].cb), 0) <= usize::MAX
            &&& pair_sum(aseq, bseq, kas, kbs, w_null_a(cs[t].ca), 0) <= usize::MAX
            &&& pair_sum(aseq, bseq, kas, kbs, w_null_b(cs[t].cb), 0) <= usize::MAX
        } by {
            assert(forall|x: Vec<Value>, y: Vec<Value>| #[trigger]
                w_col_diff(cs[t].ca, cs[t].cb)(x, y) <= 1);
            assert(forall|x: Vec<Value>, y: Vec<Value>| #[trigger] w_null_a(cs[t].ca)(x, y) <= 1);
            assert(forall|x: Vec<Value>, y: Vec<Value>| #[trigger] w_null_b(cs[t].cb)(x, y) <= 1);
            lemma_pair_sum_bound(aseq, bseq, kas, kbs, w_col_diff(cs[t].ca, cs[t].cb), 0);
            lemma_pair_sum_bound(aseq, bseq, kas, kbs, w_null_a(cs[t].ca), 0);
            lemma_pair_sum_bound(aseq, bseq, kas, kbs, w_null_b(cs[t].cb), 0);
        }
    }
    let mut accs: Vec<ColAgg> = Vec::new();
    let mut z: usize = 0;
    while z < cols.len()
        invariant
            0 <= z <= cols@.len(),
            accs@.len() == z,
            forall|t: int|
                0 <= t < z ==> accs@[t] == (ColAgg {
                    diff_count: 0usize,
                    nulls_a: 0usize,
                    nulls_b: 0usize,
                    max_delta: 0u64,
                }),
        decreases cols@.len() - z,
    {
        accs.push(ColAgg { diff_count: 0, nulls_a: 0, nulls_b: 0, max_delta: 0 });
        z += 1;
    }
    let mut matched: usize = 0;
    let mut modified: usize = 0;
    let mut i: usize = 0;
    while i < a.rows.len()
        invariant
            0 <= i <= aseq.len(),
            aseq == a.rows@,
            bseq == b.rows@,
            kas == ka@,
            kbs == kb@,
            cs == cols@,
            accs@.len() == cs.len(),
            matched + pair_sum(aseq, bseq, kas, kbs, w_one(), i as int) == pair_sum(
                aseq,
                bseq,
                kas,
                kbs,
                w_one(),
                0,
            ),
            modified + pair_sum(aseq, bseq, kas, kbs, w_modified(cs), i as int) == pair_sum(
                aseq,
                bseq,
                kas,
                kbs,
                w_modified(cs),
                0,
            ),
            forall|t: int|
                #![trigger cs[t]]
                0 <= t < cs.len() ==> {
                    let st = accs@[t];
                    &&& st.diff_count + pair_sum(
                        aseq,
                        bseq,
                        kas,
                        kbs,
                        w_col_diff(cs[t].ca, cs[t].cb),
                        i as int,
                    ) == pair_sum(aseq, bseq, kas, kbs, w_col_diff(cs[t].ca, cs[t].cb), 0)
                    &&& st.nulls_a + pair_sum(aseq, bseq, kas, kbs, w_null_a(cs[t].ca), i as int)
                        == pair_sum(aseq, bseq, kas, kbs, w_null_a(cs[t].ca), 0)
                    &&& st.nulls_b + pair_sum(aseq, bseq, kas, kbs, w_null_b(cs[t].cb), i as int)
                        == pair_sum(aseq, bseq, kas, kbs, w_null_b(cs[t].cb), 0)
                    &&& nmax(
                        st.max_delta as nat,
                        pair_max(aseq, bseq, kas, kbs, w_delta(cs[t].ca, cs[t].cb), i as int),
                    ) == pair_max(aseq, bseq, kas, kbs, w_delta(cs[t].ca, cs[t].cb), 0)
                },
        decreases aseq.len() - i,
    {
        let ra = &a.rows[i];
        let mut j: usize = 0;
        while j < b.rows.len()
            invariant
                0 <= i < aseq.len(),
                0 <= j <= bseq.len(),
                aseq == a.rows@,
                bseq == b.rows@,
                kas == ka@,
                kbs == kb@,
                cs == cols@,
                ra == &a.rows[i as int],
                accs@.len() == cs.len(),
                matched + pair_sum_row(aseq[i as int], bseq, kas, kbs, w_one(), j as int)
                    + pair_sum(aseq, bseq, kas, kbs, w_one(), i + 1) == pair_sum(
                    aseq,
                    bseq,
                    kas,
                    kbs,
                    w_one(),
                    0,
                ),
                modified + pair_sum_row(aseq[i as int], bseq, kas, kbs, w_modified(cs), j as int)
                    + pair_sum(aseq, bseq, kas, kbs, w_modified(cs), i + 1) == pair_sum(
                    aseq,
                    bseq,
                    kas,
                    kbs,
                    w_modified(cs),
                    0,
                ),
                forall|t: int|
                    #![trigger cs[t]]
                    0 <= t < cs.len() ==> {
                        let st = accs@[t];
                        &&& st.diff_count + pair_sum_row(
                            aseq[i as int],
                            bseq,
                            kas,
                            kbs,
                            w_col_diff(cs[t].ca, cs[t].cb),
                            j as int,
                        ) + pair_sum(aseq, bseq, kas, kbs, w_col_diff(cs[t].ca, cs[t].cb), i + 1)
                            == pair_sum(aseq, bseq, kas, kbs, w_col_diff(cs[t].ca, cs[t].cb), 0)
                        &&& st.nulls_a + pair_sum_row(
                            aseq[i as int],
                            bseq,
                            kas,
                            kbs,
                            w_null_a(cs[t].ca),
                            j as int,
                        ) + pair_sum(aseq, bseq, kas, kbs, w_null_a(cs[t].ca), i + 1) == pair_sum(
                            aseq,
                            bseq,
                            kas,
                            kbs,
                            w_null_a(cs[t].ca),
                            0,
                        )
                        &&& st.nulls_b + pair_sum_row(
                            aseq[i as int],
                            bseq,
                            kas,
                            kbs,
                            w_null_b(cs[t].cb),
                            j as int,
                        ) + pair_sum(aseq, bseq, kas, kbs, w_null_b(cs[t].cb), i + 1) == pair_sum(
                            aseq,
                            bseq,
                            kas,
                            kbs,
                            w_null_b(cs[t].cb),
                            0,
                        )
                        &&& nmax(
                            st.max_delta as nat,
                            nmax(
                                pair_max_row(
                                    aseq[i as int],
                                    bseq,
                                    kas,
                                    kbs,
                                    w_delta(cs[t].ca, cs[t].cb),
                                    j as int,
                                ),
                                pair_max(aseq, bseq, kas, kbs, w_delta(cs[t].ca, cs[t].cb), i + 1),
                            ),
                        ) == pair_max(aseq, bseq, kas, kbs, w_delta(cs[t].ca, cs[t].cb), 0)
                    },
            decreases bseq.len() - j,
        {
            let rb = &b.rows[j];
            let is_match = rows_keys_match(ra, rb, ka, kb);
            if is_match {
                let any = accumulate_pair(&mut accs, ra, rb, cols);
                matched += 1;
                if any {
                    modified += 1;
                }
            }
            j += 1;
        }
        i += 1;
    }
    AggOutput { matched, modified, cols: accs }
}

} // verus!
