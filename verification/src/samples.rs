use vstd::prelude::*;

use crate::value::Value;
use crate::value::value_eq;
use crate::render::change_chars;
use crate::render::key_desc_chars;
use crate::render::change_str;
use crate::render::key_desc;
use crate::schema::Dataset;
use crate::stats::CmpCol;
use crate::stats::cell_differs;
use crate::stats::keys_match;
use crate::stats::row_modified;
use crate::stats::rows_keys_match;

verus! {

/// One mismatch sample: the key values of the row and the value change.
#[derive(PartialEq, Debug)]
pub struct Sample {
    pub key_desc: String,
    pub change: String,
}

/// The key-matching, modified pairs (i, b-rows from j on), at most `cap`
/// of them, in join order.
pub open spec fn sb_row(
    a: Seq<Vec<Value>>,
    b: Seq<Vec<Value>>,
    ka: Seq<usize>,
    kb: Seq<usize>,
    cols: Seq<CmpCol>,
    i: usize,
    j: int,
    cap: nat,
) -> Seq<(usize, usize)>
    decreases b.len() - j,
{
    if cap == 0 || j < 0 || j >= b.len() {
        Seq::empty()
    } else if keys_match(a[i as int], b[j], ka, kb) && row_modified(a[i as int], b[j], cols) {
        seq![(i, j as usize)] + sb_row(a, b, ka, kb, cols, i, j + 1, (cap - 1) as nat)
    } else {
        sb_row(a, b, ka, kb, cols, i, j + 1, cap)
    }
}

/// The first `cap` modified joined row pairs, scanning rows of `a` from
/// `i` on: the shared sample buffer of one diff run.
pub open spec fn sb(
    a: Seq<Vec<Value>>,
    b: Seq<Vec<Value>>,
    ka: Seq<usize>,
    kb: Seq<usize>,
    cols: Seq<CmpCol>,
    i: int,
    cap: nat,
) -> Seq<(usize, usize)>
    decreases a.len() - i,
{
    if i < 0 || i >= a.len() {
        Seq::empty()
    } else {
        let r = sb_row(a, b, ka, kb, cols, i as usize, 0, cap);
        r + sb(a, b, ka, kb, cols, i + 1, (cap - r.len()) as nat)
    }
}

pub proof fn lemma_sb_row_len(
    a: Seq<Vec<Value>>,
    b: Seq<Vec<Value>>,
    ka: Seq<usize>,
    kb: Seq<usize>,
    cols: Seq<CmpCol>,
    i: usize,
    j: int,
    cap: nat,
)
    ensures
        sb_row(a, b, ka, kb, cols, i, j, cap).len() <= cap,
    decreases b.len() - j,
{
    if !(cap == 0 || j < 0 || j >= b.len()) {
        if keys_match(a[i as int], b[j], ka, kb) && row_modified(a[i as int], b[j], cols) {
            lemma_sb_row_len(a, b, ka, kb, cols, i, j + 1, (cap - 1) as nat);
        } else {
            lemma_sb_row_len(a, b, ka, kb, cols, i, j + 1, cap);
        }
    }
}

pub proof fn lemma_sb_len(
    a: Seq<Vec<Value>>,
    b: Seq<Vec<Value>>,
    ka: Seq<usize>,
    kb: Seq<usize>,
    cols: Seq<CmpCol>,
    i: int,
    cap: nat,
)
    ensures
        sb(a, b, ka, kb, cols, i, cap).len() <= cap,
    decreases a.len() - i,
{
    if !(i < 0 || i >= a.len()) {
        let r = sb_row(a, b, ka, kb, cols, i as usize, 0, cap);
        lemma_sb_row_len(a, b, ka, kb, cols, i as usize, 0, cap);
        lemma_sb_len(a, b, ka, kb, cols, i + 1, (cap - r.len()) as nat);
    }
}

pub proof fn lemma_sb_row_range(
    a: Seq<Vec<Value>>,
    b: Seq<Vec<Value>>,
    ka: Seq<usize>,
    kb: Seq<usize>,
    cols: Seq<CmpCol>,
    i: usize,
    j: int,
    cap: nat,
)
    requires
        i < a.len(),
    ensures
        forall|k: int|
            0 <= k < sb_row(a, b, ka, kb, cols, i, j, cap).len() ==> (#[trigger] sb_row(
                a,
                b,
                ka,
                kb,
                cols,
                i,
                j,
                cap,
            )[k]).0 < a.len() && sb_row(a, b, ka, kb, cols, i, j, cap)[k].1 < b.len(),
    decreases b.len() - j,
{
    if !(cap == 0 || j < 0 || j >= b.len()) {
        let r = sb_row(a, b, ka, kb, cols, i, j, cap);
        if keys_match(a[i as int], b[j], ka, kb) && row_modified(a[i as int], b[j], cols) {
            lemma_sb_row_range(a, b, ka, kb, cols, i, j + 1, (cap - 1) as nat);
            let rest = sb_row(a, b, ka, kb, cols, i, j + 1, (cap - 1) as nat);
            assert forall|k: int| 0 <= k < r.len() implies (#[trigger] r[k]).0 < a.len() && r[k].1
                < b.len() by {
                if k == 0 {
                    assert(r[k] == (i, j as usize));
                } else {
                    assert(r[k] == rest[k - 1]);
                }
            }
        } else {
            lemma_sb_row_range(a, b, ka, kb, cols, i, j + 1, cap);
            let rest = sb_row(a, b, ka, kb, cols, i, j + 1, cap);
            assert forall|k: int| 0 <= k < r.len() implies (#[trigger] r[k]).0 < a.len() && r[k].1
                < b.len() by {
                assert(r[k] == rest[k]);
            }
        }
    }
}

pub proof fn lemma_sb_range(
    a: Seq<Vec<Value>>,
    b: Seq<Vec<Value>>,
    ka: Seq<usize>,
    kb: Seq<usize>,
    cols: Seq<CmpCol>,
    i: int,
    cap: nat,
)
    ensures
        forall|k: int|
            0 <= k < sb(a, b, ka, kb, cols, i, cap).len() ==> (#[trigger] sb(
                a,
                b,
                ka,
                kb,
                cols,
                i,
                cap,
            )[k]).0 < a.len() && sb(a, b, ka, kb, cols, i, cap)[k].1 < b.len(),
    decreases a.len() - i,
{
    if !(i < 0 || i >= a.len()) {
        let r = sb_row(a, b, ka, kb, cols, i as usize, 0, cap);
        lemma_sb_row_range(a, b, ka, kb, cols, i as usize, 0, cap);
        lemma_sb_row_len(a, b, ka, kb, cols, i as usize, 0, cap);
        lemma_sb_range(a, b, ka, kb, cols, i + 1, (cap - r.len()) as nat);
        let rest = sb(a, b, ka, kb, cols, i + 1, (cap - r.len()) as nat);
        let whole = sb(a, b, ka, kb, cols, i, cap);
        assert forall|k: int| 0 <= k < whole.len() implies (#[trigger] whole[k]).0 < a.len()
            && whole[k].1 < b.len() by {
            if k < r.len() {
                assert(whole[k] == r[k]);
            } else {
                assert(whole[k] == rest[k - r.len()]);
            }
        }
    }
}

pub proof fn lemma_sb_cap0(
    a: Seq<Vec<Value>>,
    b: Seq<Vec<Value>>,
    ka: Seq<usize>,
    kb: Seq<usize>,
    cols: Seq<CmpCol>,
    i: int,
)
    ensures
        sb(a, b, ka, kb, cols, i, 0) =~= Seq::<(usize, usize)>::empty(),
    decreases a.len() - i,
{
    if !(i < 0 || i >= a.len()) {
        lemma_sb_row_len(a, b, ka, kb, cols, i as usize, 0, 0);
        assert(sb_row(a, b, ka, kb, cols, i as usize, 0, 0) =~= Seq::<(usize, usize)>::empty());
        lemma_sb_cap0(a, b, ka, kb, cols, i + 1);
    }
}

/// The row pair disagrees on at least one compared column (executable).
pub fn pair_modified(ra: &Vec<Value>, rb: &Vec<Value>, cols: &Vec<CmpCol>) -> (r: bool)
    requires
        forall|t: int|
            0 <= t < cols@.len() ==> cols@[t].ca < ra@.len() && cols@[t].cb < rb@.len(),
    ensures
        r == row_modified(*ra, *rb, cols@),
{
    let mut t: usize = 0;
    while t < cols.len()
        invariant
            0 <= t <= cols@.len(),
            forall|q: int|
                0 <= q < cols@.len() ==> cols@[q].ca < ra@.len() && cols@[q].cb < rb@.len(),
            forall|q: int| 0 <= q < t ==> !cell_differs(*ra, *rb, cols@[q].ca, cols@[q].cb),
        decreases cols@.len() - t,
    {
        let cc = cols[t];
        if !value_eq(&ra[cc.ca], &rb[cc.cb]) {
            proof {
                assert(cell_differs(*ra, *rb, cols@[t as int].ca, cols@[t as int].cb));
            }
            return true;
        }
        t += 1;
    }
    false
}

/// Materializes at most `cap` modified joined rows, in join order, in a
/// single pass: the shared buffer every column's samples are drawn from.
#[verifier::loop_isolation(false)]
pub fn collect_modified_pairs(
    a: &Dataset,
    b: &Dataset,
    ka: &Vec<usize>,
    kb: &Vec<usize>,
    cols: &Vec<CmpCol>,
    cap: usize,
) -> (buf: Vec<(usize, usize)>)
    requires
        a.wf(),
        b.wf(),
        ka@.len() == kb@.len(),
        forall|t: int| 0 <= t < ka@.len() ==> ka@[t] < a.schema@.len(),
        forall|t: int| 0 <= t < kb@.len() ==> kb@[t] < b.schema@.len(),
        forall|t: int|
            0 <= t < cols@.len() ==> cols@[t].ca < a.schema@.len() && cols@[t].cb
                < b.schema@.len(),
    ensures
        buf@ == sb(a.rows@, b.rows@, ka@, kb@, cols@, 0, cap as nat),
        buf@.len() <= cap,
        forall|k: int|
            0 <= k < buf@.len() ==> (#[trigger] buf@[k]).0 < a.rows@.len() && buf@[k].1
                < b.rows@.len(),
{
    let ghost aseq = a.rows@;
    let ghost bseq = b.rows@;
    let ghost total = sb(a.rows@, b.rows@, ka@, kb@, cols@, 0, cap as nat);
    let mut buf: Vec<(usize, usize)> = Vec::new();
    let mut i: usize = 0;
    while i < a.rows.len() && buf.len() < cap
        invariant
            0 <= i <= aseq.len(),
            buf@.len() <= cap,
            forall|k: int|
                0 <= k < buf@.len() ==> (#[trigger] buf@[k]).0 < aseq.len() && buf@[k].1
                    < bseq.len(),
            total =~= buf@ + sb(aseq, bseq, ka@, kb@, cols@, i as int, (cap - buf@.len()) as nat),
        decreases aseq.len() - i,
    {
        let ra = &a.rows[i];
        let mut j: usize = 0;
        proof {
            assert(sb(aseq, bseq, ka@, kb@, cols@, i as int, (cap - buf@.len()) as nat) == sb_row(
                aseq,
                bseq,
                ka@,
                kb@,
                cols@,
                i,
                0,
                (cap - buf@.len()) as nat,
            ) + sb(
                aseq,
                bseq,
                ka@,
                kb@,
                cols@,
                i + 1,
                ((cap - buf@.len()) - sb_row(
                    aseq,
                    bseq,
                    ka@,
                    kb@,
                    cols@,
                    i,
                    0,
                    (cap - buf@.len()) as nat,
                ).len()) as nat,
            ));
        }
        while j < b.rows.len() && buf.len() < cap
            invariant
                0 <= i < aseq.len(),
                0 <= j <= bseq.len(),
                buf@.len() <= cap,
                forall|k: int|
                    0 <= k < buf@.len() ==> (#[trigger] buf@[k]).0 < aseq.len() && buf@[k].1
                        < bseq.len(),
                total =~= buf@ + sb_row(
                    aseq,
                    bseq,
                    ka@,
                    kb@,
                    cols@,
                    i,
                    j as int,
                    (cap - buf@.len()) as nat,
                ) + sb(
                    aseq,
                    bseq,
                    ka@,
                    kb@,
                    cols@,
                    i + 1,
                    ((cap - buf@.len()) - sb_row(
                        aseq,
                        bseq,
                        ka@,
                        kb@,
                        cols@,
                        i,
                        j as int,
                        (cap - buf@.len()) as nat,
                    ).len()) as nat,
                ),
            decreases bseq.len() - j,
        {
            proof {
                lemma_sb_row_len(aseq, bseq, ka@, kb@, cols@, i, j as int, (cap - buf@.len()) as nat);
            }
            let rb = &b.rows[j];
            if rows_keys_match(ra, rb, ka, kb) {
                if pair_modified(ra, rb, cols) {
                    buf.push((i, j));
                }
            }
            j += 1;
        }
        proof {
            if buf@.len() < cap {
                assert(sb_row(aseq, bseq, ka@, kb@, cols@, i, j as int, (cap - buf@.len()) as nat)
                    =~= Seq::<(usize, usize)>::empty());
            } else {
                assert(sb_row(aseq, bseq, ka@, kb@, cols@, i, j as int, 0) =~= Seq::<
                    (usize, usize),
                >::empty());
            }
        }
        i += 1;
    }
    proof {
        if buf@.len() == cap {
            lemma_sb_cap0(aseq, bseq, ka@, kb@, cols@, i as int);
        }
        assert(buf@ =~= total);
    }
    buf
}

/// The first `cap` buffer entries whose (ca, cb) cells differ: the rows
/// sampled for one column.
pub open spec fn sel(
    bufp: Seq<(usize, usize)>,
    a: Seq<Vec<Value>>,
    b: Seq<Vec<Value>>,
    ca: usize,
    cb: usize,
    from: int,
    cap: nat,
) -> Seq<(usize, usize)>
    decreases bufp.len() - from,
{
    if cap == 0 || from < 0 || from >= bufp.len() {
        Seq::empty()
    } else if cell_differs(a[bufp[from].0 as int], b[bufp[from].1 as int], ca, cb) {
        seq![bufp[from]] + sel(bufp, a, b, ca, cb, from + 1, (cap - 1) as nat)
    } else {
        sel(bufp, a, b, ca, cb, from + 1, cap)
    }
}

/// The formatted mismatch samples of one column: key description and
/// `before -> after` change, for each selected buffer row.
pub open spec fn col_samples(
    bufp: Seq<(usize, usize)>,
    a: Seq<Vec<Value>>,
    b: Seq<Vec<Value>>,
    keys: Seq<String>,
    ka: Seq<usize>,
    ca: usize,
    cb: usize,
    cap: nat,
) -> Seq<(Seq<char>, Seq<char>)> {
    let picked = sel(bufp, a, b, ca, cb, 0, cap);
    Seq::new(
        picked.len(),
        |k: int|
            (
                key_desc_chars(a[picked[k].0 as int], keys, ka, 0),
                change_chars(a[picked[k].0 as int]@[ca as int], b[picked[k].1 as int]@[cb as int]),
            ),
    )
}

/// Scans the shared buffer and formats at most `cap` samples for the
/// column pair (ca, cb).
#[verifier::loop_isolation(false)]
pub(crate) fn select_samples(
    a: &Dataset,
    b: &Dataset,
    keys: &Vec<String>,
    ka: &Vec<usize>,
    buf: &Vec<(usize, usize)>,
    ca: usize,
    cb: usize,
    cap: usize,
) -> (out: Vec<Sample>)
    requires
        a.wf(),
        b.wf(),
        ka@.len() == keys@.len(),
        forall|t: int| 0 <= t < ka@.len() ==> ka@[t] < a.schema@.len(),
        ca < a.schema@.len(),
        cb < b.schema@.len(),
        forall|k: int|
            0 <= k < buf@.len() ==> (#[trigger] buf@[k]).0 < a.rows@.len() && buf@[k].1
                < b.rows@.len(),
    ensures
        ({
            let expected = col_samples(buf@, a.rows@, b.rows@, keys@, ka@, ca, cb, cap as nat);
            &&& out@.len() == expected.len()
            &&& out@.len() <= cap
            &&& forall|k: int|
                0 <= k < out@.len() ==> (#[trigger] out@[k]).key_desc@ == expected[k].0
                    && out@[k].change@ == expected[k].1
        }),
{
    let ghost aseq = a.rows@;
    let ghost bseq = b.rows@;
    let ghost full = sel(buf@, aseq, bseq, ca, cb, 0, cap as nat);
    let ghost expected = col_samples(buf@, aseq, bseq, keys@, ka@, ca, cb, cap as nat);
    let mut out: Vec<Sample> = Vec::new();
    let ghost mut picked: Seq<(usize, usize)> = Seq::empty();
    let mut from: usize = 0;
    proof {
        assert(picked + sel(buf@, aseq, bseq, ca, cb, 0, (cap - picked.len()) as nat) =~= full);
    }
    while from < buf.len() && out.len() < cap
        invariant
            0 <= from <= buf@.len(),
            out@.len() == picked.len(),
            out@.len() <= cap,
            full =~= picked + sel(buf@, aseq, bseq, ca, cb, from as int, (cap - picked.len()) as nat),
            forall|k: int|
                0 <= k < picked.len() ==> (#[trigger] picked[k]).0 < aseq.len() && picked[k].1
                    < bseq.len(),
            forall|k: int|
                0 <= k < out@.len() ==> (#[trigger] out@[k]).key_desc@ == key_desc_chars(
                    aseq[picked[k].0 as int],
                    keys@,
                    ka@,
                    0,
                ) && out@[k].change@ == change_chars(
                    aseq[picked[k].0 as int]@[ca as int],
                    bseq[picked[k].1 as int]@[cb as int],
                ),
        decreases buf@.len() - from,
    {
        let p = buf[from];
        let va = &a.rows[p.0][ca];
        let vb = &b.rows[p.1][cb];
        if !value_eq(va, vb) {
            let kd = key_desc(&a.rows[p.0], keys, ka);
            let ch = change_str(va, vb);
            out.push(Sample { key_desc: kd, change: ch });
            proof {
                picked = picked.push(buf@[from as int]);
            }
        }
        from += 1;
    }
    proof {
        if out@.len() < cap {
            assert(sel(buf@, aseq, bseq, ca, cb, from as int, (cap - picked.len()) as nat) =~= Seq::<
                (usize, usize),
            >::empty());
        } else {
            assert(sel(buf@, aseq, bseq, ca, cb, from as int, 0) =~= Seq::<(usize, usize)>::empty());
        }
        assert(picked =~= full);
        assert(out@.len() == expected.len());
    }
    out
}

} // verus!
