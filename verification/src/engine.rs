use vstd::prelude::*;

use crate::value::Value;
use crate::guard::count_distinct;
use crate::report::ColumnStat;
use crate::report::DiffConfig;
use crate::report::DiffError;
use crate::report::DiffOutcome;
use crate::report::DiffReport;
use crate::report::DupKeyWarning;
use crate::report::build_compared;
use crate::report::cc_from;
use crate::report::col_stat_ok;
use crate::report::diff_post;
use crate::report::resolve_keys;
use crate::report::spec_buffer;
use crate::report::unique_of;
use crate::report::warn_seq;
use crate::samples::collect_modified_pairs;
use crate::samples::select_samples;
use crate::schema::Dataset;
use crate::schema::find_column;
use crate::schema::name_is_key;
use crate::stats::compute_stats;
use crate::stats::lemma_pair_sum_mono;
use crate::stats::w_col_diff;
use crate::stats::w_modified;
use crate::stats::w_one;

verus! {

/// Compares the two datasets on the given key columns and assembles the
/// difference report, with the explosion guard and the sample caps of
/// `cfg`. Fails fast: a missing key column or a tripped guard returns an
/// error and no partial report.
#[verifier::loop_isolation(false)]
#[verifier::rlimit(100)]
pub fn diff_with_config(a: &Dataset, b: &Dataset, key_cols: &Vec<String>, cfg: &DiffConfig) -> (r:
    Result<DiffOutcome, DiffError>)
    requires
        a.wf(),
        b.wf(),
        key_cols@.len() >= 1,
        a.rows@.len() * b.rows@.len() <= usize::MAX,
    ensures
        diff_post(
            r,
            *a,
            *b,
            key_cols@,
            cfg.explosion_threshold,
            cfg.global_sample_cap as nat,
            cfg.per_column_sample_cap as nat,
        ),
{
    let ghost keys = key_cols@;
    let ka = match resolve_keys(a, key_cols) {
        Ok(v) => v,
        Err(t) => {
            return Err(DiffError::MissingKeyColumn { column: key_cols[t].clone(), on_right: false });
        },
    };
    let kb = match resolve_keys(b, key_cols) {
        Ok(v) => v,
        Err(t) => {
            return Err(DiffError::MissingKeyColumn { column: key_cols[t].clone(), on_right: true });
        },
    };
    let total_a = a.rows.len();
    let total_b = b.rows.len();

    let unique_a = count_distinct(&a.rows, ka[0]);
    let unique_b = count_distinct(&b.rows, kb[0]);
    proof {
        assert(unique_a == unique_of(*a, keys));
        assert(unique_b == unique_of(*b, keys));
    }
    let dups_a = total_a - unique_a;
    let dups_b = total_b - unique_b;

    let mut warnings: Vec<DupKeyWarning> = Vec::new();
    if unique_a < total_a {
        warnings.push(
            DupKeyWarning { on_right: false, unique_keys: unique_a, total_rows: total_a },
        );
    }
    if unique_b < total_b {
        warnings.push(DupKeyWarning { on_right: true, unique_keys: unique_b, total_rows: total_b });
    }
    proof {
        assert(warnings@ =~= warn_seq(*a, *b, keys));
    }

    if dups_a > cfg.explosion_threshold && dups_b > cfg.explosion_threshold {
        return Err(DiffError::JoinExplosion { duplicates_a: dups_a, duplicates_b: dups_b });
    }

    let cols = build_compared(a, b, key_cols);
    let agg = compute_stats(a, b, &ka, &kb, &cols);
    let matched = agg.matched;
    proof {
        assert(forall|x: Vec<Value>, y: Vec<Value>| #[trigger]
            w_modified(cols@)(x, y) <= w_one()(x, y));
        lemma_pair_sum_mono(a.rows@, b.rows@, ka@, kb@, w_modified(cols@), w_one(), 0);
    }
    let identical = matched - agg.modified;
    let removed = if matched <= total_a {
        total_a - matched
    } else {
        0
    };
    let added = if matched <= total_b {
        total_b - matched
    } else {
        0
    };

    let buf = collect_modified_pairs(a, b, &ka, &kb, &cols, cfg.global_sample_cap);
    proof {
        assert(buf@ == spec_buffer(*a, *b, keys, cfg.global_sample_cap as nat));
    }

    let ghost gcap = cfg.global_sample_cap as nat;
    let ghost ccap = cfg.per_column_sample_cap as nat;
    let mut stats: Vec<ColumnStat> = Vec::new();
    let mut tix: usize = 0;
    let mut c: usize = 0;
    while c < a.schema.len()
        invariant
            0 <= c <= a.schema@.len(),
            stats@.len() == c,
            tix <= cols@.len(),
            cc_from(*a, *b, keys, c as int) =~= cols@.skip(tix as int),
            forall|q: int|
                0 <= q < c ==> col_stat_ok(#[trigger] stats@[q], *a, *b, keys, gcap, ccap, q),
        decreases a.schema@.len() - c,
    {
        let col = &a.schema[c];
        let name = col.name.clone();
        let is_key = name_is_key(key_cols, &col.name);
        match find_column(&b.schema, &col.name) {
            None => {
                stats.push(
                    ColumnStat {
                        column_name: name,
                        is_key,
                        source_type: col.dtype,
                        target_type: None,
                        total_count: 0,
                        match_count: 0,
                        non_match_count: 0,
                        all_match: false,
                        max_abs_numeric_delta: None,
                        null_count_delta: None,
                        samples: Vec::new(),
                    },
                );
                proof {
                    assert(cc_from(*a, *b, keys, c + 1) =~= cols@.skip(tix as int));
                }
            },
            Some(cbi) => {
                if is_key {
                    stats.push(
                        ColumnStat {
                            column_name: name,
                            is_key,
                            source_type: col.dtype,
                            target_type: Some(b.schema[cbi].dtype),
                            total_count: matched,
                            match_count: matched,
                            non_match_count: 0,
                            all_match: true,
                            max_abs_numeric_delta: None,
                            null_count_delta: None,
                            samples: Vec::new(),
                        },
                    );
                    proof {
                        assert(cc_from(*a, *b, keys, c + 1) =~= cols@.skip(tix as int));
                    }
                } else {
                    proof {
                        assert(cc_from(*a, *b, keys, c as int).len() >= 1);
                        assert(cols@.skip(tix as int)[0] == cols@[tix as int]);
                    }
                    let cc = cols[tix];
                    let cagg = agg.cols[tix];
                    proof {
                        assert(cc == cc_from(*a, *b, keys, c as int)[0]);
                        assert(cc_from(*a, *b, keys, c as int) =~= seq![cc] + cc_from(
                            *a,
                            *b,
                            keys,
                            c + 1,
                        ));
                        assert(cc.ca == c && cc.cb == cbi);
                        assert(forall|x: Vec<Value>, y: Vec<Value>| #[trigger]
                            w_col_diff(cc.ca, cc.cb)(x, y) <= w_one()(x, y));
                        lemma_pair_sum_mono(
                            a.rows@,
                            b.rows@,
                            ka@,
                            kb@,
                            w_col_diff(cc.ca, cc.cb),
                            w_one(),
                            0,
                        );
                    }
                    let match_count = matched - cagg.diff_count;
                    let max_delta = if cc.numeric {
                        Some(cagg.max_delta)
                    } else {
                        None
                    };
                    let null_delta = Some((cagg.nulls_b as i128) - (cagg.nulls_a as i128));
                    let col_samples = if cagg.diff_count > 0 {
                        select_samples(
                            a,
                            b,
                            key_cols,
                            &ka,
                            &buf,
                            cc.ca,
                            cc.cb,
                            cfg.per_column_sample_cap,
                        )
                    } else {
                        Vec::new()
                    };
                    stats.push(
                        ColumnStat {
                            column_name: name,
                            is_key,
                            source_type: col.dtype,
                            target_type: Some(b.schema[cbi].dtype),
                            total_count: matched,
                            match_count,
                            non_match_count: cagg.diff_count,
                            all_match: cagg.diff_count == 0,
                            max_abs_numeric_delta: max_delta,
                            null_count_delta: null_delta,
                            samples: col_samples,
                        },
                    );
                    tix += 1;
                    proof {
                        let crest = cc_from(*a, *b, keys, c + 1);
                        assert(crest.len() == cols@.skip(tix as int).len());
                        assert forall|k: int| 0 <= k < crest.len() implies crest[k] == cols@.skip(
                            tix as int,
                        )[k] by {
                            assert(crest[k] == (seq![cc] + crest)[k + 1]);
                            assert(cols@.skip(tix - 1)[k + 1] == cols@[tix + k]);
                            assert(cols@.skip(tix as int)[k] == cols@[tix + k]);
                        }
                        assert(cc_from(*a, *b, keys, c + 1) =~= cols@.skip(tix as int));
                    }
                }
            },
        }
        proof {
            assert(col_stat_ok(stats@[c as int], *a, *b, keys, gcap, ccap, c as int));
        }
        c += 1;
    }

    let report = DiffReport {
        total_rows_a: total_a,
        total_rows_b: total_b,
        matched_count: matched,
        added_count: added,
        removed_count: removed,
        identical_rows_count: identical,
        modified_rows_count: agg.modified,
        column_stats: stats,
    };
    Ok(DiffOutcome { report, warnings })
}

/// Compares the two datasets on the given key columns with the default
/// limits: explosion threshold 1000, 100 buffered sample rows, 5 samples
/// per column.
pub fn diff(a: &Dataset, b: &Dataset, key_cols: &Vec<String>) -> (r: Result<
    DiffOutcome,
    DiffError,
>)
    requires
        a.wf(),
        b.wf(),
        key_cols@.len() >= 1,
        a.rows@.len() * b.rows@.len() <= usize::MAX,
    ensures
        diff_post(r, *a, *b, key_cols@, 1000, 100, 5),
{
    let cfg = DiffConfig::default();
    diff_with_config(a, b, key_cols, &cfg)
}

} // verus!
