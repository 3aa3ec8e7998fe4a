use koala_diff::Column;
use koala_diff::DataType;
use koala_diff::Dataset;
use koala_diff::DiffError;
use koala_diff::DiffOutcome;
use koala_diff::DiffConfig;
use koala_diff::Value;
use koala_diff::diff;
use koala_diff::diff_with_config;

fn col(name: &str, dtype: DataType) -> Column {
    Column { name: name.to_string(), dtype }
}

fn ds(schema: Vec<Column>, rows: Vec<Vec<Value>>) -> Dataset {
    Dataset::new(schema, rows).expect("well-formed dataset")
}

fn int_row2(a: i64, b: i64) -> Vec<Value> {
    vec![Value::Int(a), Value::Int(b)]
}

fn keys(names: &[&str]) -> Vec<String> {
    names.iter().map(|s| s.to_string()).collect()
}

fn ok(r: Result<DiffOutcome, DiffError>) -> DiffOutcome {
    match r {
        Ok(o) => o,
        Err(e) => panic!("expected a report, got {:?}", e),
    }
}

#[test]
fn scenario_basic_counts_and_sample() {
    let a = ds(
        vec![col("id", DataType::Int), col("val", DataType::Int)],
        vec![int_row2(1, 10), int_row2(2, 20), int_row2(3, 30)],
    );
    let b = ds(
        vec![col("id", DataType::Int), col("val", DataType::Int)],
        vec![int_row2(1, 10), int_row2(2, 25), int_row2(4, 40)],
    );
    let out = ok(diff(&a, &b, &keys(&["id"])));
    let rep = &out.report;
    assert_eq!(rep.total_rows_a, 3);
    assert_eq!(rep.total_rows_b, 3);
    assert_eq!(rep.matched_count, 2);
    assert_eq!(rep.added_count, 1);
    assert_eq!(rep.removed_count, 1);
    assert_eq!(rep.identical_rows_count, 1);
    assert_eq!(rep.modified_rows_count, 1);
    assert!(out.warnings.is_empty());

    let val_stat = &rep.column_stats[1];
    assert_eq!(val_stat.column_name, "val");
    assert!(!val_stat.is_key);
    assert_eq!(val_stat.total_count, 2);
    assert_eq!(val_stat.match_count, 1);
    assert_eq!(val_stat.non_match_count, 1);
    assert!(!val_stat.all_match);
    assert_eq!(val_stat.max_abs_numeric_delta, Some(5));
    assert_eq!(val_stat.null_count_delta, Some(0));
    assert_eq!(val_stat.samples.len(), 1);
    assert_eq!(val_stat.samples[0].key_desc, "id: 2");
    assert_eq!(val_stat.samples[0].change, "20 -> 25");
}

#[test]
fn key_column_fully_matches() {
    let a = ds(
        vec![col("id", DataType::Int), col("val", DataType::Int)],
        vec![int_row2(1, 10), int_row2(2, 20)],
    );
    let b = ds(
        vec![col("id", DataType::Int), col("val", DataType::Int)],
        vec![int_row2(1, 11), int_row2(2, 22)],
    );
    let out = ok(diff(&a, &b, &keys(&["id"])));
    let id_stat = &out.report.column_stats[0];
    assert!(id_stat.is_key);
    assert_eq!(id_stat.non_match_count, 0);
    assert_eq!(id_stat.match_count, id_stat.total_count);
    assert!(id_stat.all_match);
    assert!(id_stat.samples.is_empty());
}

#[test]
fn missing_column_reports_missing_sentinel() {
    let a = ds(
        vec![col("id", DataType::Int), col("extra", DataType::Str)],
        vec![
            vec![Value::Int(1), Value::Str("x".to_string())],
            vec![Value::Int(2), Value::Str("y".to_string())],
        ],
    );
    let b = ds(vec![col("id", DataType::Int)], vec![vec![Value::Int(1)], vec![Value::Int(2)]]);
    let out = ok(diff(&a, &b, &keys(&["id"])));
    let stat = &out.report.column_stats[1];
    assert_eq!(stat.column_name, "extra");
    assert_eq!(stat.target_type, None);
    assert_eq!(stat.target_type_label(), "MISSING");
    assert!(!stat.all_match);
    assert_eq!(stat.total_count, 0);
    assert_eq!(stat.match_count, 0);
    assert_eq!(stat.non_match_count, 0);
    assert_eq!(stat.max_abs_numeric_delta, None);
    assert_eq!(stat.null_count_delta, None);
    assert!(stat.samples.is_empty());
}

#[test]
fn missing_key_column_is_an_error() {
    let a = ds(vec![col("id", DataType::Int)], vec![vec![Value::Int(1)]]);
    let b = ds(vec![col("other", DataType::Int)], vec![vec![Value::Int(1)]]);
    match diff(&a, &b, &keys(&["id"])) {
        Err(DiffError::MissingKeyColumn { column, on_right }) => {
            assert_eq!(column, "id");
            assert!(on_right);
        },
        other => panic!("expected a missing-key error, got {:?}", other),
    }
}

#[test]
fn missing_key_column_on_left_reported_first() {
    let a = ds(vec![col("other", DataType::Int)], vec![vec![Value::Int(1)]]);
    let b = ds(vec![col("also_other", DataType::Int)], vec![vec![Value::Int(1)]]);
    match diff(&a, &b, &keys(&["id"])) {
        Err(DiffError::MissingKeyColumn { column, on_right }) => {
            assert_eq!(column, "id");
            assert!(!on_right);
        },
        other => panic!("expected a missing-key error, got {:?}", other),
    }
}

#[test]
fn first_missing_key_of_a_compound_set_is_named() {
    let a = ds(
        vec![col("k1", DataType::Int), col("k2", DataType::Int)],
        vec![int_row2(1, 2)],
    );
    let b = ds(vec![col("k1", DataType::Int)], vec![vec![Value::Int(1)]]);
    match diff(&a, &b, &keys(&["k1", "k2"])) {
        Err(DiffError::MissingKeyColumn { column, on_right }) => {
            assert_eq!(column, "k2");
            assert!(on_right);
        },
        other => panic!("expected a missing-key error, got {:?}", other),
    }
}

#[test]
fn explosion_guard_trips_when_both_sides_duplicate() {
    let rows: Vec<Vec<Value>> = (0..2000).map(|i| int_row2(7, i)).collect();
    let a = ds(vec![col("id", DataType::Int), col("val", DataType::Int)], rows.clone());
    let b = ds(vec![col("id", DataType::Int), col("val", DataType::Int)], rows);
    match diff(&a, &b, &keys(&["id"])) {
        Err(DiffError::JoinExplosion { duplicates_a, duplicates_b }) => {
            assert_eq!(duplicates_a, 1999);
            assert_eq!(duplicates_b, 1999);
        },
        other => panic!("expected the explosion guard to trip, got {:?}", other),
    }
}

#[test]
fn explosion_guard_allows_one_sided_duplication() {
    let rows_a: Vec<Vec<Value>> = (0..2000).map(|i| int_row2(7, i)).collect();
    let rows_b: Vec<Vec<Value>> = (0..2000).map(|i| int_row2(i, i)).collect();
    let a = ds(vec![col("id", DataType::Int), col("val", DataType::Int)], rows_a);
    let b = ds(vec![col("id", DataType::Int), col("val", DataType::Int)], rows_b);
    let out = ok(diff(&a, &b, &keys(&["id"])));
    assert_eq!(out.report.total_rows_a, 2000);
    assert_eq!(out.report.matched_count, 2000);
    assert_eq!(out.warnings.len(), 1);
    assert!(!out.warnings[0].on_right);
    assert_eq!(out.warnings[0].unique_keys, 1);
    assert_eq!(out.warnings[0].total_rows, 2000);
}

#[test]
fn sample_cap_limits_to_five() {
    let rows_a: Vec<Vec<Value>> = (0..50).map(|i| int_row2(i, 0)).collect();
    let rows_b: Vec<Vec<Value>> = (0..50).map(|i| int_row2(i, 1)).collect();
    let a = ds(vec![col("id", DataType::Int), col("val", DataType::Int)], rows_a);
    let b = ds(vec![col("id", DataType::Int), col("val", DataType::Int)], rows_b);
    let out = ok(diff(&a, &b, &keys(&["id"])));
    let stat = &out.report.column_stats[1];
    assert_eq!(stat.non_match_count, 50);
    assert_eq!(stat.samples.len(), 5);
    assert_eq!(stat.samples[0].key_desc, "id: 0");
    assert_eq!(stat.samples[0].change, "0 -> 1");
}

#[test]
fn sample_buffer_is_shared_across_columns() {
    // Column x differs on the first 120 rows, column y only on the last
    // 30: y's samples can come only from the shared 100-row buffer, which
    // those rows never reach.
    let rows_a: Vec<Vec<Value>> = (0..150).map(|i| vec![Value::Int(i), Value::Int(0), Value::Int(0)]).collect();
    let rows_b: Vec<Vec<Value>> = (0..150)
        .map(
            |i| vec![
                Value::Int(i),
                Value::Int(if i < 120 { 1 } else { 0 }),
                Value::Int(if i >= 120 { 1 } else { 0 }),
            ],
        )
        .collect();
    let schema = vec![col("id", DataType::Int), col("x", DataType::Int), col("y", DataType::Int)];
    let a = ds(schema.clone(), rows_a);
    let b = ds(schema, rows_b);
    let out = ok(diff(&a, &b, &keys(&["id"])));
    let x_stat = &out.report.column_stats[1];
    let y_stat = &out.report.column_stats[2];
    assert_eq!(x_stat.non_match_count, 120);
    assert_eq!(x_stat.samples.len(), 5);
    assert_eq!(y_stat.non_match_count, 30);
    assert!(y_stat.samples.is_empty());
}

#[test]
fn null_aware_equality_counts_no_disagreement() {
    let a = ds(
        vec![col("id", DataType::Int), col("val", DataType::Int)],
        vec![vec![Value::Int(1), Value::Null], vec![Value::Int(2), Value::Null]],
    );
    let b = ds(
        vec![col("id", DataType::Int), col("val", DataType::Int)],
        vec![vec![Value::Int(1), Value::Null], vec![Value::Int(2), Value::Int(9)]],
    );
    let out = ok(diff(&a, &b, &keys(&["id"])));
    let stat = &out.report.column_stats[1];
    // Both-null row 1 agrees; null vs 9 on row 2 differs.
    assert_eq!(stat.non_match_count, 1);
    assert_eq!(stat.match_count, 1);
    assert_eq!(stat.null_count_delta, Some(-1));
    assert_eq!(stat.samples.len(), 1);
    assert_eq!(stat.samples[0].change, "null -> 9");
}

#[test]
fn identical_plus_modified_equals_matched() {
    let a = ds(
        vec![col("id", DataType::Int), col("val", DataType::Int)],
        vec![int_row2(1, 1), int_row2(2, 2), int_row2(3, 3), int_row2(4, 4)],
    );
    let b = ds(
        vec![col("id", DataType::Int), col("val", DataType::Int)],
        vec![int_row2(1, 1), int_row2(2, 5), int_row2(3, 3), int_row2(5, 5)],
    );
    let out = ok(diff(&a, &b, &keys(&["id"])));
    let rep = &out.report;
    assert_eq!(rep.identical_rows_count + rep.modified_rows_count, rep.matched_count);
    assert_eq!(rep.matched_count + rep.removed_count, rep.total_rows_a);
    assert_eq!(rep.matched_count + rep.added_count, rep.total_rows_b);
}

#[test]
fn diff_is_deterministic() {
    let a = ds(
        vec![col("id", DataType::Int), col("val", DataType::Int)],
        vec![int_row2(1, 10), int_row2(2, 20), int_row2(3, 30)],
    );
    let b = ds(
        vec![col("id", DataType::Int), col("val", DataType::Int)],
        vec![int_row2(1, 11), int_row2(2, 20), int_row2(4, 40)],
    );
    let out1 = ok(diff(&a, &b, &keys(&["id"])));
    let out2 = ok(diff(&a, &b, &keys(&["id"])));
    assert_eq!(out1, out2);
}

#[test]
fn added_and_removed_are_symmetric() {
    let a = ds(
        vec![col("id", DataType::Int), col("val", DataType::Int)],
        vec![int_row2(1, 10), int_row2(2, 20), int_row2(3, 30)],
    );
    let b = ds(
        vec![col("id", DataType::Int), col("val", DataType::Int)],
        vec![int_row2(2, 20), int_row2(4, 40)],
    );
    let ab = ok(diff(&a, &b, &keys(&["id"]))).report;
    let ba = ok(diff(&b, &a, &keys(&["id"]))).report;
    assert_eq!(ab.matched_count, ba.matched_count);
    assert_eq!(ab.added_count, ba.removed_count);
    assert_eq!(ab.removed_count, ba.added_count);
}

#[test]
fn compound_keys_join_on_all_columns() {
    let schema = vec![
        col("k1", DataType::Int),
        col("k2", DataType::Str),
        col("val", DataType::Int),
    ];
    let a = ds(
        schema.clone(),
        vec![
            vec![Value::Int(1), Value::Str("x".to_string()), Value::Int(10)],
            vec![Value::Int(1), Value::Str("y".to_string()), Value::Int(20)],
        ],
    );
    let b = ds(
        schema,
        vec![
            vec![Value::Int(1), Value::Str("x".to_string()), Value::Int(15)],
            vec![Value::Int(2), Value::Str("y".to_string()), Value::Int(20)],
        ],
    );
    let out = ok(diff(&a, &b, &keys(&["k1", "k2"])));
    let rep = &out.report;
    assert_eq!(rep.matched_count, 1);
    assert_eq!(rep.removed_count, 1);
    assert_eq!(rep.added_count, 1);
    let stat = &rep.column_stats[2];
    assert_eq!(stat.non_match_count, 1);
    assert_eq!(stat.samples[0].key_desc, "k1: 1 k2: x");
    assert_eq!(stat.samples[0].change, "10 -> 15");
}

#[test]
fn empty_left_dataset() {
    let a = ds(vec![col("id", DataType::Int), col("val", DataType::Int)], vec![]);
    let b = ds(
        vec![col("id", DataType::Int), col("val", DataType::Int)],
        vec![int_row2(1, 1), int_row2(2, 2)],
    );
    let out = ok(diff(&a, &b, &keys(&["id"])));
    let rep = &out.report;
    assert_eq!(rep.matched_count, 0);
    assert_eq!(rep.removed_count, 0);
    assert_eq!(rep.added_count, 2);
    assert_eq!(rep.identical_rows_count, 0);
    assert_eq!(rep.modified_rows_count, 0);
}

#[test]
fn negative_and_boolean_values_render_in_samples() {
    let schema = vec![
        col("id", DataType::Int),
        col("n", DataType::Int),
        col("f", DataType::Bool),
    ];
    let a = ds(schema.clone(), vec![vec![Value::Int(1), Value::Int(-5), Value::Bool(true)]]);
    let b = ds(schema, vec![vec![Value::Int(1), Value::Int(10), Value::Bool(false)]]);
    let out = ok(diff(&a, &b, &keys(&["id"])));
    let n_stat = &out.report.column_stats[1];
    assert_eq!(n_stat.samples[0].change, "-5 -> 10");
    assert_eq!(n_stat.max_abs_numeric_delta, Some(15));
    let f_stat = &out.report.column_stats[2];
    assert_eq!(f_stat.samples[0].change, "true -> false");
    assert_eq!(f_stat.max_abs_numeric_delta, None);
}

#[test]
fn duplicate_keys_warn_without_aborting() {
    let a = ds(
        vec![col("id", DataType::Int), col("val", DataType::Int)],
        vec![int_row2(1, 10), int_row2(1, 20)],
    );
    let b = ds(
        vec![col("id", DataType::Int), col("val", DataType::Int)],
        vec![int_row2(1, 10)],
    );
    let out = ok(diff(&a, &b, &keys(&["id"])));
    assert_eq!(out.warnings.len(), 1);
    assert!(!out.warnings[0].on_right);
    assert_eq!(out.warnings[0].unique_keys, 1);
    assert_eq!(out.warnings[0].total_rows, 2);
    // Two joined rows: both A-rows match the single B-row.
    assert_eq!(out.report.matched_count, 2);
    assert_eq!(out.report.removed_count, 0);
}

#[test]
fn dataset_rejects_ragged_rows_and_duplicate_names() {
    let ragged = Dataset::new(
        vec![col("id", DataType::Int), col("val", DataType::Int)],
        vec![vec![Value::Int(1)]],
    );
    assert!(ragged.is_none());
    let dup = Dataset::new(
        vec![col("id", DataType::Int), col("id", DataType::Str)],
        vec![],
    );
    assert!(dup.is_none());
}

#[test]
fn custom_config_threshold_and_caps() {
    let a = ds(
        vec![col("id", DataType::Int), col("val", DataType::Int)],
        vec![int_row2(1, 10), int_row2(1, 20), int_row2(2, 30)],
    );
    let b = ds(
        vec![col("id", DataType::Int), col("val", DataType::Int)],
        vec![int_row2(1, 11), int_row2(1, 21), int_row2(2, 30)],
    );
    let strict = DiffConfig { explosion_threshold: 0, per_column_sample_cap: 5, global_sample_cap: 100 };
    match diff_with_config(&a, &b, &keys(&["id"]), &strict) {
        Err(DiffError::JoinExplosion { duplicates_a, duplicates_b }) => {
            assert_eq!(duplicates_a, 1);
            assert_eq!(duplicates_b, 1);
        },
        other => panic!("expected the explosion guard to trip, got {:?}", other),
    }
    let tiny_caps = DiffConfig { explosion_threshold: 1000, per_column_sample_cap: 2, global_sample_cap: 100 };
    let out = ok(diff_with_config(&a, &b, &keys(&["id"]), &tiny_caps));
    let stat = &out.report.column_stats[1];
    // Duplicate id 1 on both sides joins 2x2 ways, all with differing values.
    assert_eq!(stat.non_match_count, 4);
    assert_eq!(stat.samples.len(), 2);
}

#[test]
fn type_labels() {
    let a = ds(vec![col("id", DataType::Int), col("s", DataType::Str)], vec![]);
    let b = ds(vec![col("id", DataType::Int), col("s", DataType::Float)], vec![]);
    let out = ok(diff(&a, &b, &keys(&["id"])));
    assert_eq!(out.report.column_stats[0].target_type_label(), "Int");
    assert_eq!(out.report.column_stats[1].target_type_label(), "Float");
    assert_eq!(out.report.column_stats[1].source_type, DataType::Str);
}
