use from_row_core::cell::{Cell, ScalarKind, WireType};
use from_row_core::config::{record_descriptor, FieldConfig};
use from_row_core::descriptor::Descriptor;
use from_row_core::entry::BindError;
use from_row_core::errors::{is_was_null, DecodeError};
use from_row_core::row::{PhysicalColumn, Row};
use from_row_core::value::{value_eq, Value};

fn plain_field(ident: &str, target: Descriptor) -> FieldConfig {
    FieldConfig {
        ident: ident.to_string(),
        target,
        flatten: false,
        join: false,
        rename: None,
        from: None,
        try_from: None,
        from_fn: None,
        try_from_fn: None,
    }
}

fn join_field(ident: &str, target: Descriptor) -> FieldConfig {
    FieldConfig {
        join: true,
        ..plain_field(ident, target)
    }
}

fn flatten_field(ident: &str, target: Descriptor) -> FieldConfig {
    FieldConfig {
        flatten: true,
        ..plain_field(ident, target)
    }
}

fn col(name: &str, ty: WireType) -> PhysicalColumn {
    PhysicalColumn {
        name: name.to_string(),
        ty,
    }
}

/// A record `{k: i64, children: Vec<String>}` whose last field joins
/// consecutive rows sharing `k`.
fn join_descriptor() -> Descriptor {
    record_descriptor(vec![
        plain_field("k", Descriptor::Scalar(ScalarKind::Int)),
        join_field(
            "children",
            Descriptor::Repeated(Box::new(Descriptor::Scalar(ScalarKind::Text))),
        ),
    ])
    .expect("configuration is lawful")
}

fn join_row(k: i64, c: &str) -> Row {
    Row::new(
        vec![col("k", WireType::Int8), col("children", WireType::Text)],
        vec![Cell::Int(k), Cell::Text(c.to_string())],
    )
}

fn grouped(k: i64, children: &[&str]) -> Value {
    Value::Record(vec![
        Value::Int(k),
        Value::Many(
            children
                .iter()
                .map(|c| Value::Text(c.to_string()))
                .collect(),
        ),
    ])
}

#[test]
fn scalar_round_trip() {
    let desc = record_descriptor(vec![
        plain_field("id", Descriptor::Scalar(ScalarKind::Int)),
        plain_field("name", Descriptor::Scalar(ScalarKind::Text)),
        plain_field("active", Descriptor::Scalar(ScalarKind::Bool)),
    ])
    .expect("configuration is lawful");
    let row = Row::new(
        vec![
            col("id", WireType::Int8),
            col("name", WireType::Text),
            col("active", WireType::Bool),
        ],
        vec![
            Cell::Int(7),
            Cell::Text("seven".to_string()),
            Cell::Bool(true),
        ],
    );
    let bound = desc.try_from_row(&row).expect("row binds");
    let expected = Value::Record(vec![
        Value::Int(7),
        Value::Text("seven".to_string()),
        Value::Bool(true),
    ]);
    assert!(value_eq(&bound, &expected));
    let bound_fast = desc.from_row(&row);
    assert!(value_eq(&bound_fast, &expected));
}

#[test]
fn join_groups_adjacent_rows() {
    let desc = join_descriptor();
    let rows = vec![join_row(1, "a"), join_row(1, "b"), join_row(2, "c")];
    let out = desc.try_from_slice(&rows).expect("rows bind");
    assert_eq!(out.len(), 2);
    assert!(value_eq(&out[0], &grouped(1, &["a", "b"])));
    assert!(value_eq(&out[1], &grouped(2, &["c"])));
}

#[test]
fn join_never_reorders_or_looks_ahead() {
    let desc = join_descriptor();
    let rows = vec![join_row(1, "a"), join_row(2, "c"), join_row(1, "b")];
    let out = desc.try_from_slice(&rows).expect("rows bind");
    assert_eq!(out.len(), 3);
    assert!(value_eq(&out[0], &grouped(1, &["a"])));
    assert!(value_eq(&out[1], &grouped(2, &["c"])));
    assert!(value_eq(&out[2], &grouped(1, &["b"])));
}

#[test]
fn join_absorbs_null_child() {
    let desc = join_descriptor();
    let rows = vec![
        Row::new(
            vec![col("k", WireType::Int8), col("children", WireType::Text)],
            vec![Cell::Int(1), Cell::Null],
        ),
        join_row(1, "b"),
    ];
    let out = desc.try_from_slice(&rows).expect("rows bind");
    assert_eq!(out.len(), 1);
    assert!(value_eq(&out[0], &grouped(1, &["b"])));
}

#[test]
fn empty_input_yields_empty_output() {
    let desc = join_descriptor();
    let rows: Vec<Row> = Vec::new();
    let out = desc.try_from_slice(&rows).expect("empty batch binds");
    assert!(out.is_empty());
    let out_fast = desc.from_slice(&rows);
    assert!(out_fast.is_empty());
}

#[test]
fn optional_scalar_absorbs_null() {
    let desc = record_descriptor(vec![plain_field(
        "v",
        Descriptor::Optional(Box::new(Descriptor::Scalar(ScalarKind::Int))),
    )])
    .expect("configuration is lawful");
    let null_row = Row::new(vec![col("v", WireType::Int8)], vec![Cell::Null]);
    let bound = desc.try_from_row(&null_row).expect("null cell binds");
    assert!(value_eq(&bound, &Value::Record(vec![Value::Absent])));

    let present_row = Row::new(vec![col("v", WireType::Int8)], vec![Cell::Int(5)]);
    let bound = desc.try_from_row(&present_row).expect("cell binds");
    assert!(value_eq(&bound, &Value::Record(vec![Value::Int(5)])));

    let bad_row = Row::new(vec![col("v", WireType::Int8)], vec![Cell::Bool(true)]);
    match desc.try_from_row(&bad_row) {
        Err(BindError::Decode(DecodeError::WrongType { index })) => assert_eq!(index, 0),
        other => panic!("expected a wrong-type failure, got {:?}", other),
    }
}

#[test]
fn bare_null_is_a_decode_error() {
    let desc = record_descriptor(vec![plain_field("v", Descriptor::Scalar(ScalarKind::Int))])
        .expect("configuration is lawful");
    let row = Row::new(vec![col("v", WireType::Int8)], vec![Cell::Null]);
    match desc.try_from_row(&row) {
        Err(BindError::Decode(e)) => {
            assert!(is_was_null(&e));
            assert_eq!(e, DecodeError::WasNull { index: 0 });
        }
        other => panic!("expected a was-null failure, got {:?}", other),
    }
}

#[test]
fn flattened_record_binds_inline() {
    let inner = record_descriptor(vec![
        plain_field("street", Descriptor::Scalar(ScalarKind::Text)),
        plain_field("zip", Descriptor::Scalar(ScalarKind::Int)),
    ])
    .expect("configuration is lawful");
    let desc = record_descriptor(vec![
        plain_field("id", Descriptor::Scalar(ScalarKind::Int)),
        flatten_field("address", inner),
    ])
    .expect("configuration is lawful");
    assert_eq!(desc.column_count(), 3);
    let row = Row::new(
        vec![
            col("id", WireType::Int8),
            col("street", WireType::Text),
            col("zip", WireType::Int4),
        ],
        vec![
            Cell::Int(1),
            Cell::Text("elm".to_string()),
            Cell::Int(99),
        ],
    );
    let bound = desc.try_from_row(&row).expect("row binds");
    let expected = Value::Record(vec![
        Value::Int(1),
        Value::Record(vec![Value::Text("elm".to_string()), Value::Int(99)]),
    ]);
    assert!(value_eq(&bound, &expected));
}

#[test]
fn optional_flattened_subtree_absorbs_all_null() {
    let inner = record_descriptor(vec![
        plain_field("street", Descriptor::Scalar(ScalarKind::Text)),
        plain_field("zip", Descriptor::Scalar(ScalarKind::Int)),
    ])
    .expect("configuration is lawful");
    let desc = record_descriptor(vec![
        plain_field("id", Descriptor::Scalar(ScalarKind::Int)),
        flatten_field("address", Descriptor::Optional(Box::new(inner))),
    ])
    .expect("configuration is lawful");
    let row = Row::new(
        vec![
            col("id", WireType::Int8),
            col("street", WireType::Text),
            col("zip", WireType::Int4),
        ],
        vec![Cell::Int(1), Cell::Null, Cell::Int(99)],
    );
    let bound = desc.try_from_row(&row).expect("row binds");
    let expected = Value::Record(vec![Value::Int(1), Value::Absent]);
    assert!(value_eq(&bound, &expected));
}

#[test]
fn schema_mismatch_is_reported_before_binding() {
    let desc = join_descriptor();
    let row = Row::new(
        vec![col("k", WireType::Int8)],
        vec![Cell::Int(1)],
    );
    match desc.try_from_row(&row) {
        Err(BindError::Schema(report)) => {
            let rendered = report.render();
            assert!(rendered.contains("Column Mismatch Report:"));
        }
        other => panic!("expected a schema failure, got {:?}", other),
    }
}

#[test]
fn owned_batches_bind_like_slices() {
    let desc = join_descriptor();
    let out = desc
        .try_from_rows(vec![join_row(4, "x"), join_row(4, "y")])
        .expect("rows bind");
    assert_eq!(out.len(), 1);
    assert!(value_eq(&out[0], &grouped(4, &["x", "y"])));
    let out_fast = desc.from_rows(vec![join_row(4, "x"), join_row(4, "y")]);
    assert_eq!(out_fast.len(), 1);
    assert!(value_eq(&out_fast[0], &grouped(4, &["x", "y"])));
}

#[test]
fn decode_error_aborts_the_batch() {
    let desc = join_descriptor();
    let rows = vec![
        join_row(1, "a"),
        Row::new(
            vec![col("k", WireType::Int8), col("children", WireType::Text)],
            vec![Cell::Null, Cell::Text("b".to_string())],
        ),
    ];
    match desc.try_from_slice(&rows) {
        Err(BindError::Decode(DecodeError::WasNull { index })) => assert_eq!(index, 0),
        other => panic!("expected a was-null failure, got {:?}", other),
    }
}

#[test]
fn optional_join_subtree_merges_across_rows() {
    let desc = record_descriptor(vec![
        plain_field("k", Descriptor::Scalar(ScalarKind::Int)),
        join_field(
            "children",
            Descriptor::Optional(Box::new(Descriptor::Repeated(Box::new(Descriptor::Scalar(
                ScalarKind::Text,
            ))))),
        ),
    ])
    .expect("configuration is lawful");
    let rows = vec![join_row(1, "a"), join_row(1, "b"), join_row(2, "c")];
    let out = desc.try_from_slice(&rows).expect("rows bind");
    assert_eq!(out.len(), 2);
    assert!(value_eq(&out[0], &grouped(1, &["a", "b"])));
    assert!(value_eq(&out[1], &grouped(2, &["c"])));
}

#[test]
fn joined_protocol_merges_into_a_previous_record() {
    let desc = join_descriptor();
    let row1 = join_row(3, "x");
    let mut last: Option<Value> = None;
    let first = from_row_core::bind::try_from_row_joined(&desc, &mut last, &row1, 0)
        .expect("row binds")
        .expect("a fresh bind always produces a value");
    assert!(last.is_none());
    let mut last = Some(first);
    let row2 = join_row(3, "y");
    let merged = from_row_core::bind::try_from_row_joined(&desc, &mut last, &row2, 0)
        .expect("row binds");
    assert!(merged.is_none());
    assert!(value_eq(&last.unwrap(), &grouped(3, &["x", "y"])));
}

#[test]
fn value_equality_is_structural() {
    let a = grouped(1, &["x", "y"]);
    let b = grouped(1, &["x", "y"]);
    let c = grouped(1, &["x"]);
    let d = grouped(2, &["x", "y"]);
    assert!(value_eq(&a, &b));
    assert!(!value_eq(&a, &c));
    assert!(!value_eq(&a, &d));
    assert!(!value_eq(&Value::Absent, &Value::Int(0)));
    assert!(value_eq(&Value::Absent, &Value::Absent));
}

#[test]
fn tuples_bind_positionally() {
    let desc = from_row_core::descriptor::tuple_descriptor(&vec![
        ScalarKind::Int,
        ScalarKind::Text,
    ]);
    let row = Row::new(
        vec![col("first", WireType::Int4), col("second", WireType::Text)],
        vec![Cell::Int(3), Cell::Text("three".to_string())],
    );
    let bound = desc.try_from_row(&row).expect("row binds");
    let expected = Value::Record(vec![Value::Int(3), Value::Text("three".to_string())]);
    assert!(value_eq(&bound, &expected));
}
