use from_row_core::cell::{ScalarKind, WireType};
use from_row_core::config::{record_descriptor, ConfigError, FieldConfig};
use from_row_core::descriptor::{tuple_descriptor, Descriptor};
use from_row_core::expected::ExpectedColumn;
use from_row_core::report::{build_mismatch_report, report_expected_columns_mismatch, ReportEntry};
use from_row_core::row::PhysicalColumn;

fn plain_field(ident: &str, target: Descriptor) -> FieldConfig {
    FieldConfig {
        ident: ident.to_string(),
        target,
        flatten: false,
        join: false,
        rename: None,
        from: None,
        try_from: None,
        from_fn: None,
        try_from_fn: None,
    }
}

fn col(name: &str, ty: WireType) -> PhysicalColumn {
    PhysicalColumn {
        name: name.to_string(),
        ty,
    }
}

fn nested() -> Descriptor {
    record_descriptor(vec![
        plain_field("street", Descriptor::Scalar(ScalarKind::Text)),
        plain_field("zip", Descriptor::Scalar(ScalarKind::Int)),
    ])
    .expect("configuration is lawful")
}

fn outer() -> Descriptor {
    record_descriptor(vec![
        plain_field("id", Descriptor::Scalar(ScalarKind::Int)),
        FieldConfig {
            flatten: true,
            ..plain_field("address", nested())
        },
    ])
    .expect("configuration is lawful")
}

#[test]
fn column_count_sums_field_contributions() {
    assert_eq!(nested().column_count(), 2);
    assert_eq!(outer().column_count(), 3);
    let all_scalar = record_descriptor(vec![
        plain_field("a", Descriptor::Scalar(ScalarKind::Int)),
        plain_field("b", Descriptor::Scalar(ScalarKind::Bool)),
    ])
    .expect("configuration is lawful");
    assert_eq!(all_scalar.column_count(), 2);
    assert_eq!(
        Descriptor::Optional(Box::new(nested())).column_count(),
        2
    );
    assert_eq!(
        Descriptor::Repeated(Box::new(Descriptor::Scalar(ScalarKind::Text))).column_count(),
        1
    );
}

#[test]
fn tuple_descriptors_are_positional() {
    let desc = tuple_descriptor(&vec![ScalarKind::Int, ScalarKind::Text]);
    assert_eq!(desc.column_count(), 2);
    // Positional targets carry no name expectations, so any names pass.
    let cols = vec![col("anything", WireType::Int4), col("else", WireType::Varchar)];
    assert!(desc.try_assert_matches(&cols).is_ok());
    let wrong = vec![col("anything", WireType::Bool), col("else", WireType::Varchar)];
    assert!(desc.try_assert_matches(&wrong).is_err());
}

#[test]
fn validator_accepts_exact_schema() {
    let cols = vec![
        col("id", WireType::Int8),
        col("street", WireType::Varchar),
        col("zip", WireType::Int4),
    ];
    assert!(outer().try_assert_matches(&cols).is_ok());
    outer().assert_matches(&cols);
}

#[test]
fn validator_rejects_wrong_count() {
    let cols = vec![col("id", WireType::Int8)];
    assert!(outer().try_assert_matches(&cols).is_err());
}

#[test]
fn validator_rejects_wrong_name() {
    let cols = vec![
        col("id", WireType::Int8),
        col("road", WireType::Text),
        col("zip", WireType::Int4),
    ];
    assert!(outer().try_assert_matches(&cols).is_err());
}

#[test]
fn validator_rejects_wrong_type() {
    let cols = vec![
        col("id", WireType::Bool),
        col("street", WireType::Text),
        col("zip", WireType::Int4),
    ];
    assert!(outer().try_assert_matches(&cols).is_err());
}

#[test]
fn expected_columns_flatten_in_order() {
    let expected = outer().report_expected_columns();
    assert_eq!(expected.len(), 3);
    assert_eq!(expected[0].column_name().as_deref(), Some("id"));
    assert_eq!(expected[1].column_name().as_deref(), Some("street"));
    assert_eq!(expected[2].column_name().as_deref(), Some("zip"));
    assert!(expected[0].accepts(&WireType::Int4));
    assert!(expected[0].accepts(&WireType::Int8));
    assert!(!expected[0].accepts(&WireType::Text));
    assert!(!expected[0].nullable(&WireType::Int8));
}

#[test]
fn optional_marks_expectations_nullable() {
    let desc = Descriptor::Optional(Box::new(nested()));
    let expected = desc.report_expected_columns();
    assert_eq!(expected.len(), 2);
    assert!(expected[0].nullable(&WireType::Text));
    assert!(expected[1].nullable(&WireType::Int8));
    let repeated = Descriptor::Repeated(Box::new(nested()));
    let expected = repeated.report_expected_columns();
    assert!(expected[0].nullable(&WireType::Text));
}

#[test]
fn renamed_fields_expect_the_renamed_column() {
    let desc = record_descriptor(vec![FieldConfig {
        rename: Some("user_id".to_string()),
        ..plain_field("id", Descriptor::Scalar(ScalarKind::Int))
    }])
    .expect("configuration is lawful");
    let expected = desc.report_expected_columns();
    assert_eq!(expected[0].column_name().as_deref(), Some("user_id"));
    assert!(desc
        .try_assert_matches(&vec![col("user_id", WireType::Int8)])
        .is_ok());
    assert!(desc
        .try_assert_matches(&vec![col("id", WireType::Int8)])
        .is_err());
}

#[test]
fn expected_column_setters() {
    let mut e = ExpectedColumn::new(ScalarKind::Text, Some("name".to_string()));
    assert_eq!(e.column_name().as_deref(), Some("name"));
    assert_eq!(e.type_label(), "text");
    assert!(e.accepts(&WireType::Varchar));
    assert!(!e.nullable(&WireType::Varchar));
    e.set_nullable();
    assert!(e.nullable(&WireType::Varchar));
}

#[test]
fn join_in_non_last_position_fails_construction() {
    let join_cfg = FieldConfig {
        join: true,
        ..plain_field(
            "children",
            Descriptor::Repeated(Box::new(Descriptor::Scalar(ScalarKind::Text))),
        )
    };
    let scalar_cfg = plain_field("k", Descriptor::Scalar(ScalarKind::Int));
    let r = record_descriptor(vec![join_cfg, scalar_cfg]);
    assert_eq!(r.unwrap_err(), ConfigError::JoinNotLast { field: 0 });

    let join_a = FieldConfig {
        join: true,
        ..plain_field(
            "a",
            Descriptor::Repeated(Box::new(Descriptor::Scalar(ScalarKind::Text))),
        )
    };
    let join_b = FieldConfig {
        join: true,
        ..plain_field(
            "b",
            Descriptor::Repeated(Box::new(Descriptor::Scalar(ScalarKind::Text))),
        )
    };
    let r = record_descriptor(vec![join_a, join_b]);
    assert_eq!(r.unwrap_err(), ConfigError::JoinNotLast { field: 0 });
}

#[test]
fn config_transform_rules_are_enforced() {
    let conflicted = FieldConfig {
        from: Some("A".to_string()),
        try_from: Some("B".to_string()),
        ..plain_field("x", Descriptor::Scalar(ScalarKind::Int))
    };
    assert_eq!(
        record_descriptor(vec![conflicted]).unwrap_err(),
        ConfigError::TransformConflict { field: 0 }
    );

    let flat_with_from = FieldConfig {
        flatten: true,
        from_fn: Some("decode".to_string()),
        ..plain_field("x", nested())
    };
    assert_eq!(
        record_descriptor(vec![flat_with_from]).unwrap_err(),
        ConfigError::FlattenWithTransform { field: 0 }
    );

    let join_with_from = FieldConfig {
        join: true,
        try_from_fn: Some("decode".to_string()),
        ..plain_field("x", nested())
    };
    assert_eq!(
        record_descriptor(vec![join_with_from]).unwrap_err(),
        ConfigError::JoinWithTransform { field: 0 }
    );

    let renamed_flatten = FieldConfig {
        flatten: true,
        rename: Some("y".to_string()),
        ..plain_field("x", nested())
    };
    assert_eq!(
        record_descriptor(vec![renamed_flatten]).unwrap_err(),
        ConfigError::RenameWithFlatten { field: 0 }
    );

    let renamed_join = FieldConfig {
        join: true,
        rename: Some("y".to_string()),
        ..plain_field("x", nested())
    };
    assert_eq!(
        record_descriptor(vec![renamed_join]).unwrap_err(),
        ConfigError::RenameWithJoin { field: 0 }
    );

    let both = FieldConfig {
        flatten: true,
        join: true,
        ..plain_field("x", nested())
    };
    assert_eq!(
        record_descriptor(vec![both]).unwrap_err(),
        ConfigError::FlattenWithJoin { field: 0 }
    );

    let record_as_scalar = plain_field("x", nested());
    assert_eq!(
        record_descriptor(vec![record_as_scalar]).unwrap_err(),
        ConfigError::TargetInvalid { field: 0 }
    );
}

#[test]
fn mismatch_report_aligns_by_name() {
    let expected = vec![
        ExpectedColumn::new(ScalarKind::Int, Some("a".to_string())),
        ExpectedColumn::new(ScalarKind::Int, Some("b".to_string())),
    ];
    let found = vec![col("a", WireType::Int8), col("c", WireType::Text)];
    let report = build_mismatch_report(&found, &expected);
    assert_eq!(report.entries.len(), 3);
    match &report.entries[0] {
        ReportEntry::Matched {
            name,
            type_ok,
            nullable,
        } => {
            assert_eq!(name.as_str(), "a");
            assert!(*type_ok);
            assert!(!*nullable);
        }
        other => panic!("expected a matched line, got {:?}", other),
    }
    match &report.entries[1] {
        ReportEntry::Missing { name, label } => {
            assert_eq!(name.as_deref(), Some("b"));
            assert_eq!(label.as_str(), "i64");
        }
        other => panic!("expected a missing line, got {:?}", other),
    }
    match &report.entries[2] {
        ReportEntry::Extra { name, label } => {
            assert_eq!(name.as_str(), "c");
            assert_eq!(label.as_str(), "text");
        }
        other => panic!("expected an extra line, got {:?}", other),
    }
    let rendered = report_expected_columns_mismatch(&found, &expected);
    assert!(rendered.contains("Column Mismatch Report:"));
    assert!(rendered.contains("MISSING FROM SOURCE"));
    assert!(rendered.contains("UNEXPECTED EXTRA COLUMN"));
}

#[test]
fn mismatch_report_marks_type_rejections() {
    let expected = vec![ExpectedColumn::new(ScalarKind::Bool, Some("flag".to_string()))];
    let found = vec![col("flag", WireType::Text)];
    let report = build_mismatch_report(&found, &expected);
    assert_eq!(report.entries.len(), 1);
    match &report.entries[0] {
        ReportEntry::Matched { name, type_ok, .. } => {
            assert_eq!(name.as_str(), "flag");
            assert!(!*type_ok);
        }
        other => panic!("expected a matched line, got {:?}", other),
    }
    let rendered = report.render();
    assert!(rendered.contains("MISMATCH"));
    assert!(rendered.contains("type rejected the source column"));
}

#[test]
fn rendered_report_lines_are_padded_tables() {
    let expected = vec![ExpectedColumn::new(ScalarKind::Int, Some("a".to_string()))];
    let found = vec![col("a", WireType::Int8)];
    let rendered = report_expected_columns_mismatch(&found, &expected);
    let lines: Vec<&str> = rendered.lines().collect();
    assert_eq!(lines[0], "Column Mismatch Report:");
    assert_eq!(lines[1], "------------------------------------------------------------");
    assert_eq!(lines[2], "  Column Name          | Type Match      | Nullable        | Notes");
    assert_eq!(lines[3], "------------------------------------------------------------");
    assert_eq!(lines[4], "  a                    | OK              | No              | ");
    assert_eq!(lines.len(), 5);
}
