//! Behavior checks beyond the ported suites: escaping, empty groups,
//! error variants, operator parsing, coercion corners, and determinism.

use clickhouse_filters::filtering::{
    parse_operator, ColumnTypeInfo, FilterBuilder, FilterCondition, FilterError, FilterExpression,
    FilterOperator, JsonFilter, LogicalOperator,
};
use clickhouse_filters::pagination::Paginate;
use clickhouse_filters::{ColumnDef, FilteringOptions};

#[test]
fn test_escape_doubles_every_quote() {
    let cond = FilterCondition::string("name", FilterOperator::Equal, Some("a'b"));
    assert_eq!(cond.to_sql(false).unwrap(), "name = 'a''b'");
    let cond = FilterCondition::string("name", FilterOperator::Equal, Some("''"));
    assert_eq!(cond.to_sql(false).unwrap(), "name = ''''''");
}

#[test]
fn test_case_insensitive_wraps_both_sides() {
    let cond = FilterCondition::string("name", FilterOperator::NotEqual, Some("x"));
    assert_eq!(cond.to_sql(true).unwrap(), "lower(name) != lower('x')");
    assert_eq!(cond.to_sql(false).unwrap(), "name != 'x'");
}

#[test]
fn test_empty_group_renders_empty() {
    let group = FilterExpression::Group {
        operator: LogicalOperator::Or,
        expressions: vec![],
    };
    assert_eq!(group.to_sql(false).unwrap(), "");
    // a builder over an empty group yields no WHERE fragment at all
    let builder = FilterBuilder::new().add_expression(FilterExpression::Group {
        operator: LogicalOperator::And,
        expressions: vec![],
    });
    assert_eq!(builder.build().unwrap(), "");
}

#[test]
fn test_empty_group_child_is_elided() {
    // an empty-rendering child leaves no dangling connector behind
    let group = FilterExpression::and(vec![
        FilterExpression::Group {
            operator: LogicalOperator::Or,
            expressions: vec![],
        },
        FilterExpression::Condition(FilterCondition::uint8("active", FilterOperator::Equal, Some(1))),
    ]);
    assert_eq!(group.to_sql(false).unwrap(), "(active = 1)");
    // a group of only empty-rendering children renders to nothing
    let group = FilterExpression::and(vec![
        FilterExpression::Group {
            operator: LogicalOperator::Or,
            expressions: vec![],
        },
        FilterExpression::Group {
            operator: LogicalOperator::And,
            expressions: vec![],
        },
    ]);
    assert_eq!(group.to_sql(false).unwrap(), "");
}

#[test]
fn test_current_page_clamps_to_one_without_records() {
    let paginate = Paginate::new(7, 10, 10, 0);
    assert_eq!(paginate.pagination.current_page, 1);
    assert_eq!(paginate.sql, "LIMIT 10 OFFSET 0");
}

#[test]
fn test_group_parenthesizes_and_joins() {
    let group = FilterExpression::or(vec![
        FilterExpression::Condition(FilterCondition::uint8("a", FilterOperator::Equal, Some(1))),
        FilterExpression::Condition(FilterCondition::uint8("b", FilterOperator::Equal, Some(2))),
        FilterExpression::Condition(FilterCondition::uint8("c", FilterOperator::Equal, Some(3))),
    ]);
    let sql = group.to_sql(false).unwrap();
    assert_eq!(sql, "(a = 1 OR b = 2 OR c = 3)");
    assert!(sql.starts_with("("));
    assert!(sql.ends_with(")"));
}

#[test]
fn test_rendering_is_deterministic() {
    let expr = FilterExpression::and(vec![
        FilterExpression::Condition(FilterCondition::string(
            "name",
            FilterOperator::Like,
            Some("%o'clock%"),
        )),
        FilterExpression::Condition(FilterCondition::int64(
            "n",
            FilterOperator::LessThanOrEqual,
            Some(-17),
        )),
    ]);
    let first = expr.to_sql(true).unwrap();
    let second = expr.to_sql(true).unwrap();
    assert_eq!(first, second);
    assert_eq!(first, "(lower(name) LIKE lower('%o''clock%') AND n <= -17)");
}

#[test]
fn test_starts_and_ends_with() {
    let cond = FilterCondition::string("name", FilterOperator::StartsWith, Some("Jo"));
    assert_eq!(cond.to_sql(false).unwrap(), "name LIKE 'Jo%'");
    let cond = FilterCondition::string("name", FilterOperator::EndsWith, Some("hn"));
    assert_eq!(cond.to_sql(false).unwrap(), "name LIKE '%hn'");
    let cond = FilterCondition::string("name", FilterOperator::StartsWith, None);
    assert_eq!(cond.to_sql(false).unwrap(), "name LIKE '%'");
}

#[test]
fn test_string_in_splits_and_quotes() {
    let cond = FilterCondition::string(
        "status",
        FilterOperator::In,
        Some("active, pending ,done"),
    );
    assert_eq!(
        cond.to_sql(false).unwrap(),
        "status IN ('active', 'pending', 'done')"
    );
    assert_eq!(
        cond.to_sql(true).unwrap(),
        "lower(status) IN (lower('active'), lower('pending'), lower('done'))"
    );
}

#[test]
fn test_in_values_numeric_sniffing() {
    let cond = FilterCondition::in_values(
        "v",
        FilterOperator::In,
        vec!["1.5".to_string(), "abc".to_string(), "2e3".to_string()],
        Some(ColumnTypeInfo::Numeric),
    );
    assert_eq!(cond.to_sql(false).unwrap(), "v IN (1.5, 'abc', 2e3)");
}

#[test]
fn test_unsupported_operator_errors() {
    let cond = FilterCondition::string("name", FilterOperator::GreaterThan, Some("x"));
    assert!(matches!(
        cond.to_sql(false),
        Err(FilterError::UnsupportedOperator { .. })
    ));
    let cond = FilterCondition::boolean("b", FilterOperator::Like, Some(true));
    let err = cond.to_sql(false).unwrap_err();
    // the error names both the operator and the type family
    assert_eq!(err.message(), "unsupported operator LIKE for boolean type");
}

#[test]
fn test_missing_value_errors() {
    let cond = FilterCondition::string("name", FilterOperator::Equal, None);
    assert!(matches!(cond.to_sql(false), Err(FilterError::MissingValue)));
    let cond = FilterCondition::string("name", FilterOperator::In, None);
    assert!(matches!(
        cond.to_sql(false),
        Err(FilterError::MissingInValues)
    ));
}

#[test]
fn test_column_not_found_error() {
    let columns = vec![ColumnDef::String("name".to_string())];
    let json_filters = vec![JsonFilter {
        n: "missing".to_string(),
        f: "=".to_string(),
        v: "x".to_string(),
        c: None,
    }];
    let r = FilteringOptions::from_json_filters(&json_filters, columns);
    assert!(matches!(r, Err(FilterError::ColumnNotFound { .. })));
}

#[test]
fn test_invalid_operator_error() {
    let def = ColumnDef::String("name".to_string());
    let r = def.to_filter_condition("BOGUS", "x");
    assert!(matches!(r, Err(FilterError::InvalidOperator { .. })));
}

#[test]
fn test_invalid_value_errors() {
    let def = ColumnDef::UInt8("age".to_string());
    assert!(matches!(
        def.to_filter_condition("=", "300"),
        Err(FilterError::InvalidValue { .. })
    ));
    assert!(matches!(
        def.to_filter_condition("=", "abc"),
        Err(FilterError::InvalidValue { .. })
    ));
    let def = ColumnDef::Boolean("active".to_string());
    assert!(matches!(
        def.to_filter_condition("=", "maybe"),
        Err(FilterError::InvalidValue { .. })
    ));
    let def = ColumnDef::Float64("score".to_string());
    assert!(matches!(
        def.to_filter_condition("=", "1.2.3"),
        Err(FilterError::InvalidValue { .. })
    ));
}

#[test]
fn test_invalid_date_range_error() {
    let def = ColumnDef::Date("d".to_string());
    assert!(matches!(
        def.to_filter_condition("DATE_RANGE", "2022-01-01"),
        Err(FilterError::InvalidDateRange { .. })
    ));
    let ok = def
        .to_filter_condition("DATE_RANGE", "2022-01-01, 2022-02-01")
        .unwrap();
    assert_eq!(
        ok.to_sql(false).unwrap(),
        "d BETWEEN '2022-01-01' AND '2022-02-01'"
    );
}

#[test]
fn test_array_column_rejects_other_operators() {
    let def = ColumnDef::ArrayString("tags".to_string());
    let err = def.to_filter_condition("=", "x").unwrap_err();
    assert!(matches!(err, FilterError::UnsupportedOperator { .. }));
    assert_eq!(err.message(), "unsupported operator = for array type");
}

#[test]
fn test_parse_operator_defaults_to_equal() {
    assert_eq!(parse_operator("like"), FilterOperator::Like);
    assert_eq!(parse_operator(">="), FilterOperator::GreaterThanOrEqual);
    assert_eq!(parse_operator("nonsense"), FilterOperator::Equal);
    assert_eq!(parse_operator("array has"), FilterOperator::ArrayHas);
}

#[test]
fn test_parse_operator_knows_not_like() {
    assert_eq!(parse_operator("NOT LIKE"), FilterOperator::NotLike);
    assert_eq!(parse_operator("not like"), FilterOperator::NotLike);
}

#[test]
fn test_grouper_inlines_single_member_run() {
    let columns = vec![
        ColumnDef::UInt32("age".to_string()),
        ColumnDef::UInt8("active".to_string()),
    ];
    // a one-member run closed by an operator switch degenerates to the bare
    // condition: no parentheses of its own
    let json_filters = vec![
        JsonFilter {
            n: "age".to_string(),
            f: ">".to_string(),
            v: "25".to_string(),
            c: Some("OR".to_string()),
        },
        JsonFilter {
            n: "active".to_string(),
            f: "=".to_string(),
            v: "1".to_string(),
            c: Some("AND".to_string()),
        },
    ];
    let filtering = FilteringOptions::from_json_filters(&json_filters, columns).unwrap();
    assert_eq!(
        filtering.unwrap().to_sql().unwrap(),
        " WHERE (age > 25 AND active = 1)"
    );
}

#[test]
fn test_grouper_operator_switch_keeps_long_runs_grouped() {
    let columns = vec![
        ColumnDef::UInt32("age".to_string()),
        ColumnDef::UInt8("active".to_string()),
        ColumnDef::String("name".to_string()),
    ];
    let json_filters = vec![
        JsonFilter {
            n: "age".to_string(),
            f: "<".to_string(),
            v: "25".to_string(),
            c: Some("OR".to_string()),
        },
        JsonFilter {
            n: "active".to_string(),
            f: "=".to_string(),
            v: "1".to_string(),
            c: Some("AND".to_string()),
        },
        JsonFilter {
            n: "name".to_string(),
            f: "=".to_string(),
            v: "x".to_string(),
            c: None,
        },
    ];
    let filtering = FilteringOptions::from_json_filters(&json_filters, columns).unwrap();
    assert_eq!(
        filtering.unwrap().to_sql().unwrap(),
        " WHERE (age < 25 AND (active = 1 AND lower(name) = lower('x')))"
    );
}

#[test]
fn test_date_range_variants_render() {
    let cond = FilterCondition::date_exact("ts", "2022-01-01 00:00:00");
    assert_eq!(cond.to_sql(false).unwrap(), "ts = '2022-01-01 00:00:00'");
    let cond = FilterCondition::date_only("ts", "2022-01-01");
    assert_eq!(
        cond.to_sql(false).unwrap(),
        "toDate(ts) = toDate('2022-01-01')"
    );
    let cond = FilterCondition::relative_date("ts", "now() - INTERVAL 7 DAY");
    assert_eq!(cond.to_sql(false).unwrap(), "ts > now() - INTERVAL 7 DAY");
}

#[test]
fn test_uuid_in_list_is_unescaped() {
    let cond = FilterCondition::uuid("id", FilterOperator::In, Some("a-1, b-2"));
    assert_eq!(cond.to_sql(false).unwrap(), "id IN ('a-1', 'b-2')");
}

#[test]
fn test_json_path_rendering() {
    let cond = FilterCondition::json("data", FilterOperator::Equal, Some("John"), Some("user"));
    assert_eq!(
        cond.to_sql(false).unwrap(),
        "JSONExtractString(data, 'user') = 'John'"
    );
    assert_eq!(
        cond.to_sql(true).unwrap(),
        "lower(JSONExtractString(data, 'user')) = lower('John')"
    );
}

#[test]
fn test_boolean_renders_one_and_zero() {
    let cond = FilterCondition::boolean("active", FilterOperator::Equal, Some(true));
    assert_eq!(cond.to_sql(false).unwrap(), "active = 1");
    let cond = FilterCondition::boolean("active", FilterOperator::NotEqual, Some(false));
    assert_eq!(cond.to_sql(false).unwrap(), "active != 0");
}

#[test]
fn test_coercion_parses_bounds() {
    let def = ColumnDef::UInt8("n".to_string());
    let cond = def.to_filter_condition("=", "255").unwrap();
    assert_eq!(cond.to_sql(false).unwrap(), "n = 255");
    let def = ColumnDef::Int8("n".to_string());
    let cond = def.to_filter_condition("=", "-128").unwrap();
    assert_eq!(cond.to_sql(false).unwrap(), "n = -128");
    let def = ColumnDef::Int64("n".to_string());
    let cond = def.to_filter_condition("=", "+42").unwrap();
    assert_eq!(cond.to_sql(false).unwrap(), "n = 42");
}

#[test]
fn test_error_messages_name_the_input() {
    let def = ColumnDef::UInt8("age".to_string());
    let err = def.to_filter_condition("=", "300").unwrap_err();
    assert!(err.message().contains("300"));
    let err = def.to_filter_condition("HUH", "1").unwrap_err();
    assert!(err.message().contains("HUH"));
}
