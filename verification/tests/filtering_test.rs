use clickhouse_filters::filtering::{
    ColumnTypeInfo, FilterCondition, FilterExpression, FilterOperator,
};
use clickhouse_filters::{ColumnDef, FilteringOptions};

#[test]
fn test_basic_string_filter() {
    let columns = vec![ColumnDef::String("name".to_string())];

    let filter_expr = FilterExpression::Condition(FilterCondition::string(
        "name",
        FilterOperator::Equal,
        Some("John Smith"),
    ));

    let filtering = FilteringOptions::new(vec![filter_expr], columns);

    assert_eq!(
        filtering.to_sql().unwrap(),
        " WHERE lower(name) = lower('John Smith')"
    );
}

#[test]
fn test_numeric_filter() {
    let columns = vec![ColumnDef::UInt32("age".to_string())];

    let filter_expr = FilterExpression::Condition(FilterCondition::uint32(
        "age",
        FilterOperator::GreaterThan,
        Some(25),
    ));

    let filtering = FilteringOptions::new(vec![filter_expr], columns);

    assert_eq!(filtering.to_sql().unwrap(), " WHERE age > 25");
}

#[test]
fn test_and_condition() {
    let columns = vec![
        ColumnDef::UInt32("age".to_string()),
        ColumnDef::UInt8("active".to_string()),
    ];

    let age_condition = FilterCondition::uint32("age", FilterOperator::GreaterThan, Some(25));
    let active_condition = FilterCondition::uint8("active", FilterOperator::Equal, Some(1));

    let and_expr = FilterExpression::and(vec![
        FilterExpression::Condition(age_condition),
        FilterExpression::Condition(active_condition),
    ]);

    let filtering = FilteringOptions::new(vec![and_expr], columns);

    assert_eq!(
        filtering.to_sql().unwrap(),
        " WHERE (age > 25 AND active = 1)"
    );
}

#[test]
fn test_or_condition() {
    let columns = vec![
        ColumnDef::UInt32("age".to_string()),
        ColumnDef::Float64("score".to_string()),
    ];

    let age_condition = FilterCondition::uint32("age", FilterOperator::GreaterThan, Some(30));
    let score_condition = FilterCondition::float64("score", FilterOperator::GreaterThan, Some("90"));

    let or_expr = FilterExpression::or(vec![
        FilterExpression::Condition(age_condition),
        FilterExpression::Condition(score_condition),
    ]);

    let filtering = FilteringOptions::new(vec![or_expr], columns);

    assert_eq!(
        filtering.to_sql().unwrap(),
        " WHERE (age > 30 OR score > 90)"
    );
}

#[test]
fn test_complex_condition() {
    let columns = vec![
        ColumnDef::String("name".to_string()),
        ColumnDef::UInt32("age".to_string()),
        ColumnDef::Float64("score".to_string()),
    ];

    let name_condition = FilterCondition::string("name", FilterOperator::Like, Some("%John%"));
    let age_condition = FilterCondition::uint32("age", FilterOperator::GreaterThan, Some(25));
    let score_condition = FilterCondition::float64("score", FilterOperator::GreaterThan, Some("90"));

    let name_and_age = FilterExpression::and(vec![
        FilterExpression::Condition(name_condition),
        FilterExpression::Condition(age_condition),
    ]);

    let complex_expr = FilterExpression::or(vec![
        name_and_age,
        FilterExpression::Condition(score_condition),
    ]);

    let filtering = FilteringOptions::new(vec![complex_expr], columns);

    assert_eq!(
        filtering.to_sql().unwrap(),
        " WHERE ((lower(name) LIKE lower('%John%') AND age > 25) OR score > 90)"
    );
}

#[test]
fn test_array_filter_has() {
    let columns = vec![ColumnDef::ArrayString("tags".to_string())];

    let filter_expr = FilterExpression::Condition(FilterCondition::array_has("tags", "developer"));

    let filtering = FilteringOptions::new(vec![filter_expr], columns);

    assert_eq!(filtering.to_sql().unwrap(), " WHERE has(tags, 'developer')");
}

#[test]
fn test_array_filter_contains_all() {
    let columns = vec![ColumnDef::ArrayString("tags".to_string())];

    let filter_expr = FilterExpression::Condition(FilterCondition::array_contains("tags", "developer,rust"));

    let filtering = FilteringOptions::new(vec![filter_expr], columns);

    assert_eq!(
        filtering.to_sql().unwrap(),
        " WHERE hasAll(tags, array['developer', 'rust'])"
    );
}

#[test]
fn test_array_filter_with_special_chars() {
    let columns = vec![ColumnDef::ArrayString("tags".to_string())];

    let filter_expr = FilterExpression::Condition(FilterCondition::array_has("tags", "special'value"));

    let filtering = FilteringOptions::new(vec![filter_expr], columns);

    assert_eq!(
        filtering.to_sql().unwrap(),
        " WHERE has(tags, 'special''value')"
    );
}

#[test]
fn test_is_null_filter() {
    let columns = vec![ColumnDef::String("email".to_string())];

    let filter_expr = FilterExpression::Condition(FilterCondition::string(
        "email",
        FilterOperator::IsNull,
        None,
    ));

    let filtering = FilteringOptions::new(vec![filter_expr], columns);

    assert_eq!(filtering.to_sql().unwrap(), " WHERE email IS NULL");
}

#[test]
fn test_multiple_filters() {
    let columns = vec![
        ColumnDef::String("name".to_string()),
        ColumnDef::UInt32("age".to_string()),
    ];

    let name_expr = FilterExpression::Condition(FilterCondition::string(
        "name",
        FilterOperator::Like,
        Some("%John%"),
    ));

    let age_expr = FilterExpression::Condition(FilterCondition::uint32(
        "age",
        FilterOperator::GreaterThan,
        Some(25),
    ));

    let filtering = FilteringOptions::new(vec![name_expr, age_expr], columns);

    assert_eq!(
        filtering.to_sql().unwrap(),
        " WHERE (lower(name) LIKE lower('%John%') AND age > 25)"
    );
}

#[test]
fn test_deeply_nested_expressions() {
    let columns = vec![
        ColumnDef::String("name".to_string()),
        ColumnDef::UInt32("age".to_string()),
        ColumnDef::Float64("score".to_string()),
        ColumnDef::UInt8("active".to_string()),
        ColumnDef::String("status".to_string()),
    ];

    let name_condition = FilterCondition::string("name", FilterOperator::Like, Some("%John%"));
    let age_condition = FilterCondition::uint32("age", FilterOperator::GreaterThan, Some(25));
    let inner_group1 = FilterExpression::and(vec![
        FilterExpression::Condition(name_condition),
        FilterExpression::Condition(age_condition),
    ]);

    let score_condition = FilterCondition::float64("score", FilterOperator::GreaterThan, Some("90"));
    let active_condition = FilterCondition::uint8("active", FilterOperator::Equal, Some(1));
    let inner_group2 = FilterExpression::and(vec![
        FilterExpression::Condition(score_condition),
        FilterExpression::Condition(active_condition),
    ]);

    let or_group = FilterExpression::or(vec![inner_group1, inner_group2]);

    let status_condition = FilterCondition::in_values(
        "status",
        FilterOperator::In,
        vec!["active".to_string(), "pending".to_string()],
        Some(ColumnTypeInfo::String),
    );

    let final_expr = FilterExpression::and(vec![
        or_group,
        FilterExpression::Condition(status_condition),
    ]);

    let filtering = FilteringOptions::new(vec![final_expr], columns);

    let sql = filtering.to_sql().unwrap();
    assert!(sql.contains("(("));
    assert!(sql.contains("OR"));
    assert!(sql.contains("AND"));
    assert!(sql.contains("IN"));
    assert!(sql.contains("name"));
    assert!(sql.contains("age"));
    assert!(sql.contains("score"));
    assert!(sql.contains("active"));
    assert!(sql.contains("status"));
}

#[test]
fn test_empty_array_value() {
    let columns = vec![ColumnDef::ArrayString("tags".to_string())];

    let filter_expr = FilterExpression::Condition(FilterCondition::array_has("tags", ""));

    let filtering = FilteringOptions::new(vec![filter_expr], columns);

    assert_eq!(filtering.to_sql().unwrap(), " WHERE has(tags, '')");
}

#[test]
fn test_null_handling_with_multiple_conditions() {
    let columns = vec![
        ColumnDef::String("name".to_string()),
        ColumnDef::String("email".to_string()),
        ColumnDef::UInt32("age".to_string()),
    ];

    let name_condition = FilterCondition::string("name", FilterOperator::IsNotNull, None);

    let email_condition = FilterCondition::string("email", FilterOperator::IsNull, None);
    let age_condition = FilterCondition::uint32("age", FilterOperator::GreaterThan, Some(25));

    let or_group = FilterExpression::or(vec![
        FilterExpression::Condition(email_condition),
        FilterExpression::Condition(age_condition),
    ]);

    let final_expr =
        FilterExpression::and(vec![FilterExpression::Condition(name_condition), or_group]);

    let filtering = FilteringOptions::new(vec![final_expr], columns);

    let sql = filtering.to_sql().unwrap();
    assert!(sql.contains("name IS NOT NULL"));
    assert!(sql.contains("email IS NULL"));
    assert!(sql.contains("age > 25"));
    assert!(sql.contains("AND"));
    assert!(sql.contains("OR"));
}
