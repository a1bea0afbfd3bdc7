use clickhouse_filters::filtering::JsonFilter;
use clickhouse_filters::{ColumnDef, FilteringOptions};

#[test]
fn json_filter_test_test_basic_json_filter() {
    let columns = vec![
        ColumnDef::String("name".to_string()),
        ColumnDef::UInt32("age".to_string()),
    ];

    let json_filters = vec![JsonFilter {
        n: "age".to_string(),
        f: ">".to_string(),
        v: "25".to_string(),
        c: None,
    }];

    let filtering = FilteringOptions::from_json_filters(&json_filters, columns).unwrap();

    assert_eq!(filtering.unwrap().to_sql().unwrap(), " WHERE age > 25");
}

#[test]
fn test_multiple_json_filters_with_and() {
    let columns = vec![
        ColumnDef::String("name".to_string()),
        ColumnDef::UInt32("age".to_string()),
        ColumnDef::UInt8("active".to_string()),
    ];

    let json_filters = vec![
        JsonFilter {
            n: "age".to_string(),
            f: ">".to_string(),
            v: "25".to_string(),
            c: Some("AND".to_string()),
        },
        JsonFilter {
            n: "active".to_string(),
            f: "=".to_string(),
            v: "1".to_string(),
            c: None,
        },
    ];

    let filtering = FilteringOptions::from_json_filters(&json_filters, columns).unwrap();

    assert_eq!(
        filtering.unwrap().to_sql().unwrap(),
        " WHERE (age > 25 AND active = 1)"
    );
}

#[test]
fn test_multiple_json_filters_with_or() {
    let columns = vec![
        ColumnDef::String("name".to_string()),
        ColumnDef::UInt32("age".to_string()),
        ColumnDef::UInt8("active".to_string()),
    ];

    let json_filters = vec![
        JsonFilter {
            n: "age".to_string(),
            f: "<".to_string(),
            v: "25".to_string(),
            c: Some("OR".to_string()),
        },
        JsonFilter {
            n: "active".to_string(),
            f: "=".to_string(),
            v: "0".to_string(),
            c: None,
        },
    ];

    let filtering = FilteringOptions::from_json_filters(&json_filters, columns).unwrap();

    assert_eq!(
        filtering.unwrap().to_sql().unwrap(),
        " WHERE (age < 25 OR active = 0)"
    );
}

#[test]
fn test_json_filter_with_like() {
    let columns = vec![ColumnDef::String("name".to_string())];

    let json_filters = vec![JsonFilter {
        n: "name".to_string(),
        f: "LIKE".to_string(),
        v: "%John%".to_string(),
        c: None,
    }];

    let filtering = FilteringOptions::from_json_filters(&json_filters, columns).unwrap();

    assert_eq!(
        filtering.unwrap().to_sql().unwrap(),
        " WHERE lower(name) LIKE lower('%John%')"
    );
}

#[test]
fn test_json_filter_with_array() {
    let columns = vec![ColumnDef::ArrayString("tags".to_string())];

    let json_filters = vec![JsonFilter {
        n: "tags".to_string(),
        f: "ARRAY HAS".to_string(),
        v: "developer".to_string(),
        c: None,
    }];

    let filtering = FilteringOptions::from_json_filters(&json_filters, columns).unwrap();

    assert_eq!(
        filtering.unwrap().to_sql().unwrap(),
        " WHERE has(tags, 'developer')"
    );
}

#[test]
fn test_json_filter_with_in_operator() {
    let columns = vec![ColumnDef::String("status".to_string())];

    let json_filters = vec![JsonFilter {
        n: "status".to_string(),
        f: "IN".to_string(),
        v: "active,pending,processing".to_string(),
        c: None,
    }];

    let filtering = FilteringOptions::from_json_filters(&json_filters, columns).unwrap();

    let sql = filtering.unwrap().to_sql().unwrap();
    assert!(sql.contains("status"));
    assert!(sql.contains("IN"));
    assert!(sql.contains("active"));
    assert!(sql.contains("pending"));
    assert!(sql.contains("processing"));
}

#[test]
fn test_json_filter_with_json_path() {
    let columns = vec![ColumnDef::JSON("data".to_string())];

    let json_filters = vec![JsonFilter {
        n: "data".to_string(),
        f: "=".to_string(),
        v: "user.profile.name.John".to_string(),
        c: None,
    }];

    let filtering = FilteringOptions::from_json_filters(&json_filters, columns).unwrap();

    let sql = filtering.unwrap().to_sql().unwrap();
    println!("JSON path SQL: {}", sql);
    assert!(sql.contains("JSONExtractString"));
    assert!(sql.contains("data"));
    assert!(sql.contains("user"));
}

#[test]
fn test_json_filter_with_is_null() {
    let columns = vec![ColumnDef::JSON("data".to_string())];

    let json_filters = vec![JsonFilter {
        n: "data".to_string(),
        f: "IS NULL".to_string(),
        v: "".to_string(),
        c: None,
    }];

    let filtering = FilteringOptions::from_json_filters(&json_filters, columns).unwrap();

    let sql = filtering.unwrap().to_sql().unwrap();
    assert!(sql.contains("data IS NULL"));
}

#[test]
fn test_complex_nested_json_filters() {
    let columns = vec![
        ColumnDef::JSON("data".to_string()),
        ColumnDef::JSON("metadata".to_string()),
    ];

    let json_filters = vec![
        JsonFilter {
            n: "data".to_string(),
            f: "=".to_string(),
            v: "user.profile.active.true".to_string(),
            c: Some("AND".to_string()),
        },
        JsonFilter {
            n: "metadata".to_string(),
            f: "=".to_string(),
            v: "tags.premium".to_string(),
            c: None,
        },
    ];

    let filtering = FilteringOptions::from_json_filters(&json_filters, columns).unwrap();

    let sql = filtering.unwrap().to_sql().unwrap();
    println!("Generated SQL: {}", sql);
    assert!(sql.contains("JSONExtractString"));
    assert!(sql.contains("JSONExtractString(data"));
    assert!(sql.contains("JSONExtractString(metadata"));
    assert!(sql.contains("AND"));
}

#[test]
fn test_complex_json_filters() {
    let columns = vec![
        ColumnDef::String("name".to_string()),
        ColumnDef::UInt32("age".to_string()),
        ColumnDef::Float64("score".to_string()),
        ColumnDef::UInt8("active".to_string()),
    ];

    let json_filters = vec![
        JsonFilter {
            n: "name".to_string(),
            f: "LIKE".to_string(),
            v: "%John%".to_string(),
            c: Some("AND".to_string()),
        },
        JsonFilter {
            n: "age".to_string(),
            f: ">".to_string(),
            v: "25".to_string(),
            c: Some("OR".to_string()),
        },
        JsonFilter {
            n: "score".to_string(),
            f: ">".to_string(),
            v: "90".to_string(),
            c: Some("AND".to_string()),
        },
        JsonFilter {
            n: "active".to_string(),
            f: "=".to_string(),
            v: "1".to_string(),
            c: None,
        },
    ];

    let filtering = FilteringOptions::from_json_filters(&json_filters, columns).unwrap();

    let sql = filtering.unwrap().to_sql().unwrap();
    println!("Generated complex SQL: {}", sql);

    assert!(sql.contains("LIKE") || sql.contains("like"));
    assert!(sql.contains("25"));
    assert!(sql.contains("90"));
    assert!(sql.contains("active") || sql.contains("1"));
}
