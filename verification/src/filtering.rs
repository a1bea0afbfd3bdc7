//! The filter model and its SQL renderer: typed leaf conditions, the
//! AND/OR expression tree, the builder that folds a flat connector-annotated
//! filter list into a tree, and the rendering rules that turn each of them
//! into a ClickHouse WHERE fragment.

use crate::text::{
    dec_int, dec_nat, eq_ci, escape_seq, i64_str, is_float_lit, is_float_literal, join_sep,
    split_char, split_trim, str_eq_ci, trim_seq, u64_str, views_of,
};
use vstd::prelude::*;

verus! {

/// Coarse column classification used when rendering multi-value IN lists:
/// only a string-typed column has its elements quoted unconditionally.
#[derive(Debug, Clone, Copy, PartialEq, Eq, Structural)]
pub enum ColumnTypeInfo {
    String,
    Numeric,
    UUID,
    Date,
    Boolean,
    Array,
    JSON,
    Other,
}

/// Logical operators combining filter expressions.
#[derive(Debug, Clone, Copy, PartialEq, Eq, Structural)]
pub enum LogicalOperator {
    And,
    Or,
}

/// The SQL keyword of a logical operator.
pub open spec fn logical_sql(op: LogicalOperator) -> Seq<char> {
    match op {
        LogicalOperator::And => "AND"@,
        LogicalOperator::Or => "OR"@,
    }
}

impl LogicalOperator {
    /// The SQL keyword of this operator.
    pub fn as_sql(&self) -> (r: &'static str)
        ensures
            r@ == logical_sql(*self),
    {
        match self {
            LogicalOperator::And => "AND",
            LogicalOperator::Or => "OR",
        }
    }
}

/// Comparison and matching operators of a filter condition.
#[derive(Debug, Clone, Copy, PartialEq, Eq, Structural)]
pub enum FilterOperator {
    Equal,
    NotEqual,
    GreaterThan,
    GreaterThanOrEqual,
    LessThan,
    LessThanOrEqual,
    Like,
    NotLike,
    In,
    NotIn,
    IsNull,
    IsNotNull,
    StartsWith,
    EndsWith,
    ArrayContains,
    ArrayHas,
    ArrayAll,
    ArrayAny,
    DateEqual,
    DateRange,
    RelativeDate,
}

/// The SQL spelling of a filter operator.
pub open spec fn op_sql(op: FilterOperator) -> Seq<char> {
    match op {
        FilterOperator::Equal => "="@,
        FilterOperator::NotEqual => "!="@,
        FilterOperator::GreaterThan => ">"@,
        FilterOperator::GreaterThanOrEqual => ">="@,
        FilterOperator::LessThan => "<"@,
        FilterOperator::LessThanOrEqual => "<="@,
        FilterOperator::Like => "LIKE"@,
        FilterOperator::NotLike => "NOT LIKE"@,
        FilterOperator::In => "IN"@,
        FilterOperator::NotIn => "NOT IN"@,
        FilterOperator::IsNull => "IS NULL"@,
        FilterOperator::IsNotNull => "IS NOT NULL"@,
        FilterOperator::StartsWith => "LIKE"@,
        FilterOperator::EndsWith => "LIKE"@,
        FilterOperator::ArrayContains => "hasAll"@,
        FilterOperator::ArrayHas => "has"@,
        FilterOperator::ArrayAll => "ALL"@,
        FilterOperator::ArrayAny => "ANY"@,
        FilterOperator::DateEqual => "="@,
        FilterOperator::DateRange => "BETWEEN"@,
        FilterOperator::RelativeDate => ">"@,
    }
}

impl FilterOperator {
    /// The SQL spelling of this operator; `StartsWith` and `EndsWith` spell
    /// as `LIKE` and rely on `format_value` for the `%` wildcard.
    pub fn as_sql(&self) -> (r: &'static str)
        ensures
            r@ == op_sql(*self),
    {
        match self {
            FilterOperator::Equal => "=",
            FilterOperator::NotEqual => "!=",
            FilterOperator::GreaterThan => ">",
            FilterOperator::GreaterThanOrEqual => ">=",
            FilterOperator::LessThan => "<",
            FilterOperator::LessThanOrEqual => "<=",
            FilterOperator::Like => "LIKE",
            FilterOperator::NotLike => "NOT LIKE",
            FilterOperator::In => "IN",
            FilterOperator::NotIn => "NOT IN",
            FilterOperator::IsNull => "IS NULL",
            FilterOperator::IsNotNull => "IS NOT NULL",
            FilterOperator::StartsWith => "LIKE",
            FilterOperator::EndsWith => "LIKE",
            FilterOperator::ArrayContains => "hasAll",
            FilterOperator::ArrayHas => "has",
            FilterOperator::ArrayAll => "ALL",
            FilterOperator::ArrayAny => "ANY",
            FilterOperator::DateEqual => "=",
            FilterOperator::DateRange => "BETWEEN",
            FilterOperator::RelativeDate => ">",
        }
    }

    /// Wraps a literal with the implicit `%` wildcard of `StartsWith` and
    /// `EndsWith`; any other operator passes the literal through.
    pub fn format_value(&self, value: &str) -> (r: String)
        ensures
            r@ == match *self {
                FilterOperator::StartsWith => value@ + "%"@,
                FilterOperator::EndsWith => "%"@ + value@,
                _ => value@,
            },
    {
        match self {
            FilterOperator::StartsWith => {
                let mut s = value.to_owned();
                s.append("%");
                s
            },
            FilterOperator::EndsWith => {
                let mut s = String::new();
                s.append("%");
                s.append(value);
                s
            },
            _ => value.to_owned(),
        }
    }
}

/// The four shapes of a date-range condition.
#[derive(Debug)]
pub enum DateRangeType {
    /// Exact timestamp match.
    Exact(String),
    /// Match an entire day.
    DateOnly(String),
    /// Explicit start/end range.
    Range { start: String, end: String },
    /// A raw dialect date expression, inserted unescaped.
    Relative(String),
}

/// A single typed column comparison: the leaf of the filter tree.
#[derive(Debug)]
pub enum FilterCondition {
    StringValue { column: String, operator: FilterOperator, value: Option<String> },
    FixedStringValue { column: String, operator: FilterOperator, value: Option<String> },
    UInt8Value { column: String, operator: FilterOperator, value: Option<u8> },
    UInt16Value { column: String, operator: FilterOperator, value: Option<u16> },
    UInt32Value { column: String, operator: FilterOperator, value: Option<u32> },
    UInt64Value { column: String, operator: FilterOperator, value: Option<u64> },
    Int8Value { column: String, operator: FilterOperator, value: Option<i8> },
    Int16Value { column: String, operator: FilterOperator, value: Option<i16> },
    Int32Value { column: String, operator: FilterOperator, value: Option<i32> },
    Int64Value { column: String, operator: FilterOperator, value: Option<i64> },
    /// The value is the literal's decimal text; floating-point values are
    /// carried as text so that rendering is exact.
    Float32Value { column: String, operator: FilterOperator, value: Option<String> },
    /// The value is the literal's decimal text, as for `Float32Value`.
    Float64Value { column: String, operator: FilterOperator, value: Option<String> },
    DateValue { column: String, operator: FilterOperator, value: Option<String> },
    DateTimeValue { column: String, operator: FilterOperator, value: Option<String> },
    DateTime64Value { column: String, operator: FilterOperator, value: Option<String> },
    DateRange { column: String, range_type: DateRangeType },
    BooleanValue { column: String, operator: FilterOperator, value: Option<bool> },
    UUIDValue { column: String, operator: FilterOperator, value: Option<String> },
    InValues {
        column: String,
        operator: FilterOperator,
        values: Vec<String>,
        column_type: Option<ColumnTypeInfo>,
    },
    ArrayContains { column: String, operator: FilterOperator, value: String },
    ArrayHas { column: String, operator: FilterOperator, value: String },
    JSONValue {
        column: String,
        operator: FilterOperator,
        value: Option<String>,
        path: Option<String>,
    },
}

// ---------------------------------------------------------------------------
// Rendering rules, stated as spec functions over character sequences.
// ---------------------------------------------------------------------------

/// The view of an optional string.
pub open spec fn opt_view(v: Option<String>) -> Option<Seq<char>> {
    match v {
        Some(s) => Some(s@),
        None => None,
    }
}

/// A single-quoted, escaped SQL string literal.
pub open spec fn quoted(v: Seq<char>) -> Seq<char> {
    "'"@ + escape_seq(v) + "'"@
}

/// An operand wrapped in the case-folding function.
pub open spec fn lowered(x: Seq<char>) -> Seq<char> {
    "lower("@ + x + ")"@
}

/// `column op rhs` with single spaces.
pub open spec fn cmp_sql(col: Seq<char>, op: FilterOperator, rhs: Seq<char>) -> Seq<char> {
    col + " "@ + op_sql(op) + " "@ + rhs
}

/// The comma-split, trimmed pieces of a multi-value literal.
pub open spec fn trimmed_pieces(v: Seq<char>) -> Seq<Seq<char>> {
    split_char(v, ',').map_values(|p: Seq<char>| trim_seq(p))
}

/// Pieces quoted and escaped, joined with `, `.
pub open spec fn quoted_join(ps: Seq<Seq<char>>) -> Seq<char> {
    join_sep(ps.map_values(|p: Seq<char>| quoted(p)), ", "@)
}

/// Pieces quoted, escaped and case-folded, joined with `, `.
pub open spec fn lowered_quoted_join(ps: Seq<Seq<char>>) -> Seq<char> {
    join_sep(ps.map_values(|p: Seq<char>| lowered(quoted(p))), ", "@)
}

/// Pieces quoted without escaping, joined with `, `.
pub open spec fn raw_quoted_join(ps: Seq<Seq<char>>) -> Seq<char> {
    join_sep(ps.map_values(|p: Seq<char>| "'"@ + p + "'"@), ", "@)
}

/// Pieces left bare when shaped like numbers, else quoted and escaped,
/// joined with `, `.
pub open spec fn sniffed_join(ps: Seq<Seq<char>>) -> Seq<char> {
    join_sep(
        ps.map_values(
            |p: Seq<char>|
                if is_float_lit(p) {
                    p
                } else {
                    quoted(p)
                },
        ),
        ", "@,
    )
}

/// Whether the string family accepts `op` with this value.
pub open spec fn string_cond_ok(op: FilterOperator, value: Option<Seq<char>>) -> bool {
    match op {
        FilterOperator::Equal
        | FilterOperator::NotEqual
        | FilterOperator::Like
        | FilterOperator::NotLike => value is Some,
        FilterOperator::StartsWith | FilterOperator::EndsWith => true,
        FilterOperator::In | FilterOperator::NotIn => value is Some,
        FilterOperator::IsNull | FilterOperator::IsNotNull => true,
        _ => false,
    }
}

/// The error reported when the string family rejects `op`/`value`.
pub open spec fn string_cond_err(op: FilterOperator) -> FilterError {
    match op {
        FilterOperator::Equal
        | FilterOperator::NotEqual
        | FilterOperator::Like
        | FilterOperator::NotLike => FilterError::MissingValue,
        FilterOperator::In | FilterOperator::NotIn => FilterError::MissingInValues,
        _ => FilterError::UnsupportedOperator { family: TypeFamily::Text, operator: op },
    }
}

/// The SQL of a string-family condition (meaningful when accepted).
pub open spec fn string_cond_sql(
    col: Seq<char>,
    op: FilterOperator,
    value: Option<Seq<char>>,
    ci: bool,
) -> Seq<char> {
    match op {
        FilterOperator::Equal
        | FilterOperator::NotEqual
        | FilterOperator::Like
        | FilterOperator::NotLike => {
            let v = value->Some_0;
            if ci {
                cmp_sql(lowered(col), op, lowered(quoted(v)))
            } else {
                cmp_sql(col, op, quoted(v))
            }
        },
        FilterOperator::StartsWith => match value {
            Some(v) => if ci {
                lowered(col) + " LIKE "@ + lowered("'"@ + escape_seq(v) + "%'"@)
            } else {
                col + " LIKE '"@ + escape_seq(v) + "%'"@
            },
            None => col + " LIKE '%'"@,
        },
        FilterOperator::EndsWith => match value {
            Some(v) => if ci {
                lowered(col) + " LIKE "@ + lowered("'%"@ + escape_seq(v) + "'"@)
            } else {
                col + " LIKE '%"@ + escape_seq(v) + "'"@
            },
            None => col + " LIKE '%'"@,
        },
        FilterOperator::In => {
            let ps = trimmed_pieces(value->Some_0);
            if ci {
                lowered(col) + " IN ("@ + lowered_quoted_join(ps) + ")"@
            } else {
                col + " IN ("@ + quoted_join(ps) + ")"@
            }
        },
        FilterOperator::NotIn => {
            let ps = trimmed_pieces(value->Some_0);
            if ci {
                lowered(col) + " NOT IN ("@ + lowered_quoted_join(ps) + ")"@
            } else {
                col + " NOT IN ("@ + quoted_join(ps) + ")"@
            }
        },
        FilterOperator::IsNull => col + " IS NULL"@,
        FilterOperator::IsNotNull => col + " IS NOT NULL"@,
        _ => Seq::empty(),
    }
}

/// Whether the numeric families accept `op` with a value present or not.
pub open spec fn numeric_cond_ok(op: FilterOperator, has_value: bool) -> bool {
    match op {
        FilterOperator::Equal
        | FilterOperator::NotEqual
        | FilterOperator::GreaterThan
        | FilterOperator::GreaterThanOrEqual
        | FilterOperator::LessThan
        | FilterOperator::LessThanOrEqual => has_value,
        FilterOperator::In | FilterOperator::NotIn => has_value,
        FilterOperator::IsNull | FilterOperator::IsNotNull => true,
        _ => false,
    }
}

/// The error reported when an integer family rejects `op`/`value`.
pub open spec fn numeric_cond_err(op: FilterOperator) -> FilterError {
    match op {
        FilterOperator::Equal
        | FilterOperator::NotEqual
        | FilterOperator::GreaterThan
        | FilterOperator::GreaterThanOrEqual
        | FilterOperator::LessThan
        | FilterOperator::LessThanOrEqual => FilterError::MissingValue,
        FilterOperator::In | FilterOperator::NotIn => FilterError::MissingInValues,
        _ => FilterError::UnsupportedOperator { family: TypeFamily::Integer, operator: op },
    }
}

/// The SQL of an integer-family condition whose value renders as the
/// decimal text `value` (when a value is present).
pub open spec fn numeric_cond_sql(
    col: Seq<char>,
    op: FilterOperator,
    value: Option<Seq<char>>,
) -> Seq<char> {
    match op {
        FilterOperator::Equal
        | FilterOperator::NotEqual
        | FilterOperator::GreaterThan
        | FilterOperator::GreaterThanOrEqual
        | FilterOperator::LessThan
        | FilterOperator::LessThanOrEqual => cmp_sql(col, op, value->Some_0),
        FilterOperator::In => col + " IN ("@ + value->Some_0 + ")"@,
        FilterOperator::NotIn => col + " NOT IN ("@ + value->Some_0 + ")"@,
        FilterOperator::IsNull => col + " IS NULL"@,
        FilterOperator::IsNotNull => col + " IS NOT NULL"@,
        _ => Seq::empty(),
    }
}

/// Whether the float and date families accept `op` (comparisons and null
/// checks only).
pub open spec fn plain_cond_ok(op: FilterOperator, has_value: bool) -> bool {
    match op {
        FilterOperator::Equal
        | FilterOperator::NotEqual
        | FilterOperator::GreaterThan
        | FilterOperator::GreaterThanOrEqual
        | FilterOperator::LessThan
        | FilterOperator::LessThanOrEqual => has_value,
        FilterOperator::IsNull | FilterOperator::IsNotNull => true,
        _ => false,
    }
}

/// The error reported when the float or date family rejects `op`/`value`.
pub open spec fn plain_cond_err(op: FilterOperator, family: TypeFamily) -> FilterError {
    match op {
        FilterOperator::Equal
        | FilterOperator::NotEqual
        | FilterOperator::GreaterThan
        | FilterOperator::GreaterThanOrEqual
        | FilterOperator::LessThan
        | FilterOperator::LessThanOrEqual => FilterError::MissingValue,
        _ => FilterError::UnsupportedOperator { family, operator: op },
    }
}

/// The SQL of a float-family condition: the value text is inserted bare.
pub open spec fn float_cond_sql(
    col: Seq<char>,
    op: FilterOperator,
    value: Option<Seq<char>>,
) -> Seq<char> {
    match op {
        FilterOperator::Equal
        | FilterOperator::NotEqual
        | FilterOperator::GreaterThan
        | FilterOperator::GreaterThanOrEqual
        | FilterOperator::LessThan
        | FilterOperator::LessThanOrEqual => cmp_sql(col, op, value->Some_0),
        FilterOperator::IsNull => col + " IS NULL"@,
        FilterOperator::IsNotNull => col + " IS NOT NULL"@,
        _ => Seq::empty(),
    }
}

/// The SQL of a date-family condition: the value is single-quoted verbatim.
pub open spec fn date_cond_sql(
    col: Seq<char>,
    op: FilterOperator,
    value: Option<Seq<char>>,
) -> Seq<char> {
    match op {
        FilterOperator::Equal
        | FilterOperator::NotEqual
        | FilterOperator::GreaterThan
        | FilterOperator::GreaterThanOrEqual
        | FilterOperator::LessThan
        | FilterOperator::LessThanOrEqual => cmp_sql(col, op, "'"@ + value->Some_0 + "'"@),
        FilterOperator::IsNull => col + " IS NULL"@,
        FilterOperator::IsNotNull => col + " IS NOT NULL"@,
        _ => Seq::empty(),
    }
}

/// The SQL of a date-range condition.
pub open spec fn date_range_sql(col: Seq<char>, rt: DateRangeType) -> Seq<char> {
    match rt {
        DateRangeType::Exact(ts) => col + " = '"@ + ts@ + "'"@,
        DateRangeType::DateOnly(d) => "toDate("@ + col + ") = toDate('"@ + d@ + "')"@,
        DateRangeType::Range { start, end } => col + " BETWEEN '"@ + start@ + "' AND '"@ + end@
            + "'"@,
        DateRangeType::Relative(expr) => col + " > "@ + expr@,
    }
}

/// Whether the boolean family accepts `op`.
pub open spec fn bool_cond_ok(op: FilterOperator, has_value: bool) -> bool {
    match op {
        FilterOperator::Equal | FilterOperator::NotEqual => has_value,
        FilterOperator::IsNull | FilterOperator::IsNotNull => true,
        _ => false,
    }
}

/// The error reported when the boolean or JSON family rejects `op`/`value`.
pub open spec fn bool_cond_err(op: FilterOperator, family: TypeFamily) -> FilterError {
    match op {
        FilterOperator::Equal | FilterOperator::NotEqual => FilterError::MissingValue,
        _ => FilterError::UnsupportedOperator { family, operator: op },
    }
}

/// The SQL of a boolean condition: `1` for true, `0` for false.
pub open spec fn bool_cond_sql(col: Seq<char>, op: FilterOperator, value: Option<bool>) -> Seq<
    char,
> {
    match op {
        FilterOperator::Equal | FilterOperator::NotEqual => cmp_sql(
            col,
            op,
            if value->Some_0 {
                "1"@
            } else {
                "0"@
            },
        ),
        FilterOperator::IsNull => col + " IS NULL"@,
        FilterOperator::IsNotNull => col + " IS NOT NULL"@,
        _ => Seq::empty(),
    }
}

/// Whether the UUID family accepts `op`.
pub open spec fn uuid_cond_ok(op: FilterOperator, has_value: bool) -> bool {
    match op {
        FilterOperator::Equal | FilterOperator::NotEqual => has_value,
        FilterOperator::In | FilterOperator::NotIn => has_value,
        FilterOperator::IsNull | FilterOperator::IsNotNull => true,
        _ => false,
    }
}

/// The error reported when the UUID family rejects `op`/`value`.
pub open spec fn uuid_cond_err(op: FilterOperator) -> FilterError {
    match op {
        FilterOperator::Equal | FilterOperator::NotEqual => FilterError::MissingValue,
        FilterOperator::In | FilterOperator::NotIn => FilterError::MissingInValues,
        _ => FilterError::UnsupportedOperator { family: TypeFamily::Uuid, operator: op },
    }
}

/// The SQL of a UUID condition: values quoted verbatim, without escaping.
pub open spec fn uuid_cond_sql(
    col: Seq<char>,
    op: FilterOperator,
    value: Option<Seq<char>>,
) -> Seq<char> {
    match op {
        FilterOperator::Equal | FilterOperator::NotEqual => cmp_sql(
            col,
            op,
            "'"@ + value->Some_0 + "'"@,
        ),
        FilterOperator::In => col + " IN ("@ + raw_quoted_join(trimmed_pieces(value->Some_0))
            + ")"@,
        FilterOperator::NotIn => col + " NOT IN ("@ + raw_quoted_join(
            trimmed_pieces(value->Some_0),
        ) + ")"@,
        FilterOperator::IsNull => col + " IS NULL"@,
        FilterOperator::IsNotNull => col + " IS NOT NULL"@,
        _ => Seq::empty(),
    }
}

/// The column operand of a JSON condition: a `JSONExtractString` call when
/// a path is given, else the bare column.
pub open spec fn json_operand(col: Seq<char>, path: Option<Seq<char>>) -> Seq<char> {
    match path {
        Some(p) => "JSONExtractString("@ + col + ", '"@ + p + "')"@,
        None => col,
    }
}

/// The SQL of a JSON condition.
pub open spec fn json_cond_sql(
    col: Seq<char>,
    op: FilterOperator,
    value: Option<Seq<char>>,
    path: Option<Seq<char>>,
    ci: bool,
) -> Seq<char> {
    let jcol = json_operand(col, path);
    match op {
        FilterOperator::Equal | FilterOperator::NotEqual => {
            let v = value->Some_0;
            if ci {
                cmp_sql(lowered(jcol), op, lowered(quoted(v)))
            } else {
                cmp_sql(jcol, op, quoted(v))
            }
        },
        FilterOperator::IsNull => jcol + " IS NULL"@,
        FilterOperator::IsNotNull => jcol + " IS NOT NULL"@,
        _ => Seq::empty(),
    }
}

/// The SQL of a multi-value IN condition.
pub open spec fn in_values_sql(
    col: Seq<char>,
    op: FilterOperator,
    values: Seq<Seq<char>>,
    is_text: bool,
    ci: bool,
) -> Seq<char> {
    let formatted = if is_text {
        if ci {
            lowered_quoted_join(values)
        } else {
            quoted_join(values)
        }
    } else {
        sniffed_join(values)
    };
    let colname = if ci && is_text {
        lowered(col)
    } else {
        col
    };
    match op {
        FilterOperator::In => colname + " IN ("@ + formatted + ")"@,
        FilterOperator::NotIn => colname + " NOT IN ("@ + formatted + ")"@,
        _ => Seq::empty(),
    }
}

/// Whether `column_type` counts as text for IN-list quoting.
pub open spec fn is_text_type(t: Option<ColumnTypeInfo>) -> bool {
    t == Some(ColumnTypeInfo::String)
}

/// Whether rendering this condition succeeds.
pub open spec fn cond_ok(c: FilterCondition) -> bool {
    match c {
        FilterCondition::StringValue { operator, value, .. } => string_cond_ok(
            operator,
            opt_view(value),
        ),
        FilterCondition::FixedStringValue { operator, value, .. } => string_cond_ok(
            operator,
            opt_view(value),
        ),
        FilterCondition::UInt8Value { operator, value, .. } => numeric_cond_ok(
            operator,
            value is Some,
        ),
        FilterCondition::UInt16Value { operator, value, .. } => numeric_cond_ok(
            operator,
            value is Some,
        ),
        FilterCondition::UInt32Value { operator, value, .. } => numeric_cond_ok(
            operator,
            value is Some,
        ),
        FilterCondition::UInt64Value { operator, value, .. } => numeric_cond_ok(
            operator,
            value is Some,
        ),
        FilterCondition::Int8Value { operator, value, .. } => numeric_cond_ok(
            operator,
            value is Some,
        ),
        FilterCondition::Int16Value { operator, value, .. } => numeric_cond_ok(
            operator,
            value is Some,
        ),
        FilterCondition::Int32Value { operator, value, .. } => numeric_cond_ok(
            operator,
            value is Some,
        ),
        FilterCondition::Int64Value { operator, value, .. } => numeric_cond_ok(
            operator,
            value is Some,
        ),
        FilterCondition::Float32Value { operator, value, .. } => plain_cond_ok(
            operator,
            value is Some,
        ),
        FilterCondition::Float64Value { operator, value, .. } => plain_cond_ok(
            operator,
            value is Some,
        ),
        FilterCondition::DateValue { operator, value, .. } => plain_cond_ok(
            operator,
            value is Some,
        ),
        FilterCondition::DateTimeValue { operator, value, .. } => plain_cond_ok(
            operator,
            value is Some,
        ),
        FilterCondition::DateTime64Value { operator, value, .. } => plain_cond_ok(
            operator,
            value is Some,
        ),
        FilterCondition::DateRange { .. } => true,
        FilterCondition::BooleanValue { operator, value, .. } => bool_cond_ok(
            operator,
            value is Some,
        ),
        FilterCondition::UUIDValue { operator, value, .. } => uuid_cond_ok(
            operator,
            value is Some,
        ),
        FilterCondition::InValues { operator, .. } => operator == FilterOperator::In || operator
            == FilterOperator::NotIn,
        FilterCondition::ArrayContains { .. } => true,
        FilterCondition::ArrayHas { .. } => true,
        FilterCondition::JSONValue { operator, value, .. } => bool_cond_ok(
            operator,
            value is Some,
        ),
    }
}

/// The error rendering this condition reports when it fails.
pub open spec fn cond_err(c: FilterCondition) -> FilterError {
    match c {
        FilterCondition::StringValue { operator, .. } => string_cond_err(operator),
        FilterCondition::FixedStringValue { operator, .. } => string_cond_err(operator),
        FilterCondition::UInt8Value { operator, .. } => numeric_cond_err(operator),
        FilterCondition::UInt16Value { operator, .. } => numeric_cond_err(operator),
        FilterCondition::UInt32Value { operator, .. } => numeric_cond_err(operator),
        FilterCondition::UInt64Value { operator, .. } => numeric_cond_err(operator),
        FilterCondition::Int8Value { operator, .. } => numeric_cond_err(operator),
        FilterCondition::Int16Value { operator, .. } => numeric_cond_err(operator),
        FilterCondition::Int32Value { operator, .. } => numeric_cond_err(operator),
        FilterCondition::Int64Value { operator, .. } => numeric_cond_err(operator),
        FilterCondition::Float32Value { operator, .. } => plain_cond_err(
            operator,
            TypeFamily::Float,
        ),
        FilterCondition::Float64Value { operator, .. } => plain_cond_err(
            operator,
            TypeFamily::Float,
        ),
        FilterCondition::DateValue { operator, .. } => plain_cond_err(
            operator,
            TypeFamily::DateTime,
        ),
        FilterCondition::DateTimeValue { operator, .. } => plain_cond_err(
            operator,
            TypeFamily::DateTime,
        ),
        FilterCondition::DateTime64Value { operator, .. } => plain_cond_err(
            operator,
            TypeFamily::DateTime,
        ),
        FilterCondition::DateRange { .. } => FilterError::UnsupportedOperator {
            family: TypeFamily::DateTime,
            operator: FilterOperator::DateRange,
        },
        FilterCondition::BooleanValue { operator, .. } => bool_cond_err(
            operator,
            TypeFamily::Boolean,
        ),
        FilterCondition::UUIDValue { operator, .. } => uuid_cond_err(operator),
        FilterCondition::InValues { operator, .. } => FilterError::UnsupportedOperator {
            family: TypeFamily::MultiValue,
            operator,
        },
        FilterCondition::ArrayContains { .. } => FilterError::UnsupportedOperator {
            family: TypeFamily::Array,
            operator: FilterOperator::ArrayContains,
        },
        FilterCondition::ArrayHas { .. } => FilterError::UnsupportedOperator {
            family: TypeFamily::Array,
            operator: FilterOperator::ArrayHas,
        },
        FilterCondition::JSONValue { operator, .. } => bool_cond_err(operator, TypeFamily::Json),
    }
}

/// The SQL a condition renders to (meaningful when `cond_ok` holds).
pub open spec fn cond_sql(c: FilterCondition, ci: bool) -> Seq<char> {
    match c {
        FilterCondition::StringValue { column, operator, value } => string_cond_sql(
            column@,
            operator,
            opt_view(value),
            ci,
        ),
        FilterCondition::FixedStringValue { column, operator, value } => string_cond_sql(
            column@,
            operator,
            opt_view(value),
            ci,
        ),
        FilterCondition::UInt8Value { column, operator, value } => numeric_cond_sql(
            column@,
            operator,
            match value {
                Some(v) => Some(dec_nat(v as nat)),
                None => None,
            },
        ),
        FilterCondition::UInt16Value { column, operator, value } => numeric_cond_sql(
            column@,
            operator,
            match value {
                Some(v) => Some(dec_nat(v as nat)),
                None => None,
            },
        ),
        FilterCondition::UInt32Value { column, operator, value } => numeric_cond_sql(
            column@,
            operator,
            match value {
                Some(v) => Some(dec_nat(v as nat)),
                None => None,
            },
        ),
        FilterCondition::UInt64Value { column, operator, value } => numeric_cond_sql(
            column@,
            operator,
            match value {
                Some(v) => Some(dec_nat(v as nat)),
                None => None,
            },
        ),
        FilterCondition::Int8Value { column, operator, value } => numeric_cond_sql(
            column@,
            operator,
            match value {
                Some(v) => Some(dec_int(v as int)),
                None => None,
            },
        ),
        FilterCondition::Int16Value { column, operator, value } => numeric_cond_sql(
            column@,
            operator,
            match value {
                Some(v) => Some(dec_int(v as int)),
                None => None,
            },
        ),
        FilterCondition::Int32Value { column, operator, value } => numeric_cond_sql(
            column@,
            operator,
            match value {
                Some(v) => Some(dec_int(v as int)),
                None => None,
            },
        ),
        FilterCondition::Int64Value { column, operator, value } => numeric_cond_sql(
            column@,
            operator,
            match value {
                Some(v) => Some(dec_int(v as int)),
                None => None,
            },
        ),
        FilterCondition::Float32Value { column, operator, value } => float_cond_sql(
            column@,
            operator,
            opt_view(value),
        ),
        FilterCondition::Float64Value { column, operator, value } => float_cond_sql(
            column@,
            operator,
            opt_view(value),
        ),
        FilterCondition::DateValue { column, operator, value } => date_cond_sql(
            column@,
            operator,
            opt_view(value),
        ),
        FilterCondition::DateTimeValue { column, operator, value } => date_cond_sql(
            column@,
            operator,
            opt_view(value),
        ),
        FilterCondition::DateTime64Value { column, operator, value } => date_cond_sql(
            column@,
            operator,
            opt_view(value),
        ),
        FilterCondition::DateRange { column, range_type } => date_range_sql(column@, range_type),
        FilterCondition::BooleanValue { column, operator, value } => bool_cond_sql(
            column@,
            operator,
            value,
        ),
        FilterCondition::UUIDValue { column, operator, value } => uuid_cond_sql(
            column@,
            operator,
            opt_view(value),
        ),
        FilterCondition::InValues { column, operator, values, column_type } => in_values_sql(
            column@,
            operator,
            views_of(values@),
            is_text_type(column_type),
            ci,
        ),
        FilterCondition::ArrayContains { column, value, .. } => "hasAll("@ + column@ + ", array["@
            + quoted_join(trimmed_pieces(value@)) + "])"@,
        FilterCondition::ArrayHas { column, value, .. } => "has("@ + column@ + ", '"@ + escape_seq(
            value@,
        ) + "')"@,
        FilterCondition::JSONValue { column, operator, value, path } => json_cond_sql(
            column@,
            operator,
            opt_view(value),
            opt_view(path),
            ci,
        ),
    }
}

// ---------------------------------------------------------------------------
// Executable rendering, proved against the spec functions above.
// ---------------------------------------------------------------------------

/// The four styles of a rendered value list.
#[derive(Clone, Copy)]
enum ListMode {
    Quoted,
    LoweredQuoted,
    RawQuoted,
    Sniffed,
}

/// The rendering of one list element in the given style.
spec fn list_piece_sql(m: ListMode, p: Seq<char>) -> Seq<char> {
    match m {
        ListMode::Quoted => quoted(p),
        ListMode::LoweredQuoted => lowered(quoted(p)),
        ListMode::RawQuoted => "'"@ + p + "'"@,
        ListMode::Sniffed => if is_float_lit(p) {
            p
        } else {
            quoted(p)
        },
    }
}

/// The rendering of a whole list in the given style.
spec fn list_mode_sql(m: ListMode, ps: Seq<Seq<char>>) -> Seq<char> {
    match m {
        ListMode::Quoted => quoted_join(ps),
        ListMode::LoweredQuoted => lowered_quoted_join(ps),
        ListMode::RawQuoted => raw_quoted_join(ps),
        ListMode::Sniffed => sniffed_join(ps),
    }
}

/// Renders `pieces` in the given style, joined with `, `.
fn render_list(pieces: &Vec<String>, mode: ListMode) -> (r: String)
    ensures
        r@ == list_mode_sql(mode, views_of(pieces@)),
{
    let ghost vs = views_of(pieces@);
    let ghost mapped = vs.map_values(|p: Seq<char>| list_piece_sql(mode, p));
    let mut out = String::new();
    let mut i: usize = 0;
    proof {
        assert(mapped.subrange(0, 0) =~= Seq::<Seq<char>>::empty());
    }
    while i < pieces.len()
        invariant
            vs == views_of(pieces@),
            mapped == vs.map_values(|p: Seq<char>| list_piece_sql(mode, p)),
            0 <= i <= pieces.len(),
            vs.len() == pieces.len(),
            mapped.len() == pieces.len(),
            out@ == join_sep(mapped.subrange(0, i as int), ", "@),
        decreases pieces.len() - i,
    {
        if i > 0 {
            out.append(", ");
        }
        let ghost before = out@;
        let piece: &String = &pieces[i];
        proof {
            assert(vs[i as int] == piece@);
            assert(mapped[i as int] == list_piece_sql(mode, piece@));
        }
        match mode {
            ListMode::Quoted => {
                out.append("'");
                crate::text::escape_append(&mut out, piece.as_str());
                out.append("'");
            },
            ListMode::LoweredQuoted => {
                out.append("lower(");
                out.append("'");
                crate::text::escape_append(&mut out, piece.as_str());
                out.append("'");
                out.append(")");
            },
            ListMode::RawQuoted => {
                out.append("'");
                out.append(piece.as_str());
                out.append("'");
            },
            ListMode::Sniffed => {
                if is_float_literal(piece.as_str()) {
                    out.append(piece.as_str());
                } else {
                    out.append("'");
                    crate::text::escape_append(&mut out, piece.as_str());
                    out.append("'");
                }
            },
        }
        proof {
            assert(out@ =~= before + list_piece_sql(mode, piece@));
            assert(mapped.subrange(0, i as int + 1) =~= mapped.subrange(0, i as int).push(
                mapped[i as int],
            ));
            crate::text::lemma_join_push(mapped.subrange(0, i as int), ", "@, mapped[i as int]);
            assert(out@ =~= join_sep(mapped.subrange(0, i as int + 1), ", "@));
        }
        i = i + 1;
    }
    proof {
        assert(mapped.subrange(0, pieces.len() as int) =~= mapped);
        match mode {
            ListMode::Quoted => {
                assert(mapped =~= vs.map_values(|p: Seq<char>| quoted(p)));
            },
            ListMode::LoweredQuoted => {
                assert(mapped =~= vs.map_values(|p: Seq<char>| lowered(quoted(p))));
            },
            ListMode::RawQuoted => {
                assert(mapped =~= vs.map_values(|p: Seq<char>| "'"@ + p + "'"@));
            },
            ListMode::Sniffed => {
                assert(mapped =~= vs.map_values(
                    |p: Seq<char>|
                        if is_float_lit(p) {
                            p
                        } else {
                            quoted(p)
                        },
                ));
            },
        }
    }
    out
}

/// `column IS NULL` or `column IS NOT NULL`.
fn null_check_sql(column: &str, not: bool) -> (r: String)
    ensures
        r@ == if not {
            column@ + " IS NOT NULL"@
        } else {
            column@ + " IS NULL"@
        },
{
    let mut out = column.to_owned();
    if not {
        out.append(" IS NOT NULL");
    } else {
        out.append(" IS NULL");
    }
    out
}

/// Renders a string-family condition.
fn string_family_to_sql(
    column: &str,
    operator: &FilterOperator,
    value: &Option<String>,
    ci: bool,
) -> (r: Result<String, FilterError>)
    ensures
        r is Ok <==> string_cond_ok(*operator, opt_view(*value)),
        r is Ok ==> r->Ok_0@ == string_cond_sql(column@, *operator, opt_view(*value), ci),
        r is Err ==> r->Err_0 == string_cond_err(*operator),
{
    match operator {
        FilterOperator::Equal
        | FilterOperator::NotEqual
        | FilterOperator::Like
        | FilterOperator::NotLike => match value {
            Some(v) => {
                let mut out = String::new();
                if ci {
                    out.append("lower(");
                    out.append(column);
                    out.append(")");
                    out.append(" ");
                    out.append(operator.as_sql());
                    out.append(" ");
                    out.append("lower(");
                    out.append("'");
                    crate::text::escape_append(&mut out, v.as_str());
                    out.append("'");
                    out.append(")");
                } else {
                    out.append(column);
                    out.append(" ");
                    out.append(operator.as_sql());
                    out.append(" ");
                    out.append("'");
                    crate::text::escape_append(&mut out, v.as_str());
                    out.append("'");
                }
                proof {
                    assert(out@ =~= string_cond_sql(column@, *operator, opt_view(*value), ci));
                }
                Ok(out)
            },
            None => Err(FilterError::MissingValue),
        },
        FilterOperator::StartsWith | FilterOperator::EndsWith => {
            let starts = match operator {
                FilterOperator::StartsWith => true,
                _ => false,
            };
            match value {
                Some(v) => {
                    let mut out = String::new();
                    if ci {
                        out.append("lower(");
                        out.append(column);
                        out.append(")");
                        out.append(" LIKE ");
                        out.append("lower(");
                        if starts {
                            out.append("'");
                            crate::text::escape_append(&mut out, v.as_str());
                            out.append("%'");
                        } else {
                            out.append("'%");
                            crate::text::escape_append(&mut out, v.as_str());
                            out.append("'");
                        }
                        out.append(")");
                    } else {
                        out.append(column);
                        if starts {
                            out.append(" LIKE '");
                            crate::text::escape_append(&mut out, v.as_str());
                            out.append("%'");
                        } else {
                            out.append(" LIKE '%");
                            crate::text::escape_append(&mut out, v.as_str());
                            out.append("'");
                        }
                    }
                    proof {
                        assert(out@ =~= string_cond_sql(column@, *operator, opt_view(*value), ci));
                    }
                    Ok(out)
                },
                None => {
                    let mut out = column.to_owned();
                    out.append(" LIKE '%'");
                    proof {
                        assert(out@ =~= string_cond_sql(column@, *operator, opt_view(*value), ci));
                    }
                    Ok(out)
                },
            }
        },
        FilterOperator::In | FilterOperator::NotIn => match value {
            Some(v) => {
                let not = match operator {
                    FilterOperator::NotIn => true,
                    _ => false,
                };
                let pieces = split_trim(v.as_str());
                let mut out = String::new();
                if ci {
                    out.append("lower(");
                    out.append(column);
                    out.append(")");
                    let lst = render_list(&pieces, ListMode::LoweredQuoted);
                    if not {
                        out.append(" NOT IN (");
                    } else {
                        out.append(" IN (");
                    }
                    out.append(lst.as_str());
                    out.append(")");
                } else {
                    out.append(column);
                    let lst = render_list(&pieces, ListMode::Quoted);
                    if not {
                        out.append(" NOT IN (");
                    } else {
                        out.append(" IN (");
                    }
                    out.append(lst.as_str());
                    out.append(")");
                }
                proof {
                    assert(views_of(pieces@) == trimmed_pieces(v@));
                    assert(out@ =~= string_cond_sql(column@, *operator, opt_view(*value), ci));
                }
                Ok(out)
            },
            None => Err(FilterError::MissingInValues),
        },
        FilterOperator::IsNull => Ok(null_check_sql(column, false)),
        FilterOperator::IsNotNull => Ok(null_check_sql(column, true)),
        _ => Err(
            FilterError::UnsupportedOperator {
                family: TypeFamily::Text,
                operator: *operator,
            },
        ),
    }
}

/// Renders an integer-family condition whose value is already decimal text.
fn numeric_family_to_sql(column: &str, operator: &FilterOperator, value: &Option<String>) -> (r:
    Result<String, FilterError>)
    ensures
        r is Ok <==> numeric_cond_ok(*operator, *value is Some),
        r is Ok ==> r->Ok_0@ == numeric_cond_sql(column@, *operator, opt_view(*value)),
        r is Err ==> r->Err_0 == numeric_cond_err(*operator),
{
    match operator {
        FilterOperator::Equal
        | FilterOperator::NotEqual
        | FilterOperator::GreaterThan
        | FilterOperator::GreaterThanOrEqual
        | FilterOperator::LessThan
        | FilterOperator::LessThanOrEqual => match value {
            Some(v) => {
                let mut out = column.to_owned();
                out.append(" ");
                out.append(operator.as_sql());
                out.append(" ");
                out.append(v.as_str());
                proof {
                    assert(out@ =~= numeric_cond_sql(column@, *operator, opt_view(*value)));
                }
                Ok(out)
            },
            None => Err(FilterError::MissingValue),
        },
        FilterOperator::In | FilterOperator::NotIn => match value {
            Some(v) => {
                let mut out = column.to_owned();
                match operator {
                    FilterOperator::NotIn => out.append(" NOT IN ("),
                    _ => out.append(" IN ("),
                }
                out.append(v.as_str());
                out.append(")");
                proof {
                    assert(out@ =~= numeric_cond_sql(column@, *operator, opt_view(*value)));
                }
                Ok(out)
            },
            None => Err(FilterError::MissingInValues),
        },
        FilterOperator::IsNull => Ok(null_check_sql(column, false)),
        FilterOperator::IsNotNull => Ok(null_check_sql(column, true)),
        _ => Err(
            FilterError::UnsupportedOperator {
                family: TypeFamily::Integer,
                operator: *operator,
            },
        ),
    }
}

/// Renders a float-family condition: the value text is inserted bare.
fn float_family_to_sql(column: &str, operator: &FilterOperator, value: &Option<String>) -> (r:
    Result<String, FilterError>)
    ensures
        r is Ok <==> plain_cond_ok(*operator, *value is Some),
        r is Ok ==> r->Ok_0@ == float_cond_sql(column@, *operator, opt_view(*value)),
        r is Err ==> r->Err_0 == plain_cond_err(*operator, TypeFamily::Float),
{
    match operator {
        FilterOperator::Equal
        | FilterOperator::NotEqual
        | FilterOperator::GreaterThan
        | FilterOperator::GreaterThanOrEqual
        | FilterOperator::LessThan
        | FilterOperator::LessThanOrEqual => match value {
            Some(v) => {
                let mut out = column.to_owned();
                out.append(" ");
                out.append(operator.as_sql());
                out.append(" ");
                out.append(v.as_str());
                proof {
                    assert(out@ =~= float_cond_sql(column@, *operator, opt_view(*value)));
                }
                Ok(out)
            },
            None => Err(FilterError::MissingValue),
        },
        FilterOperator::IsNull => Ok(null_check_sql(column, false)),
        FilterOperator::IsNotNull => Ok(null_check_sql(column, true)),
        _ => Err(
            FilterError::UnsupportedOperator {
                family: TypeFamily::Float,
                operator: *operator,
            },
        ),
    }
}

/// Renders a date-family condition: the value is quoted verbatim.
fn date_family_to_sql(column: &str, operator: &FilterOperator, value: &Option<String>) -> (r:
    Result<String, FilterError>)
    ensures
        r is Ok <==> plain_cond_ok(*operator, *value is Some),
        r is Ok ==> r->Ok_0@ == date_cond_sql(column@, *operator, opt_view(*value)),
        r is Err ==> r->Err_0 == plain_cond_err(*operator, TypeFamily::DateTime),
{
    match operator {
        FilterOperator::Equal
        | FilterOperator::NotEqual
        | FilterOperator::GreaterThan
        | FilterOperator::GreaterThanOrEqual
        | FilterOperator::LessThan
        | FilterOperator::LessThanOrEqual => match value {
            Some(v) => {
                let mut out = column.to_owned();
                out.append(" ");
                out.append(operator.as_sql());
                out.append(" ");
                out.append("'");
                out.append(v.as_str());
                out.append("'");
                proof {
                    assert(out@ =~= date_cond_sql(column@, *operator, opt_view(*value)));
                }
                Ok(out)
            },
            None => Err(FilterError::MissingValue),
        },
        FilterOperator::IsNull => Ok(null_check_sql(column, false)),
        FilterOperator::IsNotNull => Ok(null_check_sql(column, true)),
        _ => Err(
            FilterError::UnsupportedOperator {
                family: TypeFamily::DateTime,
                operator: *operator,
            },
        ),
    }
}

/// Renders a date-range condition.
fn render_date_range(column: &str, rt: &DateRangeType) -> (r: String)
    ensures
        r@ == date_range_sql(column@, *rt),
{
    match rt {
        DateRangeType::Exact(ts) => {
            let mut out = column.to_owned();
            out.append(" = '");
            out.append(ts.as_str());
            out.append("'");
            out
        },
        DateRangeType::DateOnly(d) => {
            let mut out = String::new();
            out.append("toDate(");
            out.append(column);
            out.append(") = toDate('");
            out.append(d.as_str());
            out.append("')");
            proof {
                assert(out@ =~= date_range_sql(column@, *rt));
            }
            out
        },
        DateRangeType::Range { start, end } => {
            let mut out = column.to_owned();
            out.append(" BETWEEN '");
            out.append(start.as_str());
            out.append("' AND '");
            out.append(end.as_str());
            out.append("'");
            proof {
                assert(out@ =~= date_range_sql(column@, *rt));
            }
            out
        },
        DateRangeType::Relative(expr) => {
            let mut out = column.to_owned();
            out.append(" > ");
            out.append(expr.as_str());
            out
        },
    }
}

/// Renders a boolean condition: `1` for true, `0` for false.
fn bool_family_to_sql(column: &str, operator: &FilterOperator, value: &Option<bool>) -> (r: Result<
    String,
    FilterError,
>)
    ensures
        r is Ok <==> bool_cond_ok(*operator, *value is Some),
        r is Ok ==> r->Ok_0@ == bool_cond_sql(column@, *operator, *value),
        r is Err ==> r->Err_0 == bool_cond_err(*operator, TypeFamily::Boolean),
{
    match operator {
        FilterOperator::Equal | FilterOperator::NotEqual => match value {
            Some(v) => {
                let mut out = column.to_owned();
                out.append(" ");
                out.append(operator.as_sql());
                out.append(" ");
                if *v {
                    out.append("1");
                } else {
                    out.append("0");
                }
                proof {
                    assert(out@ =~= bool_cond_sql(column@, *operator, *value));
                }
                Ok(out)
            },
            None => Err(FilterError::MissingValue),
        },
        FilterOperator::IsNull => Ok(null_check_sql(column, false)),
        FilterOperator::IsNotNull => Ok(null_check_sql(column, true)),
        _ => Err(
            FilterError::UnsupportedOperator {
                family: TypeFamily::Boolean,
                operator: *operator,
            },
        ),
    }
}

/// Renders a UUID condition: values quoted verbatim, without escaping.
fn uuid_family_to_sql(column: &str, operator: &FilterOperator, value: &Option<String>) -> (r:
    Result<String, FilterError>)
    ensures
        r is Ok <==> uuid_cond_ok(*operator, *value is Some),
        r is Ok ==> r->Ok_0@ == uuid_cond_sql(column@, *operator, opt_view(*value)),
        r is Err ==> r->Err_0 == uuid_cond_err(*operator),
{
    match operator {
        FilterOperator::Equal | FilterOperator::NotEqual => match value {
            Some(v) => {
                let mut out = column.to_owned();
                out.append(" ");
                out.append(operator.as_sql());
                out.append(" ");
                out.append("'");
                out.append(v.as_str());
                out.append("'");
                proof {
                    assert(out@ =~= uuid_cond_sql(column@, *operator, opt_view(*value)));
                }
                Ok(out)
            },
            None => Err(FilterError::MissingValue),
        },
        FilterOperator::In | FilterOperator::NotIn => match value {
            Some(v) => {
                let not = match operator {
                    FilterOperator::NotIn => true,
                    _ => false,
                };
                let pieces = split_trim(v.as_str());
                let lst = render_list(&pieces, ListMode::RawQuoted);
                let mut out = column.to_owned();
                if not {
                    out.append(" NOT IN (");
                } else {
                    out.append(" IN (");
                }
                out.append(lst.as_str());
                out.append(")");
                proof {
                    assert(views_of(pieces@) == trimmed_pieces(v@));
                    assert(out@ =~= uuid_cond_sql(column@, *operator, opt_view(*value)));
                }
                Ok(out)
            },
            None => Err(FilterError::MissingInValues),
        },
        FilterOperator::IsNull => Ok(null_check_sql(column, false)),
        FilterOperator::IsNotNull => Ok(null_check_sql(column, true)),
        _ => Err(
            FilterError::UnsupportedOperator {
                family: TypeFamily::Uuid,
                operator: *operator,
            },
        ),
    }
}

/// Renders a JSON condition.
fn json_to_sql(
    column: &str,
    operator: &FilterOperator,
    value: &Option<String>,
    path: &Option<String>,
    ci: bool,
) -> (r: Result<String, FilterError>)
    ensures
        r is Ok <==> bool_cond_ok(*operator, *value is Some),
        r is Ok ==> r->Ok_0@ == json_cond_sql(column@, *operator, opt_view(*value), opt_view(*path), ci),
        r is Err ==> r->Err_0 == bool_cond_err(*operator, TypeFamily::Json),
{
    let mut jcol = String::new();
    match path {
        Some(p) => {
            jcol.append("JSONExtractString(");
            jcol.append(column);
            jcol.append(", '");
            jcol.append(p.as_str());
            jcol.append("')");
        },
        None => {
            jcol.append(column);
        },
    }
    proof {
        assert(jcol@ =~= json_operand(column@, opt_view(*path)));
    }
    match operator {
        FilterOperator::Equal | FilterOperator::NotEqual => match value {
            Some(v) => {
                let mut out = String::new();
                if ci {
                    out.append("lower(");
                    out.append(jcol.as_str());
                    out.append(")");
                    out.append(" ");
                    out.append(operator.as_sql());
                    out.append(" ");
                    out.append("lower(");
                    out.append("'");
                    crate::text::escape_append(&mut out, v.as_str());
                    out.append("'");
                    out.append(")");
                } else {
                    out.append(jcol.as_str());
                    out.append(" ");
                    out.append(operator.as_sql());
                    out.append(" ");
                    out.append("'");
                    crate::text::escape_append(&mut out, v.as_str());
                    out.append("'");
                }
                proof {
                    assert(out@ =~= json_cond_sql(
                        column@,
                        *operator,
                        opt_view(*value),
                        opt_view(*path),
                        ci,
                    ));
                }
                Ok(out)
            },
            None => Err(FilterError::MissingValue),
        },
        FilterOperator::IsNull => Ok(null_check_sql(jcol.as_str(), false)),
        FilterOperator::IsNotNull => Ok(null_check_sql(jcol.as_str(), true)),
        _ => Err(
            FilterError::UnsupportedOperator {
                family: TypeFamily::Json,
                operator: *operator,
            },
        ),
    }
}

/// Renders a multi-value IN condition.
fn in_values_to_sql(
    column: &str,
    operator: &FilterOperator,
    values: &Vec<String>,
    column_type: &Option<ColumnTypeInfo>,
    ci: bool,
) -> (r: Result<String, FilterError>)
    ensures
        r is Ok <==> (*operator == FilterOperator::In || *operator == FilterOperator::NotIn),
        r is Ok ==> r->Ok_0@ == in_values_sql(
            column@,
            *operator,
            views_of(values@),
            is_text_type(*column_type),
            ci,
        ),
        r is Err ==> r->Err_0 == (FilterError::UnsupportedOperator {
            family: TypeFamily::MultiValue,
            operator: *operator,
        }),
{
    let is_text = match column_type {
        Some(ColumnTypeInfo::String) => true,
        _ => false,
    };
    let is_in = match operator {
        FilterOperator::In => true,
        _ => false,
    };
    let is_not_in = match operator {
        FilterOperator::NotIn => true,
        _ => false,
    };
    if !is_in && !is_not_in {
        return Err(
            FilterError::UnsupportedOperator {
                family: TypeFamily::MultiValue,
                operator: *operator,
            },
        );
    }
    let lst = if is_text {
        if ci {
            render_list(values, ListMode::LoweredQuoted)
        } else {
            render_list(values, ListMode::Quoted)
        }
    } else {
        render_list(values, ListMode::Sniffed)
    };
    let mut out = String::new();
    if ci && is_text {
        out.append("lower(");
        out.append(column);
        out.append(")");
    } else {
        out.append(column);
    }
    if is_not_in {
        out.append(" NOT IN (");
    } else {
        out.append(" IN (");
    }
    out.append(lst.as_str());
    out.append(")");
    proof {
        assert(is_text == is_text_type(*column_type));
        assert(out@ =~= in_values_sql(
            column@,
            *operator,
            views_of(values@),
            is_text_type(*column_type),
            ci,
        ));
    }
    Ok(out)
}

/// Renders an array-containment condition over a comma-separated list.
fn array_contains_to_sql(column: &str, value: &str) -> (r: String)
    ensures
        r@ == "hasAll("@ + column@ + ", array["@ + quoted_join(trimmed_pieces(value@)) + "])"@,
{
    let pieces = split_trim(value);
    let lst = render_list(&pieces, ListMode::Quoted);
    let mut out = String::new();
    out.append("hasAll(");
    out.append(column);
    out.append(", array[");
    out.append(lst.as_str());
    out.append("])");
    proof {
        assert(views_of(pieces@) == trimmed_pieces(value@));
        assert(out@ =~= "hasAll("@ + column@ + ", array["@ + quoted_join(trimmed_pieces(value@))
            + "])"@);
    }
    out
}

/// Renders an array-membership condition for one value.
fn array_has_to_sql(column: &str, value: &str) -> (r: String)
    ensures
        r@ == "has("@ + column@ + ", '"@ + escape_seq(value@) + "')"@,
{
    let mut out = String::new();
    out.append("has(");
    out.append(column);
    out.append(", '");
    crate::text::escape_append(&mut out, value);
    out.append("')");
    proof {
        assert(out@ =~= "has("@ + column@ + ", '"@ + escape_seq(value@) + "')"@);
    }
    out
}

impl FilterCondition {
    /// Renders this condition to SQL text; `case_insensitive` folds string
    /// comparisons through `lower`. Succeeds exactly when the operator fits
    /// the condition's type family and a required value is present, and the
    /// produced text is pinned down by `cond_sql`.
    #[verifier::rlimit(100)]
    pub fn to_sql(&self, case_insensitive: bool) -> (r: Result<String, FilterError>)
        ensures
            r is Ok <==> cond_ok(*self),
            r is Ok ==> r->Ok_0@ == cond_sql(*self, case_insensitive),
            r is Err ==> r->Err_0 == cond_err(*self),
    {
        match self {
            FilterCondition::StringValue { column, operator, value }
            | FilterCondition::FixedStringValue { column, operator, value } => string_family_to_sql(
                column.as_str(),
                operator,
                value,
                case_insensitive,
            ),
            FilterCondition::UInt8Value { column, operator, value } => {
                let vt: Option<String> = match value {
                    Some(v) => Some(u64_str(*v as u64)),
                    None => None,
                };
                numeric_family_to_sql(column.as_str(), operator, &vt)
            },
            FilterCondition::UInt16Value { column, operator, value } => {
                let vt: Option<String> = match value {
                    Some(v) => Some(u64_str(*v as u64)),
                    None => None,
                };
                numeric_family_to_sql(column.as_str(), operator, &vt)
            },
            FilterCondition::UInt32Value { column, operator, value } => {
                let vt: Option<String> = match value {
                    Some(v) => Some(u64_str(*v as u64)),
                    None => None,
                };
                numeric_family_to_sql(column.as_str(), operator, &vt)
            },
            FilterCondition::UInt64Value { column, operator, value } => {
                let vt: Option<String> = match value {
                    Some(v) => Some(u64_str(*v)),
                    None => None,
                };
                numeric_family_to_sql(column.as_str(), operator, &vt)
            },
            FilterCondition::Int8Value { column, operator, value } => {
                let vt: Option<String> = match value {
                    Some(v) => Some(i64_str(*v as i64)),
                    None => None,
                };
                numeric_family_to_sql(column.as_str(), operator, &vt)
            },
            FilterCondition::Int16Value { column, operator, value } => {
                let vt: Option<String> = match value {
                    Some(v) => Some(i64_str(*v as i64)),
                    None => None,
                };
                numeric_family_to_sql(column.as_str(), operator, &vt)
            },
            FilterCondition::Int32Value { column, operator, value } => {
                let vt: Option<String> = match value {
                    Some(v) => Some(i64_str(*v as i64)),
                    None => None,
                };
                numeric_family_to_sql(column.as_str(), operator, &vt)
            },
            FilterCondition::Int64Value { column, operator, value } => {
                let vt: Option<String> = match value {
                    Some(v) => Some(i64_str(*v)),
                    None => None,
                };
                numeric_family_to_sql(column.as_str(), operator, &vt)
            },
            FilterCondition::Float32Value { column, operator, value }
            | FilterCondition::Float64Value { column, operator, value } => float_family_to_sql(
                column.as_str(),
                operator,
                value,
            ),
            FilterCondition::DateValue { column, operator, value }
            | FilterCondition::DateTimeValue { column, operator, value }
            | FilterCondition::DateTime64Value { column, operator, value } => date_family_to_sql(
                column.as_str(),
                operator,
                value,
            ),
            FilterCondition::DateRange { column, range_type } => Ok(
                render_date_range(column.as_str(), range_type),
            ),
            FilterCondition::BooleanValue { column, operator, value } => bool_family_to_sql(
                column.as_str(),
                operator,
                value,
            ),
            FilterCondition::UUIDValue { column, operator, value } => uuid_family_to_sql(
                column.as_str(),
                operator,
                value,
            ),
            FilterCondition::InValues { column, operator, values, column_type } => in_values_to_sql(
                column.as_str(),
                operator,
                values,
                column_type,
                case_insensitive,
            ),
            FilterCondition::ArrayContains { column, value, .. } => {
                let out = array_contains_to_sql(column.as_str(), value.as_str());
                Ok(out)
            },
            FilterCondition::ArrayHas { column, value, .. } => {
                let out = array_has_to_sql(column.as_str(), value.as_str());
                Ok(out)
            },
            FilterCondition::JSONValue { column, operator, value, path } => json_to_sql(
                column.as_str(),
                operator,
                value,
                path,
                case_insensitive,
            ),
        }
    }
}

// ---------------------------------------------------------------------------
// The expression tree: a condition, or a group of children joined by one
// logical operator.
// ---------------------------------------------------------------------------

/// A filter expression: a single condition, or a group of child expressions
/// combined with one logical operator. An empty group renders to the empty
/// string; a non-empty group renders parenthesized.
#[derive(Debug)]
pub enum FilterExpression {
    Condition(FilterCondition),
    Group { operator: LogicalOperator, expressions: Vec<FilterExpression> },
}

/// Whether rendering this expression succeeds: every condition in the tree
/// must be renderable.
pub open spec fn expr_ok(e: FilterExpression) -> bool
    decreases e,
{
    match e {
        FilterExpression::Condition(c) => cond_ok(c),
        FilterExpression::Group { expressions, .. } => exprs_ok_from(expressions@, 0),
    }
}

/// Whether every expression of `s` from index `i` on renders successfully.
pub open spec fn exprs_ok_from(s: Seq<FilterExpression>, i: int) -> bool
    decreases s, s.len() - i,
{
    if i < 0 || i >= s.len() {
        true
    } else {
        expr_ok(s[i]) && exprs_ok_from(s, i + 1)
    }
}

/// The SQL an expression renders to (meaningful when `expr_ok` holds):
/// conditions render alone; a group joins the non-empty renderings of its
/// children inside one pair of parentheses, so a child that renders to the
/// empty string is elided and leaves no connector behind. A group with no
/// children, or none that render to anything, renders to the empty string.
pub open spec fn expr_sql(e: FilterExpression, ci: bool) -> Seq<char>
    decreases e,
{
    match e {
        FilterExpression::Condition(c) => cond_sql(c, ci),
        FilterExpression::Group { operator, expressions } => {
            let parts = exprs_nonempty_sqls_from(expressions@, 0, ci);
            if parts.len() == 0 {
                Seq::empty()
            } else {
                "("@ + join_sep(parts, " "@ + logical_sql(operator) + " "@) + ")"@
            }
        },
    }
}

/// The non-empty renderings of the expressions of `s` from index `i` on.
pub open spec fn exprs_nonempty_sqls_from(s: Seq<FilterExpression>, i: int, ci: bool) -> Seq<
    Seq<char>,
>
    decreases s, s.len() - i,
{
    if i < 0 || i >= s.len() {
        Seq::empty()
    } else if expr_sql(s[i], ci).len() == 0 {
        exprs_nonempty_sqls_from(s, i + 1, ci)
    } else {
        seq![expr_sql(s[i], ci)] + exprs_nonempty_sqls_from(s, i + 1, ci)
    }
}

/// The non-empty renderings of the first `i` expressions of `s`.
pub open spec fn exprs_nonempty_sqls_upto(s: Seq<FilterExpression>, i: int, ci: bool) -> Seq<
    Seq<char>,
>
    decreases i,
{
    if i <= 0 {
        Seq::empty()
    } else {
        exprs_nonempty_sqls_upto(s, i - 1, ci) + (if expr_sql(s[i - 1], ci).len() == 0 {
            Seq::<Seq<char>>::empty()
        } else {
            seq![expr_sql(s[i - 1], ci)]
        })
    }
}

/// The prefix and suffix views of the non-empty renderings agree.
pub proof fn lemma_nonempty_upto_from(s: Seq<FilterExpression>, i: int, ci: bool)
    requires
        0 <= i <= s.len(),
    ensures
        exprs_nonempty_sqls_upto(s, i, ci) + exprs_nonempty_sqls_from(s, i, ci)
            == exprs_nonempty_sqls_from(s, 0, ci),
    decreases i,
{
    if i == 0 {
        assert(exprs_nonempty_sqls_upto(s, 0, ci) + exprs_nonempty_sqls_from(s, 0, ci)
            =~= exprs_nonempty_sqls_from(s, 0, ci));
    } else {
        lemma_nonempty_upto_from(s, i - 1, ci);
        assert(exprs_nonempty_sqls_upto(s, i, ci) + exprs_nonempty_sqls_from(s, i, ci)
            =~= exprs_nonempty_sqls_upto(s, i - 1, ci) + exprs_nonempty_sqls_from(s, i - 1, ci));
    }
}

/// The non-empty members of a sequence of fragments, from index `i` on.
pub open spec fn nonempty_from(sqls: Seq<Seq<char>>, i: int) -> Seq<Seq<char>>
    decreases sqls.len() - i,
{
    if i < 0 || i >= sqls.len() {
        Seq::empty()
    } else if sqls[i].len() == 0 {
        nonempty_from(sqls, i + 1)
    } else {
        seq![sqls[i]] + nonempty_from(sqls, i + 1)
    }
}

/// Leaf renderings filter to the same non-empty parts as the expressions
/// they render.
pub proof fn lemma_nonempty_parts(
    ges: Seq<FilterExpression>,
    ssqls: Seq<Seq<char>>,
    ci: bool,
    i: int,
)
    requires
        0 <= i <= ges.len(),
        ssqls.len() == ges.len(),
        forall|k: int| 0 <= k < ges.len() ==> #[trigger] ssqls[k] == expr_sql(ges[k], ci),
    ensures
        exprs_nonempty_sqls_from(ges, i, ci) == nonempty_from(ssqls, i),
    decreases ges.len() - i,
{
    if i < ges.len() {
        lemma_nonempty_parts(ges, ssqls, ci, i + 1);
    }
}

/// The error rendering this expression reports: the first failing
/// condition's error, in depth-first order.
pub open spec fn expr_err(e: FilterExpression) -> FilterError
    decreases e,
{
    match e {
        FilterExpression::Condition(c) => cond_err(c),
        FilterExpression::Group { expressions, .. } => exprs_err_from(expressions@, 0),
    }
}

/// The error of the first failing expression of `s` from index `i` on.
pub open spec fn exprs_err_from(s: Seq<FilterExpression>, i: int) -> FilterError
    decreases s, s.len() - i,
{
    if i < 0 || i >= s.len() {
        FilterError::UnsupportedOperator {
            family: TypeFamily::Text,
            operator: FilterOperator::Equal,
        }
    } else if !expr_ok(s[i]) {
        expr_err(s[i])
    } else {
        exprs_err_from(s, i + 1)
    }
}

/// `exprs_ok_from` holds exactly when every expression from `i` on is ok.
pub proof fn lemma_exprs_ok_from_iff(s: Seq<FilterExpression>, i: int)
    requires
        0 <= i <= s.len(),
    ensures
        exprs_ok_from(s, i) <==> (forall|j: int| i <= j < s.len() ==> expr_ok(s[j])),
    decreases s.len() - i,
{
    if i < s.len() {
        lemma_exprs_ok_from_iff(s, i + 1);
    }
}

/// When expressions before `k` are ok and `s[k]` is not, the first failing
/// error from `i` is that of `s[k]`.
pub proof fn lemma_exprs_err_from_first(s: Seq<FilterExpression>, i: int, k: int)
    requires
        0 <= i <= k < s.len(),
        forall|j: int| i <= j < k ==> expr_ok(s[j]),
        !expr_ok(s[k]),
    ensures
        exprs_err_from(s, i) == expr_err(s[k]),
    decreases k - i,
{
    if i < k {
        lemma_exprs_err_from_first(s, i + 1, k);
    }
}

/// Pointwise-alike expression sequences render alike.
pub proof fn lemma_exprs_congruent(
    s1: Seq<FilterExpression>,
    s2: Seq<FilterExpression>,
    i: int,
    ci: bool,
)
    requires
        0 <= i <= s1.len(),
        s1.len() == s2.len(),
        forall|j: int| 0 <= j < s1.len() ==> expr_alike(#[trigger] s1[j], s2[j]),
    ensures
        exprs_ok_from(s1, i) == exprs_ok_from(s2, i),
        exprs_err_from(s1, i) == exprs_err_from(s2, i),
        exprs_nonempty_sqls_from(s1, i, ci) == exprs_nonempty_sqls_from(s2, i, ci),
    decreases s1.len() - i,
{
    reveal(expr_alike);
    if i < s1.len() {
        lemma_exprs_congruent(s1, s2, i + 1, ci);
        if expr_sql(s1[i], ci).len() != 0 {
            assert(exprs_nonempty_sqls_from(s1, i, ci) =~= exprs_nonempty_sqls_from(s2, i, ci));
        }
    }
}

/// Two conditions that render identically: same acceptance, same error,
/// same SQL in both case modes.
#[verifier::opaque]
pub open spec fn cond_alike(a: FilterCondition, b: FilterCondition) -> bool {
    &&& cond_ok(a) == cond_ok(b)
    &&& cond_err(a) == cond_err(b)
    &&& cond_sql(a, true) == cond_sql(b, true)
    &&& cond_sql(a, false) == cond_sql(b, false)
}

/// Equal conditions render identically.
pub proof fn lemma_cond_alike_refl(a: FilterCondition, b: FilterCondition)
    requires
        a == b,
    ensures
        cond_alike(a, b),
{
    reveal(cond_alike);
}

/// What `cond_alike` grants.
pub proof fn lemma_cond_alike_unfold(a: FilterCondition, b: FilterCondition)
    requires
        cond_alike(a, b),
    ensures
        cond_ok(a) == cond_ok(b),
        cond_err(a) == cond_err(b),
        cond_sql(a, true) == cond_sql(b, true),
        cond_sql(a, false) == cond_sql(b, false),
{
    reveal(cond_alike);
}

/// Two expressions that render identically: same acceptance, same error,
/// same SQL in both case modes.
#[verifier::opaque]
pub open spec fn expr_alike(a: FilterExpression, b: FilterExpression) -> bool {
    &&& expr_ok(a) == expr_ok(b)
    &&& expr_err(a) == expr_err(b)
    &&& expr_sql(a, true) == expr_sql(b, true)
    &&& expr_sql(a, false) == expr_sql(b, false)
}

/// What `expr_alike` grants.
pub proof fn lemma_expr_alike_unfold(a: FilterExpression, b: FilterExpression)
    requires
        expr_alike(a, b),
    ensures
        expr_ok(a) == expr_ok(b),
        expr_err(a) == expr_err(b),
        expr_sql(a, true) == expr_sql(b, true),
        expr_sql(a, false) == expr_sql(b, false),
{
    reveal(expr_alike);
}

/// Conditions that render alike yield leaf expressions that render alike.
pub proof fn lemma_cond_alike_lift(a: FilterCondition, b: FilterCondition)
    requires
        cond_alike(a, b),
    ensures
        expr_alike(FilterExpression::Condition(a), FilterExpression::Condition(b)),
{
    reveal(cond_alike);
    reveal(expr_alike);
}

/// Clones one band of condition variants; the clone renders alike.
#[verifier::spinoff_prover]
fn clone_cond_a(c: &FilterCondition) -> (r: FilterCondition)
    requires
        c matches FilterCondition::StringValue { .. } || c matches FilterCondition::FixedStringValue { .. } || c matches FilterCondition::UInt8Value { .. } || c matches FilterCondition::UInt16Value { .. } || c matches FilterCondition::UInt32Value { .. } || c matches FilterCondition::UInt64Value { .. } || c matches FilterCondition::Int8Value { .. },
    ensures
        cond_alike(r, *c),
{
    match c {
            FilterCondition::StringValue { column, operator, value } => {
                let r = FilterCondition::StringValue {
                    column: column.clone(),
                    operator: *operator,
                    value: clone_opt_string(value),
                };
                proof {
                    lemma_cond_alike_refl(r, *c);
                }
                r
            },
            FilterCondition::FixedStringValue { column, operator, value } => {
                let r = FilterCondition::FixedStringValue {
                    column: column.clone(),
                    operator: *operator,
                    value: clone_opt_string(value),
                };
                proof {
                    lemma_cond_alike_refl(r, *c);
                }
                r
            },
            FilterCondition::UInt8Value { column, operator, value } => {
                let r = FilterCondition::UInt8Value {
                    column: column.clone(),
                    operator: *operator,
                    value: *value,
                };
                proof {
                    lemma_cond_alike_refl(r, *c);
                }
                r
            },
            FilterCondition::UInt16Value { column, operator, value } => {
                let r = FilterCondition::UInt16Value {
                    column: column.clone(),
                    operator: *operator,
                    value: *value,
                };
                proof {
                    lemma_cond_alike_refl(r, *c);
                }
                r
            },
            FilterCondition::UInt32Value { column, operator, value } => {
                let r = FilterCondition::UInt32Value {
                    column: column.clone(),
                    operator: *operator,
                    value: *value,
                };
                proof {
                    lemma_cond_alike_refl(r, *c);
                }
                r
            },
            FilterCondition::UInt64Value { column, operator, value } => {
                let r = FilterCondition::UInt64Value {
                    column: column.clone(),
                    operator: *operator,
                    value: *value,
                };
                proof {
                    lemma_cond_alike_refl(r, *c);
                }
                r
            },
            FilterCondition::Int8Value { column, operator, value } => {
                let r = FilterCondition::Int8Value {
                    column: column.clone(),
                    operator: *operator,
                    value: *value,
                };
                proof {
                    lemma_cond_alike_refl(r, *c);
                }
                r
            },
        _ => vstd::pervasive::unreached(),
    }
}

/// Clones one band of condition variants; the clone renders alike.
#[verifier::spinoff_prover]
fn clone_cond_b(c: &FilterCondition) -> (r: FilterCondition)
    requires
        c matches FilterCondition::Int16Value { .. } || c matches FilterCondition::Int32Value { .. } || c matches FilterCondition::Int64Value { .. } || c matches FilterCondition::Float32Value { .. } || c matches FilterCondition::Float64Value { .. } || c matches FilterCondition::DateValue { .. } || c matches FilterCondition::DateTimeValue { .. },
    ensures
        cond_alike(r, *c),
{
    match c {
            FilterCondition::Int16Value { column, operator, value } => {
                let r = FilterCondition::Int16Value {
                    column: column.clone(),
                    operator: *operator,
                    value: *value,
                };
                proof {
                    lemma_cond_alike_refl(r, *c);
                }
                r
            },
            FilterCondition::Int32Value { column, operator, value } => {
                let r = FilterCondition::Int32Value {
                    column: column.clone(),
                    operator: *operator,
                    value: *value,
                };
                proof {
                    lemma_cond_alike_refl(r, *c);
                }
                r
            },
            FilterCondition::Int64Value { column, operator, value } => {
                let r = FilterCondition::Int64Value {
                    column: column.clone(),
                    operator: *operator,
                    value: *value,
                };
                proof {
                    lemma_cond_alike_refl(r, *c);
                }
                r
            },
            FilterCondition::Float32Value { column, operator, value } => {
                let r = FilterCondition::Float32Value {
                    column: column.clone(),
                    operator: *operator,
                    value: clone_opt_string(value),
                };
                proof {
                    lemma_cond_alike_refl(r, *c);
                }
                r
            },
            FilterCondition::Float64Value { column, operator, value } => {
                let r = FilterCondition::Float64Value {
                    column: column.clone(),
                    operator: *operator,
                    value: clone_opt_string(value),
                };
                proof {
                    lemma_cond_alike_refl(r, *c);
                }
                r
            },
            FilterCondition::DateValue { column, operator, value } => {
                let r = FilterCondition::DateValue {
                    column: column.clone(),
                    operator: *operator,
                    value: clone_opt_string(value),
                };
                proof {
                    lemma_cond_alike_refl(r, *c);
                }
                r
            },
            FilterCondition::DateTimeValue { column, operator, value } => {
                let r = FilterCondition::DateTimeValue {
                    column: column.clone(),
                    operator: *operator,
                    value: clone_opt_string(value),
                };
                proof {
                    lemma_cond_alike_refl(r, *c);
                }
                r
            },
        _ => vstd::pervasive::unreached(),
    }
}

/// Clones one band of condition variants; the clone renders alike.
#[verifier::spinoff_prover]
fn clone_cond_c(c: &FilterCondition) -> (r: FilterCondition)
    requires
        c matches FilterCondition::DateTime64Value { .. } || c matches FilterCondition::DateRange { .. } || c matches FilterCondition::BooleanValue { .. } || c matches FilterCondition::UUIDValue { .. } || c matches FilterCondition::InValues { .. } || c matches FilterCondition::ArrayContains { .. } || c matches FilterCondition::ArrayHas { .. } || c matches FilterCondition::JSONValue { .. },
    ensures
        cond_alike(r, *c),
{
    match c {
            FilterCondition::DateTime64Value { column, operator, value } => {
                let r = FilterCondition::DateTime64Value {
                    column: column.clone(),
                    operator: *operator,
                    value: clone_opt_string(value),
                };
                proof {
                    lemma_cond_alike_refl(r, *c);
                }
                r
            },
            FilterCondition::DateRange { column, range_type } => {
                let r = FilterCondition::DateRange {
                    column: column.clone(),
                    range_type: range_type.clone(),
                };
                proof {
                    lemma_cond_alike_refl(r, *c);
                }
                r
            },
            FilterCondition::BooleanValue { column, operator, value } => {
                let r = FilterCondition::BooleanValue {
                    column: column.clone(),
                    operator: *operator,
                    value: *value,
                };
                proof {
                    lemma_cond_alike_refl(r, *c);
                }
                r
            },
            FilterCondition::UUIDValue { column, operator, value } => {
                let r = FilterCondition::UUIDValue {
                    column: column.clone(),
                    operator: *operator,
                    value: clone_opt_string(value),
                };
                proof {
                    lemma_cond_alike_refl(r, *c);
                }
                r
            },
            FilterCondition::InValues { column, operator, values, column_type } => {
                let r = FilterCondition::InValues {
                    column: column.clone(),
                    operator: *operator,
                    values: clone_strings(values),
                    column_type: *column_type,
                };
                proof {
                    reveal(cond_alike);
                    assert(cond_sql(r, true) == cond_sql(*c, true));
                    assert(cond_sql(r, false) == cond_sql(*c, false));
                    assert(cond_alike(r, *c));
                }
                r
            },
            FilterCondition::ArrayContains { column, operator, value } => {
                let r = FilterCondition::ArrayContains {
                    column: column.clone(),
                    operator: *operator,
                    value: value.clone(),
                };
                proof {
                    lemma_cond_alike_refl(r, *c);
                }
                r
            },
            FilterCondition::ArrayHas { column, operator, value } => {
                let r = FilterCondition::ArrayHas {
                    column: column.clone(),
                    operator: *operator,
                    value: value.clone(),
                };
                proof {
                    lemma_cond_alike_refl(r, *c);
                }
                r
            },
            FilterCondition::JSONValue { column, operator, value, path } => {
                let r = FilterCondition::JSONValue {
                    column: column.clone(),
                    operator: *operator,
                    value: clone_opt_string(value),
                    path: clone_opt_string(path),
                };
                proof {
                    lemma_cond_alike_refl(r, *c);
                }
                r
            },
        _ => vstd::pervasive::unreached(),
    }
}

impl Clone for FilterCondition {
    /// A clone renders exactly as the original does.
    fn clone(&self) -> (r: Self)
        ensures
            cond_alike(r, *self),
    {
        match self {
            FilterCondition::StringValue { .. }
            | FilterCondition::FixedStringValue { .. }
            | FilterCondition::UInt8Value { .. }
            | FilterCondition::UInt16Value { .. }
            | FilterCondition::UInt32Value { .. }
            | FilterCondition::UInt64Value { .. }
            | FilterCondition::Int8Value { .. } => clone_cond_a(self),
            FilterCondition::Int16Value { .. }
            | FilterCondition::Int32Value { .. }
            | FilterCondition::Int64Value { .. }
            | FilterCondition::Float32Value { .. }
            | FilterCondition::Float64Value { .. }
            | FilterCondition::DateValue { .. }
            | FilterCondition::DateTimeValue { .. } => clone_cond_b(self),
            _ => clone_cond_c(self),
        }
    }
}

impl Clone for DateRangeType {
    /// A clone equals the original.
    fn clone(&self) -> (r: Self)
        ensures
            r == *self,
    {
        match self {
            DateRangeType::Exact(ts) => DateRangeType::Exact(ts.clone()),
            DateRangeType::DateOnly(d) => DateRangeType::DateOnly(d.clone()),
            DateRangeType::Range { start, end } => {
                DateRangeType::Range { start: start.clone(), end: end.clone() }
            },
            DateRangeType::Relative(expr) => DateRangeType::Relative(expr.clone()),
        }
    }
}

/// Clones an optional string exactly.
fn clone_opt_string(v: &Option<String>) -> (r: Option<String>)
    ensures
        r == *v,
{
    match v {
        Some(s) => Some(s.clone()),
        None => None,
    }
}

/// Clones a vector of strings; the clone's view equals the original's.
fn clone_strings(v: &Vec<String>) -> (r: Vec<String>)
    ensures
        r@ == v@,
{
    let mut r: Vec<String> = Vec::new();
    let mut i: usize = 0;
    while i < v.len()
        invariant
            0 <= i <= v.len(),
            r@ == v@.subrange(0, i as int),
        decreases v.len() - i,
    {
        r.push(v[i].clone());
        proof {
            assert(r@ =~= v@.subrange(0, i + 1));
        }
        i = i + 1;
    }
    proof {
        assert(v@.subrange(0, v@.len() as int) =~= v@);
    }
    r
}

impl Clone for FilterExpression {
    /// A clone renders exactly as the original does.
    #[verifier::loop_isolation(false)]
    fn clone(&self) -> (r: Self)
        ensures
            expr_alike(r, *self),
        decreases *self,
    {
        match self {
            FilterExpression::Condition(c) => {
                let rc = c.clone();
                proof {
                    lemma_cond_alike_lift(rc, *c);
                }
                FilterExpression::Condition(rc)
            },
            FilterExpression::Group { operator, expressions } => {
                let mut children: Vec<FilterExpression> = Vec::new();
                let mut i: usize = 0;
                while i < expressions.len()
                    invariant
                        0 <= i <= expressions.len(),
                        children@.len() == i,
                        forall|j: int| 0 <= j < i ==> expr_alike(#[trigger] children@[j], expressions@[j]),
                    decreases expressions.len() - i,
                {
                    let child = &expressions[i];
                    proof {
                        let ghost v = (*self)->expressions;
                        assert(v == *expressions);
                        assert(decreases_to!(*self => v));
                        assert(decreases_to!(v => v@));
                        assert(decreases_to!(v@ => v@[i as int]));
                        assert(decreases_to!(*self => v@[i as int]));
                    }
                    children.push(child.clone());
                    i = i + 1;
                }
                let r = FilterExpression::Group {
                    operator: *operator,
                    expressions: children,
                };
                proof {
                    reveal(expr_alike);
                    lemma_exprs_congruent(r->expressions@, expressions@, 0, true);
                    lemma_exprs_congruent(r->expressions@, expressions@, 0, false);
                    assert(expr_alike(r, *self));
                }
                r
            },
        }
    }
}

impl FilterExpression {
    /// Renders this expression to SQL: conditions render alone; a group
    /// joins the non-empty renderings of its children with the group
    /// operator inside one parenthesis pair, eliding children that render
    /// to nothing; a group with no rendering children yields the empty
    /// string; and the first failing condition's error wins.
    #[verifier::loop_isolation(false)]
    pub fn to_sql(&self, case_insensitive: bool) -> (r: Result<String, FilterError>)
        ensures
            r is Ok <==> expr_ok(*self),
            r is Ok ==> r->Ok_0@ == expr_sql(*self, case_insensitive),
            r is Err ==> r->Err_0 == expr_err(*self),
        decreases *self,
    {
        match self {
            FilterExpression::Condition(c) => c.to_sql(case_insensitive),
            FilterExpression::Group { operator, expressions } => {
                let n = expressions.len();
                let ghost s = expressions@;
                let ghost parts = exprs_nonempty_sqls_from(s, 0, case_insensitive);
                let ghost sep = " "@ + logical_sql(*operator) + " "@;
                let mut sep_str = String::new();
                sep_str.append(" ");
                sep_str.append(operator.as_sql());
                sep_str.append(" ");
                proof {
                    assert(sep_str@ =~= sep);
                }
                let mut body = String::new();
                let mut any = false;
                let mut i: usize = 0;
                while i < n
                    invariant
                        n == s.len(),
                        s == expressions@,
                        0 <= i <= n,
                        forall|j: int| 0 <= j < i ==> expr_ok(#[trigger] s[j]),
                        sep_str@ == sep,
                        any <==> exprs_nonempty_sqls_upto(s, i as int, case_insensitive).len()
                            > 0,
                        body@ == join_sep(
                            exprs_nonempty_sqls_upto(s, i as int, case_insensitive),
                            sep,
                        ),
                    decreases n - i,
                {
                    let child = &expressions[i];
                    proof {
                        let ghost v = (*self)->expressions;
                        assert(v == *expressions);
                        assert(decreases_to!(*self => v));
                        assert(decreases_to!(v => v@));
                        assert(decreases_to!(v@ => v@[i as int]));
                        assert(decreases_to!(*self => v@[i as int]));
                    }
                    match child.to_sql(case_insensitive) {
                        Ok(part) => {
                            let ghost upto = exprs_nonempty_sqls_upto(s, i as int, case_insensitive);
                            if part.as_str().unicode_len() > 0 {
                                if any {
                                    body.append(sep_str.as_str());
                                }
                                let ghost before = body@;
                                body.append(part.as_str());
                                proof {
                                    assert(exprs_nonempty_sqls_upto(
                                        s,
                                        i as int + 1,
                                        case_insensitive,
                                    ) =~= upto.push(part@));
                                    crate::text::lemma_join_push(upto, sep, part@);
                                    assert(body@ =~= join_sep(
                                        exprs_nonempty_sqls_upto(
                                            s,
                                            i as int + 1,
                                            case_insensitive,
                                        ),
                                        sep,
                                    ));
                                }
                                any = true;
                            } else {
                                proof {
                                    assert(exprs_nonempty_sqls_upto(
                                        s,
                                        i as int + 1,
                                        case_insensitive,
                                    ) =~= upto);
                                }
                            }
                        },
                        Err(e) => {
                            proof {
                                lemma_exprs_err_from_first(s, 0, i as int);
                                lemma_exprs_ok_from_iff(s, 0);
                            }
                            return Err(e);
                        },
                    }
                    i = i + 1;
                }
                proof {
                    lemma_nonempty_upto_from(s, n as int, case_insensitive);
                    assert(exprs_nonempty_sqls_from(s, n as int, case_insensitive)
                        =~= Seq::<Seq<char>>::empty());
                    assert(exprs_nonempty_sqls_upto(s, n as int, case_insensitive) =~= parts);
                    lemma_exprs_ok_from_iff(s, 0);
                }
                if any {
                    let mut out = String::new();
                    out.append("(");
                    out.append(body.as_str());
                    out.append(")");
                    proof {
                        assert(out@ =~= expr_sql(*self, case_insensitive));
                    }
                    Ok(out)
                } else {
                    proof {
                        assert(expr_sql(*self, case_insensitive) =~= Seq::<char>::empty());
                    }
                    Ok(String::new())
                }
            },
        }
    }

    /// A group of `expressions` combined with AND.
    pub fn and(expressions: Vec<FilterExpression>) -> (r: Self)
        ensures
            r matches FilterExpression::Group { operator, expressions: es } && operator
                == LogicalOperator::And && es == expressions,
    {
        FilterExpression::Group { operator: LogicalOperator::And, expressions }
    }

    /// A group of `expressions` combined with OR.
    pub fn or(expressions: Vec<FilterExpression>) -> (r: Self)
        ensures
            r matches FilterExpression::Group { operator, expressions: es } && operator
                == LogicalOperator::Or && es == expressions,
    {
        FilterExpression::Group { operator: LogicalOperator::Or, expressions }
    }
}

/// The type family an unsupported-operator error speaks of.
#[derive(Debug, Clone, Copy, PartialEq, Eq, Structural)]
pub enum TypeFamily {
    Text,
    Integer,
    Float,
    DateTime,
    Boolean,
    Uuid,
    Array,
    Json,
    MultiValue,
}

/// The label of a type family, as the error message spells it.
pub open spec fn spec_family_label(f: TypeFamily) -> Seq<char> {
    match f {
        TypeFamily::Text => "string"@,
        TypeFamily::Integer => "integer"@,
        TypeFamily::Float => "float"@,
        TypeFamily::DateTime => "date/time"@,
        TypeFamily::Boolean => "boolean"@,
        TypeFamily::Uuid => "UUID"@,
        TypeFamily::Array => "array"@,
        TypeFamily::Json => "JSON"@,
        TypeFamily::MultiValue => "multi-value"@,
    }
}

/// Why a piece of SQL could not be produced.
#[derive(Debug)]
pub enum FilterError {
    /// The operator is not valid for the condition's type family; the
    /// error names both.
    UnsupportedOperator { family: TypeFamily, operator: FilterOperator },
    /// A comparison operator was given no value to compare against.
    MissingValue,
    /// `IN`/`NOT IN` was given no values.
    MissingInValues,
    /// A flat filter named a column absent from the registry.
    ColumnNotFound { column: String },
    /// A flat filter used an operator symbol the registry path rejects.
    InvalidOperator { operator: String },
    /// A literal did not parse into the column's declared type.
    InvalidValue { value: String },
    /// A date-range literal did not hold exactly two comma-separated parts.
    InvalidDateRange { value: String },
}

/// The label of a type family, as the error message spells it.
fn family_label(f: TypeFamily) -> (r: &'static str)
    ensures
        r@ == spec_family_label(f),
{
    match f {
        TypeFamily::Text => "string",
        TypeFamily::Integer => "integer",
        TypeFamily::Float => "float",
        TypeFamily::DateTime => "date/time",
        TypeFamily::Boolean => "boolean",
        TypeFamily::Uuid => "UUID",
        TypeFamily::Array => "array",
        TypeFamily::Json => "JSON",
        TypeFamily::MultiValue => "multi-value",
    }
}

impl FilterError {
    /// A human-readable description of the error, naming the offending
    /// column, operator or value where one is carried.
    pub fn message(&self) -> (r: String)
        ensures
            r@ == match *self {
                FilterError::UnsupportedOperator { family, operator } => "unsupported operator "@
                    + op_sql(operator) + " for "@ + spec_family_label(family) + " type"@,
                FilterError::MissingValue => "operator requires a value"@,
                FilterError::MissingInValues => "IN operator requires values"@,
                FilterError::ColumnNotFound { column } => "column not found: "@ + column@,
                FilterError::InvalidOperator { operator } => "invalid operator: "@ + operator@,
                FilterError::InvalidValue { value } => "invalid value: "@ + value@,
                FilterError::InvalidDateRange { value } => {
                    "DATE_RANGE requires two comma-separated values: "@ + value@
                },
            },
    {
        match self {
            FilterError::UnsupportedOperator { family, operator } => {
                let mut s = String::new();
                s.append("unsupported operator ");
                s.append(operator.as_sql());
                s.append(" for ");
                s.append(family_label(*family));
                s.append(" type");
                proof {
                    assert(s@ =~= "unsupported operator "@ + op_sql(*operator) + " for "@
                        + spec_family_label(*family) + " type"@);
                }
                s
            },
            FilterError::MissingValue => {
                let mut s = String::new();
                s.append("operator requires a value");
                proof {
                    assert(s@ =~= "operator requires a value"@);
                }
                s
            },
            FilterError::MissingInValues => {
                let mut s = String::new();
                s.append("IN operator requires values");
                proof {
                    assert(s@ =~= "IN operator requires values"@);
                }
                s
            },
            FilterError::ColumnNotFound { column } => {
                let mut s = String::new();
                s.append("column not found: ");
                s.append(column.as_str());
                proof {
                    assert(s@ =~= "column not found: "@ + column@);
                }
                s
            },
            FilterError::InvalidOperator { operator } => {
                let mut s = String::new();
                s.append("invalid operator: ");
                s.append(operator.as_str());
                proof {
                    assert(s@ =~= "invalid operator: "@ + operator@);
                }
                s
            },
            FilterError::InvalidValue { value } => {
                let mut s = String::new();
                s.append("invalid value: ");
                s.append(value.as_str());
                proof {
                    assert(s@ =~= "invalid value: "@ + value@);
                }
                s
            },
            FilterError::InvalidDateRange { value } => {
                let mut s = String::new();
                s.append("DATE_RANGE requires two comma-separated values: ");
                s.append(value.as_str());
                proof {
                    assert(s@ =~= "DATE_RANGE requires two comma-separated values: "@ + value@);
                }
                s
            },
        }
    }
}

/// One flat filter item: column name, operator symbol, literal value, and
/// the connector joining this item to the next one.
#[derive(Debug)]
pub struct JsonFilter {
    pub n: String,
    pub f: String,
    pub v: String,
    pub c: Option<String>,
}

/// The operator a free-standing symbol denotes; an unknown symbol denotes
/// equality. Matching ignores ASCII case.
pub open spec fn spec_parse_operator(f: Seq<char>) -> FilterOperator {
    if eq_ci(f, "LIKE"@) {
        FilterOperator::Like
    } else if eq_ci(f, "NOT LIKE"@) {
        FilterOperator::NotLike
    } else if eq_ci(f, "="@) {
        FilterOperator::Equal
    } else if eq_ci(f, "!="@) {
        FilterOperator::NotEqual
    } else if eq_ci(f, ">"@) {
        FilterOperator::GreaterThan
    } else if eq_ci(f, ">="@) {
        FilterOperator::GreaterThanOrEqual
    } else if eq_ci(f, "<"@) {
        FilterOperator::LessThan
    } else if eq_ci(f, "<="@) {
        FilterOperator::LessThanOrEqual
    } else if eq_ci(f, "IN"@) {
        FilterOperator::In
    } else if eq_ci(f, "NOT IN"@) {
        FilterOperator::NotIn
    } else if eq_ci(f, "IS NULL"@) {
        FilterOperator::IsNull
    } else if eq_ci(f, "IS NOT NULL"@) {
        FilterOperator::IsNotNull
    } else if eq_ci(f, "STARTS WITH"@) {
        FilterOperator::StartsWith
    } else if eq_ci(f, "ENDS WITH"@) {
        FilterOperator::EndsWith
    } else if eq_ci(f, "ARRAY CONTAINS"@) {
        FilterOperator::ArrayContains
    } else if eq_ci(f, "ARRAY HAS"@) {
        FilterOperator::ArrayHas
    } else if eq_ci(f, "DATE_ONLY"@) {
        FilterOperator::DateEqual
    } else if eq_ci(f, "DATE_RANGE"@) {
        FilterOperator::DateRange
    } else if eq_ci(f, "RELATIVE"@) {
        FilterOperator::RelativeDate
    } else {
        FilterOperator::Equal
    }
}

/// Whether a symbol is one of the known operator symbols (the set that the
/// registry-driven coercion accepts).
pub open spec fn known_operator(f: Seq<char>) -> bool {
    ||| eq_ci(f, "LIKE"@)
    ||| eq_ci(f, "="@)
    ||| eq_ci(f, "!="@)
    ||| eq_ci(f, ">"@)
    ||| eq_ci(f, ">="@)
    ||| eq_ci(f, "<"@)
    ||| eq_ci(f, "<="@)
    ||| eq_ci(f, "NOT LIKE"@)
    ||| eq_ci(f, "IN"@)
    ||| eq_ci(f, "NOT IN"@)
    ||| eq_ci(f, "IS NULL"@)
    ||| eq_ci(f, "IS NOT NULL"@)
    ||| eq_ci(f, "STARTS WITH"@)
    ||| eq_ci(f, "ENDS WITH"@)
    ||| eq_ci(f, "ARRAY CONTAINS"@)
    ||| eq_ci(f, "ARRAY HAS"@)
    ||| eq_ci(f, "DATE_ONLY"@)
    ||| eq_ci(f, "DATE_RANGE"@)
    ||| eq_ci(f, "RELATIVE"@)
}

/// The operator a registry-accepted symbol denotes: the same table as the
/// free parser.
pub open spec fn spec_registry_op(f: Seq<char>) -> FilterOperator {
    spec_parse_operator(f)
}

/// Parses a free-standing operator symbol; unknown symbols denote equality.
pub fn parse_operator(op: &str) -> (r: FilterOperator)
    ensures
        r == spec_parse_operator(op@),
{
    if str_eq_ci(op, "LIKE") {
        FilterOperator::Like
    } else if str_eq_ci(op, "NOT LIKE") {
        FilterOperator::NotLike
    } else if str_eq_ci(op, "=") {
        FilterOperator::Equal
    } else if str_eq_ci(op, "!=") {
        FilterOperator::NotEqual
    } else if str_eq_ci(op, ">") {
        FilterOperator::GreaterThan
    } else if str_eq_ci(op, ">=") {
        FilterOperator::GreaterThanOrEqual
    } else if str_eq_ci(op, "<") {
        FilterOperator::LessThan
    } else if str_eq_ci(op, "<=") {
        FilterOperator::LessThanOrEqual
    } else if str_eq_ci(op, "IN") {
        FilterOperator::In
    } else if str_eq_ci(op, "NOT IN") {
        FilterOperator::NotIn
    } else if str_eq_ci(op, "IS NULL") {
        FilterOperator::IsNull
    } else if str_eq_ci(op, "IS NOT NULL") {
        FilterOperator::IsNotNull
    } else if str_eq_ci(op, "STARTS WITH") {
        FilterOperator::StartsWith
    } else if str_eq_ci(op, "ENDS WITH") {
        FilterOperator::EndsWith
    } else if str_eq_ci(op, "ARRAY CONTAINS") {
        FilterOperator::ArrayContains
    } else if str_eq_ci(op, "ARRAY HAS") {
        FilterOperator::ArrayHas
    } else if str_eq_ci(op, "DATE_ONLY") {
        FilterOperator::DateEqual
    } else if str_eq_ci(op, "DATE_RANGE") {
        FilterOperator::DateRange
    } else if str_eq_ci(op, "RELATIVE") {
        FilterOperator::RelativeDate
    } else {
        FilterOperator::Equal
    }
}

/// Builds a filter tree by appending expressions: successive appends are
/// always conjoined under a top-level AND group.
#[derive(Debug)]
pub struct FilterBuilder {
    pub root: Option<FilterExpression>,
    pub case_insensitive: bool,
}

/// The SQL a built root renders to when a new expression is appended: the
/// new piece alone over an empty root, else both sides conjoined in one
/// AND group — a side that renders to nothing is elided from the join.
pub open spec fn combined_sql(root: Option<Seq<char>>, add: Seq<char>) -> Seq<char> {
    match root {
        None => add,
        Some(r) => if r.len() == 0 && add.len() == 0 {
            Seq::empty()
        } else if r.len() == 0 {
            "("@ + add + ")"@
        } else if add.len() == 0 {
            "("@ + r + ")"@
        } else {
            "("@ + r + " AND "@ + add + ")"@
        },
    }
}

/// The SQL a fresh group over `expressions` renders to.
pub open spec fn group_sql(operator: LogicalOperator, expressions: Seq<FilterExpression>, ci: bool) -> Seq<char> {
    let parts = exprs_nonempty_sqls_from(expressions, 0, ci);
    if parts.len() == 0 {
        Seq::<char>::empty()
    } else {
        "("@ + join_sep(parts, " "@ + logical_sql(operator) + " "@) + ")"@
    }
}

impl FilterBuilder {
    /// An empty, case-sensitive builder.
    pub fn new() -> (r: Self)
        ensures
            r.root is None,
            r.case_insensitive == false,
    {
        FilterBuilder { root: None, case_insensitive: false }
    }

    /// The same builder with the case-insensitivity flag set to `value`.
    pub fn case_insensitive(self, value: bool) -> (r: Self)
        ensures
            r.case_insensitive == value,
            r.root == self.root,
    {
        FilterBuilder { root: self.root, case_insensitive: value }
    }

    /// Appends a single condition, conjoining it with any existing root.
    pub fn add_condition(self, condition: FilterCondition) -> (r: Self)
        ensures
            r.case_insensitive == self.case_insensitive,
            r.root is Some,
            expr_ok(r.root->0) <==> (match self.root {
                Some(e) => expr_ok(e) && cond_ok(condition),
                None => cond_ok(condition),
            }),
            forall|ci: bool|
                expr_sql(#[trigger] r.root->0, ci) == combined_sql(
                    match self.root {
                        Some(e) => Some(expr_sql(e, ci)),
                        None => None,
                    },
                    cond_sql(condition, ci),
                ),
            self.root is None ==> r.root == Some(FilterExpression::Condition(condition)),
            self.root matches Some(old_root) ==> (r.root->0 matches FilterExpression::Group {
                operator: gop,
                expressions: ges,
            } && gop == LogicalOperator::And && ges@ == seq![
                old_root,
                FilterExpression::Condition(condition),
            ]),
    {
        self.add_expression(FilterExpression::Condition(condition))
    }

    /// Appends an expression, conjoining it with any existing root.
    pub fn add_expression(self, expression: FilterExpression) -> (r: Self)
        ensures
            r.case_insensitive == self.case_insensitive,
            r.root is Some,
            expr_ok(r.root->0) <==> (match self.root {
                Some(e) => expr_ok(e) && expr_ok(expression),
                None => expr_ok(expression),
            }),
            forall|ci: bool|
                expr_sql(#[trigger] r.root->0, ci) == combined_sql(
                    match self.root {
                        Some(e) => Some(expr_sql(e, ci)),
                        None => None,
                    },
                    expr_sql(expression, ci),
                ),
            self.root is None ==> r.root == Some(expression),
            self.root matches Some(old_root) ==> (r.root->0 matches FilterExpression::Group {
                operator: gop,
                expressions: ges,
            } && gop == LogicalOperator::And && ges@ == seq![old_root, expression]),
    {
        match self.root {
            None => FilterBuilder {
                root: Some(expression),
                case_insensitive: self.case_insensitive,
            },
            Some(existing) => {
                let mut children: Vec<FilterExpression> = Vec::new();
                children.push(existing);
                children.push(expression);
                let group = FilterExpression::Group {
                    operator: LogicalOperator::And,
                    expressions: children,
                };
                proof {
                    let s = group->expressions@;
                    assert(s.len() == 2);
                    assert(s[0] == self.root->0);
                    assert(s[1] == expression);
                    assert(s =~= seq![self.root->0, expression]);
                    lemma_builder_pair(group, true);
                    lemma_builder_pair(group, false);
                }
                FilterBuilder { root: Some(group), case_insensitive: self.case_insensitive }
            },
        }
    }

    /// Appends a new group of `expressions` under `operator`, conjoining it
    /// with any existing root.
    pub fn group(self, operator: LogicalOperator, expressions: Vec<FilterExpression>) -> (r: Self)
        ensures
            r.case_insensitive == self.case_insensitive,
            r.root is Some,
            expr_ok(r.root->0) <==> ((match self.root {
                Some(e) => expr_ok(e),
                None => true,
            }) && exprs_ok_from(expressions@, 0)),
            forall|ci: bool|
                expr_sql(#[trigger] r.root->0, ci) == combined_sql(
                    match self.root {
                        Some(e) => Some(expr_sql(e, ci)),
                        None => None,
                    },
                    group_sql(operator, expressions@, ci),
                ),
            self.root is None ==> (r.root->0 matches FilterExpression::Group {
                operator: gop,
                expressions: ges,
            } && gop == operator && ges == expressions),
            self.root matches Some(old_root) ==> (r.root->0 matches FilterExpression::Group {
                operator: gop,
                expressions: ges,
            } && gop == LogicalOperator::And && ges@.len() == 2 && ges@[0] == old_root && (
            ges@[1] matches FilterExpression::Group {
                operator: gop2,
                expressions: ges2,
            } && gop2 == operator && ges2 == expressions)),
    {
        let group = FilterExpression::Group { operator, expressions };
        proof {
            assert(forall|ci: bool|
                #[trigger] expr_sql(group, ci) == group_sql(
                    operator,
                    group->expressions@,
                    ci,
                ));
        }
        self.add_expression(group)
    }

    /// Renders the built tree: the empty string when nothing was added or
    /// the tree renders empty, else the fragment prefixed with ` WHERE `.
    pub fn build(&self) -> (r: Result<String, FilterError>)
        ensures
            r is Ok <==> (match self.root {
                Some(e) => expr_ok(e),
                None => true,
            }),
            r is Ok ==> r->Ok_0@ == (match self.root {
                Some(e) => if expr_sql(e, self.case_insensitive).len() == 0 {
                    Seq::<char>::empty()
                } else {
                    " WHERE "@ + expr_sql(e, self.case_insensitive)
                },
                None => Seq::<char>::empty(),
            }),
            r is Err ==> r->Err_0 == expr_err(self.root->0),
    {
        match &self.root {
            None => Ok(String::new()),
            Some(expression) => {
                match expression.to_sql(self.case_insensitive) {
                    Ok(sql) => {
                        if sql.as_str().unicode_len() == 0 {
                            Ok(String::new())
                        } else {
                            let mut out = String::new();
                            out.append(" WHERE ");
                            out.append(sql.as_str());
                            Ok(out)
                        }
                    },
                    Err(e) => Err(e),
                }
            },
        }
    }
}

/// The acceptance and SQL of a two-child AND group, unfolded: a side that
/// renders to nothing is elided from the join.
proof fn lemma_builder_pair(g: FilterExpression, ci: bool)
    requires
        g matches FilterExpression::Group { operator: LogicalOperator::And, expressions },
        g->expressions@.len() == 2,
    ensures
        expr_ok(g) <==> (expr_ok(g->expressions@[0]) && expr_ok(g->expressions@[1])),
        expr_sql(g, ci) == combined_sql(
            Some(expr_sql(g->expressions@[0], ci)),
            expr_sql(g->expressions@[1], ci),
        ),
{
    let s = g->expressions@;
    reveal_with_fuel(exprs_ok_from, 4);
    reveal_with_fuel(exprs_nonempty_sqls_from, 4);
    reveal_with_fuel(join_sep, 3);
    assert(exprs_ok_from(s, 2) == true);
    assert(exprs_ok_from(s, 1) == (expr_ok(s[1]) && exprs_ok_from(s, 2)));
    assert(exprs_ok_from(s, 0) == (expr_ok(s[0]) && exprs_ok_from(s, 1)));
    assert(expr_ok(g) == exprs_ok_from(s, 0));
    reveal_strlit("AND");
    reveal_strlit(" AND ");
    reveal_strlit(" ");
    let sep = " "@ + logical_sql(LogicalOperator::And) + " "@;
    assert(sep =~= " AND "@);
    let a = expr_sql(s[0], ci);
    let b = expr_sql(s[1], ci);
    assert(exprs_nonempty_sqls_from(s, 2, ci) =~= Seq::<Seq<char>>::empty());
    if a.len() == 0 && b.len() == 0 {
        assert(exprs_nonempty_sqls_from(s, 0, ci) =~= Seq::<Seq<char>>::empty());
        assert(expr_sql(g, ci) =~= Seq::<char>::empty());
    } else if a.len() == 0 {
        assert(exprs_nonempty_sqls_from(s, 0, ci) =~= seq![b]);
        assert(expr_sql(g, ci) =~= "("@ + b + ")"@);
    } else if b.len() == 0 {
        assert(exprs_nonempty_sqls_from(s, 0, ci) =~= seq![a]);
        assert(expr_sql(g, ci) =~= "("@ + a + ")"@);
    } else {
        assert(exprs_nonempty_sqls_from(s, 0, ci) =~= seq![a, b]);
        assert(join_sep(exprs_nonempty_sqls_from(s, 0, ci), sep) =~= a + sep + b);
        assert(expr_sql(g, ci) =~= "("@ + a + " AND "@ + b + ")"@);
    }
}


impl FilterCondition {
    /// A string condition.
    pub fn string(column: &str, operator: FilterOperator, value: Option<&str>) -> (r:
        FilterCondition)
        ensures
            r matches FilterCondition::StringValue { column: c, operator: o, value: v } && c@
                == column@ && o == operator && (match value {
                Some(x) => v matches Some(s) && s@ == x@,
                None => v is None,
            }),
    {
        FilterCondition::StringValue {
            column: column.to_owned(),
            operator,
            value: match value {
                Some(v) => Some(v.to_owned()),
                None => None,
            },
        }
    }

    /// A fixed-width string condition.
    pub fn fixed_string(column: &str, operator: FilterOperator, value: Option<&str>) -> (r:
        FilterCondition)
        ensures
            r matches FilterCondition::FixedStringValue { column: c, operator: o, value: v } && c@
                == column@ && o == operator && (match value {
                Some(x) => v matches Some(s) && s@ == x@,
                None => v is None,
            }),
    {
        FilterCondition::FixedStringValue {
            column: column.to_owned(),
            operator,
            value: match value {
                Some(v) => Some(v.to_owned()),
                None => None,
            },
        }
    }

    /// An unsigned 8-bit condition.
    pub fn uint8(column: &str, operator: FilterOperator, value: Option<u8>) -> (r: FilterCondition)
        ensures
            r matches FilterCondition::UInt8Value { column: c, operator: o, value: v } && c@
                == column@ && o == operator && v == value,
    {
        FilterCondition::UInt8Value { column: column.to_owned(), operator, value }
    }

    /// An unsigned 32-bit condition.
    pub fn uint32(column: &str, operator: FilterOperator, value: Option<u32>) -> (r:
        FilterCondition)
        ensures
            r matches FilterCondition::UInt32Value { column: c, operator: o, value: v } && c@
                == column@ && o == operator && v == value,
    {
        FilterCondition::UInt32Value { column: column.to_owned(), operator, value }
    }

    /// A signed 32-bit condition.
    pub fn int32(column: &str, operator: FilterOperator, value: Option<i32>) -> (r:
        FilterCondition)
        ensures
            r matches FilterCondition::Int32Value { column: c, operator: o, value: v } && c@
                == column@ && o == operator && v == value,
    {
        FilterCondition::Int32Value { column: column.to_owned(), operator, value }
    }

    /// A signed 64-bit condition.
    pub fn int64(column: &str, operator: FilterOperator, value: Option<i64>) -> (r:
        FilterCondition)
        ensures
            r matches FilterCondition::Int64Value { column: c, operator: o, value: v } && c@
                == column@ && o == operator && v == value,
    {
        FilterCondition::Int64Value { column: column.to_owned(), operator, value }
    }

    /// A 64-bit float condition; the value is the literal's decimal text.
    pub fn float64(column: &str, operator: FilterOperator, value: Option<&str>) -> (r:
        FilterCondition)
        ensures
            r matches FilterCondition::Float64Value { column: c, operator: o, value: v } && c@
                == column@ && o == operator && (match value {
                Some(x) => v matches Some(s) && s@ == x@,
                None => v is None,
            }),
    {
        FilterCondition::Float64Value {
            column: column.to_owned(),
            operator,
            value: match value {
                Some(v) => Some(v.to_owned()),
                None => None,
            },
        }
    }

    /// A date condition.
    pub fn date(column: &str, operator: FilterOperator, value: Option<&str>) -> (r:
        FilterCondition)
        ensures
            r matches FilterCondition::DateValue { column: c, operator: o, value: v } && c@
                == column@ && o == operator && (match value {
                Some(x) => v matches Some(s) && s@ == x@,
                None => v is None,
            }),
    {
        FilterCondition::DateValue {
            column: column.to_owned(),
            operator,
            value: match value {
                Some(v) => Some(v.to_owned()),
                None => None,
            },
        }
    }

    /// A datetime condition.
    pub fn date_time(column: &str, operator: FilterOperator, value: Option<&str>) -> (r:
        FilterCondition)
        ensures
            r matches FilterCondition::DateTimeValue { column: c, operator: o, value: v } && c@
                == column@ && o == operator && (match value {
                Some(x) => v matches Some(s) && s@ == x@,
                None => v is None,
            }),
    {
        FilterCondition::DateTimeValue {
            column: column.to_owned(),
            operator,
            value: match value {
                Some(v) => Some(v.to_owned()),
                None => None,
            },
        }
    }

    /// A boolean condition.
    pub fn boolean(column: &str, operator: FilterOperator, value: Option<bool>) -> (r:
        FilterCondition)
        ensures
            r matches FilterCondition::BooleanValue { column: c, operator: o, value: v } && c@
                == column@ && o == operator && v == value,
    {
        FilterCondition::BooleanValue { column: column.to_owned(), operator, value }
    }

    /// A UUID condition.
    pub fn uuid(column: &str, operator: FilterOperator, value: Option<&str>) -> (r:
        FilterCondition)
        ensures
            r matches FilterCondition::UUIDValue { column: c, operator: o, value: v } && c@
                == column@ && o == operator && (match value {
                Some(x) => v matches Some(s) && s@ == x@,
                None => v is None,
            }),
    {
        FilterCondition::UUIDValue {
            column: column.to_owned(),
            operator,
            value: match value {
                Some(v) => Some(v.to_owned()),
                None => None,
            },
        }
    }

    /// A JSON condition with an optional extraction path.
    pub fn json(column: &str, operator: FilterOperator, value: Option<&str>, path: Option<&str>) -> (
        r: FilterCondition)
        ensures
            r matches FilterCondition::JSONValue { column: c, operator: o, value: v, path: p } && c@
                == column@ && o == operator && (match value {
                Some(x) => v matches Some(s) && s@ == x@,
                None => v is None,
            }) && (match path {
                Some(x) => p matches Some(s) && s@ == x@,
                None => p is None,
            }),
    {
        FilterCondition::JSONValue {
            column: column.to_owned(),
            operator,
            value: match value {
                Some(v) => Some(v.to_owned()),
                None => None,
            },
            path: match path {
                Some(p) => Some(p.to_owned()),
                None => None,
            },
        }
    }

    /// An array condition holding all of the comma-separated values.
    pub fn array_contains(column: &str, values: &str) -> (r: FilterCondition)
        ensures
            r matches FilterCondition::ArrayContains { column: c, operator: o, value: v } && c@
                == column@ && o == FilterOperator::ArrayContains && v@ == values@,
    {
        FilterCondition::ArrayContains {
            column: column.to_owned(),
            operator: FilterOperator::ArrayContains,
            value: values.to_owned(),
        }
    }

    /// An array condition holding one value.
    pub fn array_has(column: &str, value: &str) -> (r: FilterCondition)
        ensures
            r matches FilterCondition::ArrayHas { column: c, operator: o, value: v } && c@
                == column@ && o == FilterOperator::ArrayHas && v@ == value@,
    {
        FilterCondition::ArrayHas {
            column: column.to_owned(),
            operator: FilterOperator::ArrayHas,
            value: value.to_owned(),
        }
    }

    /// An exact-timestamp date condition.
    pub fn date_exact(column: &str, timestamp: &str) -> (r: FilterCondition)
        ensures
            r matches FilterCondition::DateRange { column: c, range_type } && c@ == column@
                && (range_type matches DateRangeType::Exact(ts) && ts@ == timestamp@),
    {
        FilterCondition::DateRange {
            column: column.to_owned(),
            range_type: DateRangeType::Exact(timestamp.to_owned()),
        }
    }

    /// A whole-day date condition.
    pub fn date_only(column: &str, date: &str) -> (r: FilterCondition)
        ensures
            r matches FilterCondition::DateRange { column: c, range_type } && c@ == column@
                && (range_type matches DateRangeType::DateOnly(d) && d@ == date@),
    {
        FilterCondition::DateRange {
            column: column.to_owned(),
            range_type: DateRangeType::DateOnly(date.to_owned()),
        }
    }

    /// An explicit start/end date-range condition.
    pub fn date_range(column: &str, start: &str, end: &str) -> (r: FilterCondition)
        ensures
            r matches FilterCondition::DateRange { column: c, range_type } && c@ == column@
                && (range_type matches DateRangeType::Range { start: s, end: e } && s@ == start@
                && e@ == end@),
    {
        FilterCondition::DateRange {
            column: column.to_owned(),
            range_type: DateRangeType::Range { start: start.to_owned(), end: end.to_owned() },
        }
    }

    /// A relative date condition over a raw dialect expression.
    pub fn relative_date(column: &str, expr: &str) -> (r: FilterCondition)
        ensures
            r matches FilterCondition::DateRange { column: c, range_type } && c@ == column@
                && (range_type matches DateRangeType::Relative(x) && x@ == expr@),
    {
        FilterCondition::DateRange {
            column: column.to_owned(),
            range_type: DateRangeType::Relative(expr.to_owned()),
        }
    }

    /// A multi-value IN condition with optional type information.
    pub fn in_values(
        column: &str,
        operator: FilterOperator,
        values: Vec<String>,
        column_type: Option<ColumnTypeInfo>,
    ) -> (r: FilterCondition)
        ensures
            r matches FilterCondition::InValues {
                column: c,
                operator: o,
                values: vs,
                column_type: t,
            } && c@ == column@ && o == operator && vs == values && t == column_type,
    {
        FilterCondition::InValues { column: column.to_owned(), operator, values, column_type }
    }
}


impl Default for FilterBuilder {
    /// The default builder is empty and case-sensitive.
    fn default() -> (r: Self)
        ensures
            r.root is None,
            r.case_insensitive == false,
    {
        FilterBuilder::new()
    }
}

/// A sequence of leaf expressions over a band of conditions renders without
/// error exactly when every condition in the band does.
pub proof fn lemma_leaf_run_ok(ges: Seq<FilterExpression>, conds: Seq<FilterCondition>, base: int)
    requires
        0 <= base,
        base + ges.len() <= conds.len(),
        forall|k: int|
            0 <= k < ges.len() ==> #[trigger] ges[k] == FilterExpression::Condition(
                conds[base + k],
            ),
    ensures
        exprs_ok_from(ges, 0) <==> (forall|j: int|
            base <= j < base + ges.len() ==> cond_ok(#[trigger] conds[j])),
{
    lemma_exprs_ok_from_iff(ges, 0);
    if forall|k: int| 0 <= k < ges.len() ==> expr_ok(#[trigger] ges[k]) {
        assert forall|j: int| base <= j < base + ges.len() implies cond_ok(
            #[trigger] conds[j],
        ) by {
            assert(expr_ok(ges[j - base]));
            assert(ges[j - base] == FilterExpression::Condition(conds[j]));
        }
    } else {
        let k = choose|k: int| 0 <= k < ges.len() && !expr_ok(#[trigger] ges[k]);
        assert(ges[k] == FilterExpression::Condition(conds[base + k]));
        assert(!cond_ok(conds[base + k]));
        assert(!exprs_ok_from(ges, 0));
    }
}

// ---------------------------------------------------------------------------
// Rendering laws.
// ---------------------------------------------------------------------------

/// A group with at least one rendering child renders as one parenthesis
/// pair around its children's non-empty fragments joined by the group's
/// operator keyword between single spaces.
pub proof fn law_group_parenthesized(e: FilterExpression, ci: bool)
    requires
        e matches FilterExpression::Group { expressions, .. },
        exprs_nonempty_sqls_from(e->expressions@, 0, ci).len() > 0,
    ensures
        expr_sql(e, ci) == "("@ + join_sep(
            exprs_nonempty_sqls_from(e->expressions@, 0, ci),
            " "@ + logical_sql(e->operator) + " "@,
        ) + ")"@,
        expr_sql(e, ci).len() > 0,
        expr_sql(e, ci)[0] == '(',
        expr_sql(e, ci)[expr_sql(e, ci).len() - 1] == ')',
{
    reveal_strlit("(");
    reveal_strlit(")");
    let body = join_sep(
        exprs_nonempty_sqls_from(e->expressions@, 0, ci),
        " "@ + logical_sql(e->operator) + " "@,
    );
    assert(expr_sql(e, ci) == "("@ + body + ")"@);
    assert(expr_sql(e, ci)[0] == '(');
    assert(expr_sql(e, ci)[expr_sql(e, ci).len() - 1] == ')');
}

/// A child whose rendering is empty is elided from its parent's join: the
/// joined fragments are exactly the non-empty child renderings, so no
/// dangling connector remains, and a group left with no fragments renders
/// to the empty string.
pub proof fn law_empty_child_elided(e: FilterExpression, ci: bool)
    requires
        e matches FilterExpression::Group { expressions, .. },
    ensures
        ({
            let parts = exprs_nonempty_sqls_from(e->expressions@, 0, ci);
            &&& (forall|k: int| 0 <= k < parts.len() ==> #[trigger] parts[k].len() > 0)
            &&& expr_sql(e, ci) == if parts.len() == 0 {
                Seq::<char>::empty()
            } else {
                "("@ + join_sep(parts, " "@ + logical_sql(e->operator) + " "@) + ")"@
            }
        }),
{
    lemma_nonempty_all_nonempty(e->expressions@, 0, ci);
}

/// Every fragment the non-empty filter keeps is non-empty.
proof fn lemma_nonempty_all_nonempty(s: Seq<FilterExpression>, i: int, ci: bool)
    requires
        0 <= i <= s.len(),
    ensures
        forall|k: int|
            0 <= k < exprs_nonempty_sqls_from(s, i, ci).len()
                ==> #[trigger] exprs_nonempty_sqls_from(s, i, ci)[k].len() > 0,
    decreases s.len() - i,
{
    if i < s.len() {
        lemma_nonempty_all_nonempty(s, i + 1, ci);
        assert forall|k: int|
            0 <= k < exprs_nonempty_sqls_from(s, i, ci).len() implies #[trigger] exprs_nonempty_sqls_from(
            s,
            i,
            ci,
        )[k].len() > 0 by {
            if expr_sql(s[i], ci).len() == 0 {
                assert(exprs_nonempty_sqls_from(s, i, ci)[k] == exprs_nonempty_sqls_from(
                    s,
                    i + 1,
                    ci,
                )[k]);
            } else if k > 0 {
                assert(exprs_nonempty_sqls_from(s, i, ci)[k] == exprs_nonempty_sqls_from(
                    s,
                    i + 1,
                    ci,
                )[k - 1]);
            }
        }
    }
}

/// An empty group renders to the empty string.
pub proof fn law_empty_group_renders_empty(e: FilterExpression, ci: bool)
    requires
        e matches FilterExpression::Group { expressions, .. },
        e->expressions@.len() == 0,
    ensures
        expr_sql(e, ci) == Seq::<char>::empty(),
        expr_ok(e),
{
}

/// With case folding on, string equality and pattern comparisons wrap both
/// the column and the literal in `lower`; with it off they never do.
pub proof fn law_case_fold_wraps(col: Seq<char>, op: FilterOperator, v: Seq<char>)
    requires
        op == FilterOperator::Equal || op == FilterOperator::NotEqual || op == FilterOperator::Like
            || op == FilterOperator::NotLike,
    ensures
        string_cond_sql(col, op, Some(v), true) == cmp_sql(lowered(col), op, lowered(quoted(v))),
        string_cond_sql(col, op, Some(v), false) == cmp_sql(col, op, quoted(v)),
{
}

/// Rendering is a pure function of the tree and the case mode: any two
/// renders of the same tree produce the same text. Together with
/// `FilterExpression::to_sql`'s contract, which pins each successful
/// render to `expr_sql`, two calls on equal inputs give equal strings.
pub proof fn law_rendering_deterministic(
    e: FilterExpression,
    ci: bool,
    s1: Seq<char>,
    s2: Seq<char>,
)
    requires
        s1 == expr_sql(e, ci),
        s2 == expr_sql(e, ci),
    ensures
        s1 == s2,
{
}

} // verus!
