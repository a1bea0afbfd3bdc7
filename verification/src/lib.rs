//! Type-aware construction of ClickHouse SQL fragments: WHERE clauses built
//! from a typed filter-condition tree (or from a flat, connector-annotated
//! filter list), ORDER BY synthesis, and LIMIT/OFFSET pagination.
//!
//! Every rendering function carries a contract that pins the produced SQL
//! text down to the exact character sequence.

pub mod filtering;
pub mod pagination;
pub mod sorting;
pub mod text;

use crate::filtering::{
    cond_ok, expr_alike, expr_err, expr_ok, expr_sql, exprs_err_from, exprs_ok_from,
    known_operator, lemma_expr_alike_unfold, lemma_exprs_congruent, opt_view, spec_registry_op,
    ColumnTypeInfo, DateRangeType, FilterBuilder, FilterCondition, FilterError, FilterExpression,
    FilterOperator, JsonFilter, LogicalOperator,
};
use crate::pagination::{
    spec_current_page, spec_next_page, spec_offset, spec_per_page, spec_prev_page,
    spec_total_pages, spec_total_records, Paginate,
};
use crate::sorting::{first_col, has_col, order_by_sql, strictly_sorted, SortedColumn, Sorting};
use crate::text::{
    dec_int, eq_ci, first_sep, is_float_lit, is_float_literal, join_sep, parse_int, parse_nat,
    parse_signed, parse_unsigned, scan_sep, split_char, split_trim, str_eq_ci, trim_seq, views_of,
};
use vstd::prelude::*;

verus! {

/// A column's declared ClickHouse type, carrying the column name. The
/// registry a caller hands in is a vector of these, looked up by name.
#[derive(Debug)]
pub enum ColumnDef {
    String(String),
    FixedString(String),
    UInt8(String),
    UInt16(String),
    UInt32(String),
    UInt64(String),
    UInt128(String),
    UInt256(String),
    Int8(String),
    Int16(String),
    Int32(String),
    Int64(String),
    Int128(String),
    Int256(String),
    Float32(String),
    Float64(String),
    Date(String),
    Date32(String),
    DateTime(String),
    DateTime64(String),
    Boolean(String),
    UUID(String),
    ArrayString(String),
    ArrayUInt8(String),
    ArrayUInt16(String),
    ArrayUInt32(String),
    ArrayUInt64(String),
    ArrayInt8(String),
    ArrayInt16(String),
    ArrayInt32(String),
    ArrayInt64(String),
    ArrayFloat32(String),
    ArrayFloat64(String),
    Enum8(String),
    Enum16(String),
    IPv4(String),
    IPv6(String),
    Decimal(String),
    JSON(String),
}

/// The name a column definition carries.
pub open spec fn spec_column_name(def: ColumnDef) -> Seq<char> {
    match def {
        ColumnDef::String(name) => name@,
        ColumnDef::FixedString(name) => name@,
        ColumnDef::UInt8(name) => name@,
        ColumnDef::UInt16(name) => name@,
        ColumnDef::UInt32(name) => name@,
        ColumnDef::UInt64(name) => name@,
        ColumnDef::UInt128(name) => name@,
        ColumnDef::UInt256(name) => name@,
        ColumnDef::Int8(name) => name@,
        ColumnDef::Int16(name) => name@,
        ColumnDef::Int32(name) => name@,
        ColumnDef::Int64(name) => name@,
        ColumnDef::Int128(name) => name@,
        ColumnDef::Int256(name) => name@,
        ColumnDef::Float32(name) => name@,
        ColumnDef::Float64(name) => name@,
        ColumnDef::Date(name) => name@,
        ColumnDef::Date32(name) => name@,
        ColumnDef::DateTime(name) => name@,
        ColumnDef::DateTime64(name) => name@,
        ColumnDef::Boolean(name) => name@,
        ColumnDef::UUID(name) => name@,
        ColumnDef::ArrayString(name) => name@,
        ColumnDef::ArrayUInt8(name) => name@,
        ColumnDef::ArrayUInt16(name) => name@,
        ColumnDef::ArrayUInt32(name) => name@,
        ColumnDef::ArrayUInt64(name) => name@,
        ColumnDef::ArrayInt8(name) => name@,
        ColumnDef::ArrayInt16(name) => name@,
        ColumnDef::ArrayInt32(name) => name@,
        ColumnDef::ArrayInt64(name) => name@,
        ColumnDef::ArrayFloat32(name) => name@,
        ColumnDef::ArrayFloat64(name) => name@,
        ColumnDef::Enum8(name) => name@,
        ColumnDef::Enum16(name) => name@,
        ColumnDef::IPv4(name) => name@,
        ColumnDef::IPv6(name) => name@,
        ColumnDef::Decimal(name) => name@,
        ColumnDef::JSON(name) => name@,
    }
}

impl Clone for ColumnDef {
    /// A clone equals the original.
    fn clone(&self) -> (r: Self)
        ensures
            r == *self,
    {
        match self {
            ColumnDef::String(name) => ColumnDef::String(name.clone()),
            ColumnDef::FixedString(name) => ColumnDef::FixedString(name.clone()),
            ColumnDef::UInt8(name) => ColumnDef::UInt8(name.clone()),
            ColumnDef::UInt16(name) => ColumnDef::UInt16(name.clone()),
            ColumnDef::UInt32(name) => ColumnDef::UInt32(name.clone()),
            ColumnDef::UInt64(name) => ColumnDef::UInt64(name.clone()),
            ColumnDef::UInt128(name) => ColumnDef::UInt128(name.clone()),
            ColumnDef::UInt256(name) => ColumnDef::UInt256(name.clone()),
            ColumnDef::Int8(name) => ColumnDef::Int8(name.clone()),
            ColumnDef::Int16(name) => ColumnDef::Int16(name.clone()),
            ColumnDef::Int32(name) => ColumnDef::Int32(name.clone()),
            ColumnDef::Int64(name) => ColumnDef::Int64(name.clone()),
            ColumnDef::Int128(name) => ColumnDef::Int128(name.clone()),
            ColumnDef::Int256(name) => ColumnDef::Int256(name.clone()),
            ColumnDef::Float32(name) => ColumnDef::Float32(name.clone()),
            ColumnDef::Float64(name) => ColumnDef::Float64(name.clone()),
            ColumnDef::Date(name) => ColumnDef::Date(name.clone()),
            ColumnDef::Date32(name) => ColumnDef::Date32(name.clone()),
            ColumnDef::DateTime(name) => ColumnDef::DateTime(name.clone()),
            ColumnDef::DateTime64(name) => ColumnDef::DateTime64(name.clone()),
            ColumnDef::Boolean(name) => ColumnDef::Boolean(name.clone()),
            ColumnDef::UUID(name) => ColumnDef::UUID(name.clone()),
            ColumnDef::ArrayString(name) => ColumnDef::ArrayString(name.clone()),
            ColumnDef::ArrayUInt8(name) => ColumnDef::ArrayUInt8(name.clone()),
            ColumnDef::ArrayUInt16(name) => ColumnDef::ArrayUInt16(name.clone()),
            ColumnDef::ArrayUInt32(name) => ColumnDef::ArrayUInt32(name.clone()),
            ColumnDef::ArrayUInt64(name) => ColumnDef::ArrayUInt64(name.clone()),
            ColumnDef::ArrayInt8(name) => ColumnDef::ArrayInt8(name.clone()),
            ColumnDef::ArrayInt16(name) => ColumnDef::ArrayInt16(name.clone()),
            ColumnDef::ArrayInt32(name) => ColumnDef::ArrayInt32(name.clone()),
            ColumnDef::ArrayInt64(name) => ColumnDef::ArrayInt64(name.clone()),
            ColumnDef::ArrayFloat32(name) => ColumnDef::ArrayFloat32(name.clone()),
            ColumnDef::ArrayFloat64(name) => ColumnDef::ArrayFloat64(name.clone()),
            ColumnDef::Enum8(name) => ColumnDef::Enum8(name.clone()),
            ColumnDef::Enum16(name) => ColumnDef::Enum16(name.clone()),
            ColumnDef::IPv4(name) => ColumnDef::IPv4(name.clone()),
            ColumnDef::IPv6(name) => ColumnDef::IPv6(name.clone()),
            ColumnDef::Decimal(name) => ColumnDef::Decimal(name.clone()),
            ColumnDef::JSON(name) => ColumnDef::JSON(name.clone()),
        }
    }
}

impl ColumnDef {
    /// The column name this definition declares.
    pub fn get_column_name(&self) -> (r: String)
        ensures
            r@ == spec_column_name(*self),
    {
        match self {
            ColumnDef::String(name) => name.clone(),
            ColumnDef::FixedString(name) => name.clone(),
            ColumnDef::UInt8(name) => name.clone(),
            ColumnDef::UInt16(name) => name.clone(),
            ColumnDef::UInt32(name) => name.clone(),
            ColumnDef::UInt64(name) => name.clone(),
            ColumnDef::UInt128(name) => name.clone(),
            ColumnDef::UInt256(name) => name.clone(),
            ColumnDef::Int8(name) => name.clone(),
            ColumnDef::Int16(name) => name.clone(),
            ColumnDef::Int32(name) => name.clone(),
            ColumnDef::Int64(name) => name.clone(),
            ColumnDef::Int128(name) => name.clone(),
            ColumnDef::Int256(name) => name.clone(),
            ColumnDef::Float32(name) => name.clone(),
            ColumnDef::Float64(name) => name.clone(),
            ColumnDef::Date(name) => name.clone(),
            ColumnDef::Date32(name) => name.clone(),
            ColumnDef::DateTime(name) => name.clone(),
            ColumnDef::DateTime64(name) => name.clone(),
            ColumnDef::Boolean(name) => name.clone(),
            ColumnDef::UUID(name) => name.clone(),
            ColumnDef::ArrayString(name) => name.clone(),
            ColumnDef::ArrayUInt8(name) => name.clone(),
            ColumnDef::ArrayUInt16(name) => name.clone(),
            ColumnDef::ArrayUInt32(name) => name.clone(),
            ColumnDef::ArrayUInt64(name) => name.clone(),
            ColumnDef::ArrayInt8(name) => name.clone(),
            ColumnDef::ArrayInt16(name) => name.clone(),
            ColumnDef::ArrayInt32(name) => name.clone(),
            ColumnDef::ArrayInt64(name) => name.clone(),
            ColumnDef::ArrayFloat32(name) => name.clone(),
            ColumnDef::ArrayFloat64(name) => name.clone(),
            ColumnDef::Enum8(name) => name.clone(),
            ColumnDef::Enum16(name) => name.clone(),
            ColumnDef::IPv4(name) => name.clone(),
            ColumnDef::IPv6(name) => name.clone(),
            ColumnDef::Decimal(name) => name.clone(),
            ColumnDef::JSON(name) => name.clone(),
        }
    }
}


// ---------------------------------------------------------------------------
// Coercion of a flat (operator-symbol, literal) pair into a typed condition.
// ---------------------------------------------------------------------------

/// Whether an operator checks for NULL.
pub open spec fn spec_is_null_check(op: FilterOperator) -> bool {
    op == FilterOperator::IsNull || op == FilterOperator::IsNotNull
}

/// The boolean a literal token denotes, if any (ASCII case-insensitive).
pub open spec fn spec_bool_token(v: Seq<char>) -> Option<bool> {
    if eq_ci(v, "true"@) || eq_ci(v, "1"@) || eq_ci(v, "yes"@) || eq_ci(v, "y"@) {
        Some(true)
    } else if eq_ci(v, "false"@) || eq_ci(v, "0"@) || eq_ci(v, "no"@) || eq_ci(v, "n"@) {
        Some(false)
    } else {
        None
    }
}

/// Whether coercing the literal `v` under the operator symbol `f` succeeds
/// for this column kind.
pub open spec fn coerce_ok(def: ColumnDef, f: Seq<char>, v: Seq<char>) -> bool {
    &&& known_operator(f)
    &&& {
        let op = spec_registry_op(f);
        let null = spec_is_null_check(op);
        let multi = op == FilterOperator::In || op == FilterOperator::NotIn;
        match def {
            ColumnDef::UInt8(_) => null || multi || (parse_nat(v) matches Some(x) && x <= u8::MAX),
            ColumnDef::UInt16(_) => null || multi || (parse_nat(v) matches Some(x) && x
                <= u16::MAX),
            ColumnDef::UInt32(_) => null || multi || (parse_nat(v) matches Some(x) && x
                <= u32::MAX),
            ColumnDef::UInt64(_) => null || multi || (parse_nat(v) matches Some(x) && x
                <= u64::MAX),
            ColumnDef::Int8(_) => null || multi || (parse_int(v) matches Some(x) && i8::MIN <= x
                <= i8::MAX),
            ColumnDef::Int16(_) => null || multi || (parse_int(v) matches Some(x) && i16::MIN <= x
                <= i16::MAX),
            ColumnDef::Int32(_) => null || multi || (parse_int(v) matches Some(x) && i32::MIN <= x
                <= i32::MAX),
            ColumnDef::Int64(_) => null || multi || (parse_int(v) matches Some(x) && i64::MIN <= x
                <= i64::MAX),
            ColumnDef::Float32(_) => null || is_float_lit(v),
            ColumnDef::Float64(_) => null || is_float_lit(v),
            ColumnDef::Decimal(_) => null || is_float_lit(v),
            ColumnDef::Date(_) | ColumnDef::Date32(_) | ColumnDef::DateTime(_)
            | ColumnDef::DateTime64(_) => null || op != FilterOperator::DateRange || split_char(
                v,
                ',',
            ).len() == 2,
            ColumnDef::Boolean(_) => null || spec_bool_token(v) is Some,
            ColumnDef::ArrayString(_) | ColumnDef::ArrayUInt8(_) | ColumnDef::ArrayUInt16(_)
            | ColumnDef::ArrayUInt32(_) | ColumnDef::ArrayUInt64(_) | ColumnDef::ArrayInt8(_)
            | ColumnDef::ArrayInt16(_) | ColumnDef::ArrayInt32(_) | ColumnDef::ArrayInt64(_)
            | ColumnDef::ArrayFloat32(_) | ColumnDef::ArrayFloat64(_) => op
                == FilterOperator::ArrayContains || op == FilterOperator::ArrayHas || null,
            _ => true,
        }
    }
}

/// The error coercion reports when it fails.
pub open spec fn coerce_err(def: ColumnDef, f: Seq<char>, v: Seq<char>, e: FilterError) -> bool {
    if !known_operator(f) {
        e matches FilterError::InvalidOperator { operator } && operator@ == f
    } else {
        match def {
            ColumnDef::Date(_) | ColumnDef::Date32(_) | ColumnDef::DateTime(_)
            | ColumnDef::DateTime64(_) => e matches FilterError::InvalidDateRange { value }
                && value@ == v,
            ColumnDef::ArrayString(_) | ColumnDef::ArrayUInt8(_) | ColumnDef::ArrayUInt16(_)
            | ColumnDef::ArrayUInt32(_) | ColumnDef::ArrayUInt64(_) | ColumnDef::ArrayInt8(_)
            | ColumnDef::ArrayInt16(_) | ColumnDef::ArrayInt32(_) | ColumnDef::ArrayInt64(_)
            | ColumnDef::ArrayFloat32(_) | ColumnDef::ArrayFloat64(_) => e
                == FilterError::UnsupportedOperator {
                family: crate::filtering::TypeFamily::Array,
                operator: spec_registry_op(f),
            },
            _ => e matches FilterError::InvalidValue { value } && value@ == v,
        }
    }
}

/// A string-family condition built from a name, operator and literal.
pub open spec fn coerced_string(
    name: Seq<char>,
    op: FilterOperator,
    v: Seq<char>,
    c: FilterCondition,
) -> bool {
    c matches FilterCondition::StringValue { column, operator, value } && column@ == name
        && operator == op && (if spec_is_null_check(op) {
        value is None
    } else {
        value matches Some(x) && x@ == v
    })
}

/// A multi-value IN condition built from a name, operator and literal.
pub open spec fn coerced_in_values(
    name: Seq<char>,
    op: FilterOperator,
    v: Seq<char>,
    t: ColumnTypeInfo,
    c: FilterCondition,
) -> bool {
    c matches FilterCondition::InValues { column, operator, values, column_type } && column@
        == name && operator == op && views_of(values@) == split_char(v, ',').map_values(
        |p: Seq<char>| trim_seq(p),
    ) && column_type == Some(t)
}

/// A plain date/datetime comparison condition of the given width: 0 for
/// dates, 1 for datetimes, 2 for high-precision datetimes.
pub open spec fn coerced_date_plain(
    name: Seq<char>,
    op: FilterOperator,
    v: Option<Seq<char>>,
    c: FilterCondition,
    kind: int,
) -> bool {
    if kind == 0 {
        c matches FilterCondition::DateValue { column, operator, value } && column@ == name
            && operator == op && opt_view(value) == v
    } else if kind == 1 {
        c matches FilterCondition::DateTimeValue { column, operator, value } && column@ == name
            && operator == op && opt_view(value) == v
    } else {
        c matches FilterCondition::DateTime64Value { column, operator, value } && column@ == name
            && operator == op && opt_view(value) == v
    }
}

/// A date-family condition built from a name, operator and literal: the
/// date operators build range conditions, the rest compare the literal.
pub open spec fn coerced_date(
    name: Seq<char>,
    op: FilterOperator,
    v: Seq<char>,
    c: FilterCondition,
    kind: int,
) -> bool {
    if spec_is_null_check(op) {
        coerced_date_plain(name, op, None, c, kind)
    } else if op == FilterOperator::DateEqual {
        c matches FilterCondition::DateRange { column, range_type } && column@ == name
            && (range_type matches DateRangeType::DateOnly(d) && d@ == v)
    } else if op == FilterOperator::DateRange {
        c matches FilterCondition::DateRange { column, range_type } && column@ == name
            && (range_type matches DateRangeType::Range { start, end } && start@ == trim_seq(
            split_char(v, ',')[0],
        ) && end@ == trim_seq(split_char(v, ',')[1]))
    } else if op == FilterOperator::RelativeDate {
        c matches FilterCondition::DateRange { column, range_type } && column@ == name
            && (range_type matches DateRangeType::Relative(expr) && expr@ == v)
    } else {
        coerced_date_plain(name, op, Some(v), c, kind)
    }
}

/// The condition coercion builds when it succeeds.
pub open spec fn coerce_cond(
    def: ColumnDef,
    f: Seq<char>,
    v: Seq<char>,
    c: FilterCondition,
) -> bool {
    let op = spec_registry_op(f);
    let null = spec_is_null_check(op);
    let multi = op == FilterOperator::In || op == FilterOperator::NotIn;
    let name = spec_column_name(def);
    match def {
        ColumnDef::UInt8(_) => if null {
            c matches FilterCondition::UInt8Value { column, operator, value } && column@ == name
                && operator == op && value is None
        } else if multi {
            coerced_in_values(name, op, v, ColumnTypeInfo::Numeric, c)
        } else {
            c matches FilterCondition::UInt8Value { column, operator, value } && column@ == name
                && operator == op && (value matches Some(x) && parse_nat(v) == Some(x as nat))
        },
        ColumnDef::UInt16(_) => if null {
            c matches FilterCondition::UInt16Value { column, operator, value } && column@ == name
                && operator == op && value is None
        } else if multi {
            coerced_in_values(name, op, v, ColumnTypeInfo::Numeric, c)
        } else {
            c matches FilterCondition::UInt16Value { column, operator, value } && column@ == name
                && operator == op && (value matches Some(x) && parse_nat(v) == Some(x as nat))
        },
        ColumnDef::UInt32(_) => if null {
            c matches FilterCondition::UInt32Value { column, operator, value } && column@ == name
                && operator == op && value is None
        } else if multi {
            coerced_in_values(name, op, v, ColumnTypeInfo::Numeric, c)
        } else {
            c matches FilterCondition::UInt32Value { column, operator, value } && column@ == name
                && operator == op && (value matches Some(x) && parse_nat(v) == Some(x as nat))
        },
        ColumnDef::UInt64(_) => if null {
            c matches FilterCondition::UInt64Value { column, operator, value } && column@ == name
                && operator == op && value is None
        } else if multi {
            coerced_in_values(name, op, v, ColumnTypeInfo::Numeric, c)
        } else {
            c matches FilterCondition::UInt64Value { column, operator, value } && column@ == name
                && operator == op && (value matches Some(x) && parse_nat(v) == Some(x as nat))
        },
        ColumnDef::Int8(_) => if null {
            c matches FilterCondition::Int8Value { column, operator, value } && column@ == name
                && operator == op && value is None
        } else if multi {
            coerced_in_values(name, op, v, ColumnTypeInfo::Numeric, c)
        } else {
            c matches FilterCondition::Int8Value { column, operator, value } && column@ == name
                && operator == op && (value matches Some(x) && parse_int(v) == Some(x as int))
        },
        ColumnDef::Int16(_) => if null {
            c matches FilterCondition::Int16Value { column, operator, value } && column@ == name
                && operator == op && value is None
        } else if multi {
            coerced_in_values(name, op, v, ColumnTypeInfo::Numeric, c)
        } else {
            c matches FilterCondition::Int16Value { column, operator, value } && column@ == name
                && operator == op && (value matches Some(x) && parse_int(v) == Some(x as int))
        },
        ColumnDef::Int32(_) => if null {
            c matches FilterCondition::Int32Value { column, operator, value } && column@ == name
                && operator == op && value is None
        } else if multi {
            coerced_in_values(name, op, v, ColumnTypeInfo::Numeric, c)
        } else {
            c matches FilterCondition::Int32Value { column, operator, value } && column@ == name
                && operator == op && (value matches Some(x) && parse_int(v) == Some(x as int))
        },
        ColumnDef::Int64(_) => if null {
            c matches FilterCondition::Int64Value { column, operator, value } && column@ == name
                && operator == op && value is None
        } else if multi {
            coerced_in_values(name, op, v, ColumnTypeInfo::Numeric, c)
        } else {
            c matches FilterCondition::Int64Value { column, operator, value } && column@ == name
                && operator == op && (value matches Some(x) && parse_int(v) == Some(x as int))
        },
        ColumnDef::Float32(_) => c matches FilterCondition::Float32Value {
            column,
            operator,
            value,
        } && column@ == name && operator == op && (if null {
            value is None
        } else {
            value matches Some(x) && x@ == v
        }),
        ColumnDef::Float64(_) => c matches FilterCondition::Float64Value {
            column,
            operator,
            value,
        } && column@ == name && operator == op && (if null {
            value is None
        } else {
            value matches Some(x) && x@ == v
        }),
        ColumnDef::Decimal(_) => c matches FilterCondition::Float64Value {
            column,
            operator,
            value,
        } && column@ == name && operator == op && (if null {
            value is None
        } else {
            value matches Some(x) && x@ == v
        }),
        ColumnDef::Date(_) => coerced_date(name, op, v, c, 0),
        ColumnDef::Date32(_) => coerced_date(name, op, v, c, 0),
        ColumnDef::DateTime(_) => coerced_date(name, op, v, c, 1),
        ColumnDef::DateTime64(_) => coerced_date(name, op, v, c, 2),
        ColumnDef::Boolean(_) => c matches FilterCondition::BooleanValue {
            column,
            operator,
            value,
        } && column@ == name && operator == op && (if null {
            value is None
        } else {
            value == spec_bool_token(v)
        }),
        ColumnDef::UUID(_) => if null {
            c matches FilterCondition::UUIDValue { column, operator, value } && column@ == name
                && operator == op && value is None
        } else if multi {
            coerced_in_values(name, op, v, ColumnTypeInfo::UUID, c)
        } else {
            c matches FilterCondition::UUIDValue { column, operator, value } && column@ == name
                && operator == op && (value matches Some(x) && x@ == v)
        },
        ColumnDef::ArrayString(_) | ColumnDef::ArrayUInt8(_) | ColumnDef::ArrayUInt16(_)
        | ColumnDef::ArrayUInt32(_) | ColumnDef::ArrayUInt64(_) | ColumnDef::ArrayInt8(_)
        | ColumnDef::ArrayInt16(_) | ColumnDef::ArrayInt32(_) | ColumnDef::ArrayInt64(_)
        | ColumnDef::ArrayFloat32(_) | ColumnDef::ArrayFloat64(_) => if op
            == FilterOperator::ArrayContains {
            c matches FilterCondition::ArrayContains { column, operator, value } && column@ == name
                && operator == op && value@ == v
        } else if op == FilterOperator::ArrayHas {
            c matches FilterCondition::ArrayHas { column, operator, value } && column@ == name
                && operator == op && value@ == v
        } else {
            coerced_string(name, op, v, c)
        },
        ColumnDef::JSON(_) => {
            let has_path = !null && first_sep(v, '.') < v.len();
            c matches FilterCondition::JSONValue { column, operator, value, path } && column@
                == name && operator == op && (if has_path {
                path matches Some(p) && p@ == v.subrange(0, first_sep(v, '.') as int)
            } else {
                path is None
            }) && (if null {
                value is None
            } else if has_path {
                value matches Some(x) && x@ == v.subrange(
                    first_sep(v, '.') as int + 1,
                    v.len() as int,
                )
            } else {
                value matches Some(x) && x@ == v
            })
        },
        _ => coerced_string(name, op, v, c),
    }
}

/// Parses a registry operator symbol: the known table, or nothing.
fn registry_op(f: &str) -> (r: Option<FilterOperator>)
    ensures
        r is Some <==> known_operator(f@),
        r matches Some(op) ==> op == spec_registry_op(f@),
{
    let known = str_eq_ci(f, "LIKE") || str_eq_ci(f, "NOT LIKE") || str_eq_ci(f, "=")
        || str_eq_ci(f, "!=") || str_eq_ci(f, ">") || str_eq_ci(f, ">=") || str_eq_ci(f, "<")
        || str_eq_ci(f, "<=") || str_eq_ci(f, "IN") || str_eq_ci(f, "NOT IN") || str_eq_ci(
        f,
        "IS NULL",
    ) || str_eq_ci(f, "IS NOT NULL") || str_eq_ci(f, "STARTS WITH") || str_eq_ci(f, "ENDS WITH")
        || str_eq_ci(f, "ARRAY CONTAINS") || str_eq_ci(f, "ARRAY HAS") || str_eq_ci(
        f,
        "DATE_ONLY",
    ) || str_eq_ci(f, "DATE_RANGE") || str_eq_ci(f, "RELATIVE");
    if known {
        Some(crate::filtering::parse_operator(f))
    } else {
        None
    }
}


/// Coerces into a string-family condition (the catch-all treatment).
fn coerce_stringish(def: &ColumnDef, op: FilterOperator, value: &str) -> (c: FilterCondition)
    ensures
        coerced_string(spec_column_name(*def), op, value@, c),
{
    let null = match op {
        FilterOperator::IsNull | FilterOperator::IsNotNull => true,
        _ => false,
    };
    FilterCondition::StringValue {
        column: def.get_column_name(),
        operator: op,
        value: if null {
            None
        } else {
            Some(value.to_owned())
        },
    }
}

/// Coerces for the unsigned integer column kinds.
fn coerce_uint(def: &ColumnDef, op: FilterOperator, value: &str, Ghost(f): Ghost<Seq<char>>) -> (r:
    Result<FilterCondition, FilterError>)
    requires
        known_operator(f),
        op == spec_registry_op(f),
        (*def) matches ColumnDef::UInt8(_) || (*def) matches ColumnDef::UInt16(_) || (*def) matches
            ColumnDef::UInt32(_) || (*def) matches ColumnDef::UInt64(_),
    ensures
        r is Ok <==> coerce_ok(*def, f, value@),
        r matches Ok(c) ==> coerce_cond(*def, f, value@, c),
        r matches Err(e) ==> coerce_err(*def, f, value@, e),
{
    let null = match op {
        FilterOperator::IsNull | FilterOperator::IsNotNull => true,
        _ => false,
    };
    let multi = match op {
        FilterOperator::In | FilterOperator::NotIn => true,
        _ => false,
    };
    let name = def.get_column_name();
    if multi && !null {
        return Ok(
            FilterCondition::InValues {
                column: name,
                operator: op,
                values: split_trim(value),
                column_type: Some(ColumnTypeInfo::Numeric),
            },
        );
    }
    match def {
        ColumnDef::UInt8(_) => {
            if null {
                Ok(FilterCondition::UInt8Value { column: name, operator: op, value: None })
            } else {
                match parse_unsigned(value, 255) {
                    Some(x) => Ok(
                        FilterCondition::UInt8Value {
                            column: name,
                            operator: op,
                            value: Some(x as u8),
                        },
                    ),
                    None => Err(FilterError::InvalidValue { value: value.to_owned() }),
                }
            }
        },
        ColumnDef::UInt16(_) => {
            if null {
                Ok(FilterCondition::UInt16Value { column: name, operator: op, value: None })
            } else {
                match parse_unsigned(value, 65535) {
                    Some(x) => Ok(
                        FilterCondition::UInt16Value {
                            column: name,
                            operator: op,
                            value: Some(x as u16),
                        },
                    ),
                    None => Err(FilterError::InvalidValue { value: value.to_owned() }),
                }
            }
        },
        ColumnDef::UInt32(_) => {
            if null {
                Ok(FilterCondition::UInt32Value { column: name, operator: op, value: None })
            } else {
                match parse_unsigned(value, 4294967295) {
                    Some(x) => Ok(
                        FilterCondition::UInt32Value {
                            column: name,
                            operator: op,
                            value: Some(x as u32),
                        },
                    ),
                    None => Err(FilterError::InvalidValue { value: value.to_owned() }),
                }
            }
        },
        _ => {
            if null {
                Ok(FilterCondition::UInt64Value { column: name, operator: op, value: None })
            } else {
                match parse_unsigned(value, u64::MAX) {
                    Some(x) => Ok(
                        FilterCondition::UInt64Value {
                            column: name,
                            operator: op,
                            value: Some(x),
                        },
                    ),
                    None => Err(FilterError::InvalidValue { value: value.to_owned() }),
                }
            }
        },
    }
}

/// Coerces for the signed integer column kinds.
fn coerce_int(def: &ColumnDef, op: FilterOperator, value: &str, Ghost(f): Ghost<Seq<char>>) -> (r:
    Result<FilterCondition, FilterError>)
    requires
        known_operator(f),
        op == spec_registry_op(f),
        (*def) matches ColumnDef::Int8(_) || (*def) matches ColumnDef::Int16(_) || (*def) matches
            ColumnDef::Int32(_) || (*def) matches ColumnDef::Int64(_),
    ensures
        r is Ok <==> coerce_ok(*def, f, value@),
        r matches Ok(c) ==> coerce_cond(*def, f, value@, c),
        r matches Err(e) ==> coerce_err(*def, f, value@, e),
{
    let null = match op {
        FilterOperator::IsNull | FilterOperator::IsNotNull => true,
        _ => false,
    };
    let multi = match op {
        FilterOperator::In | FilterOperator::NotIn => true,
        _ => false,
    };
    let name = def.get_column_name();
    if multi && !null {
        return Ok(
            FilterCondition::InValues {
                column: name,
                operator: op,
                values: split_trim(value),
                column_type: Some(ColumnTypeInfo::Numeric),
            },
        );
    }
    let parsed: Option<i64> = if null {
        None
    } else {
        match parse_signed(value) {
            Some(x) => Some(x),
            None => {
                return Err(FilterError::InvalidValue { value: value.to_owned() });
            },
        }
    };
    match def {
        ColumnDef::Int8(_) => {
            if null {
                Ok(FilterCondition::Int8Value { column: name, operator: op, value: None })
            } else {
                let x = parsed.unwrap();
                if -128 <= x && x <= 127 {
                    Ok(
                        FilterCondition::Int8Value {
                            column: name,
                            operator: op,
                            value: Some(x as i8),
                        },
                    )
                } else {
                    Err(FilterError::InvalidValue { value: value.to_owned() })
                }
            }
        },
        ColumnDef::Int16(_) => {
            if null {
                Ok(FilterCondition::Int16Value { column: name, operator: op, value: None })
            } else {
                let x = parsed.unwrap();
                if -32768 <= x && x <= 32767 {
                    Ok(
                        FilterCondition::Int16Value {
                            column: name,
                            operator: op,
                            value: Some(x as i16),
                        },
                    )
                } else {
                    Err(FilterError::InvalidValue { value: value.to_owned() })
                }
            }
        },
        ColumnDef::Int32(_) => {
            if null {
                Ok(FilterCondition::Int32Value { column: name, operator: op, value: None })
            } else {
                let x = parsed.unwrap();
                if -2147483648 <= x && x <= 2147483647 {
                    Ok(
                        FilterCondition::Int32Value {
                            column: name,
                            operator: op,
                            value: Some(x as i32),
                        },
                    )
                } else {
                    Err(FilterError::InvalidValue { value: value.to_owned() })
                }
            }
        },
        _ => {
            if null {
                Ok(FilterCondition::Int64Value { column: name, operator: op, value: None })
            } else {
                Ok(
                    FilterCondition::Int64Value {
                        column: name,
                        operator: op,
                        value: Some(parsed.unwrap()),
                    },
                )
            }
        },
    }
}

/// Coerces for the float, decimal, boolean and UUID column kinds.
fn coerce_scalar(def: &ColumnDef, op: FilterOperator, value: &str, Ghost(f): Ghost<Seq<char>>) -> (
    r: Result<FilterCondition, FilterError>)
    requires
        known_operator(f),
        op == spec_registry_op(f),
        (*def) matches ColumnDef::Float32(_) || (*def) matches ColumnDef::Float64(_) || (*def)
            matches ColumnDef::Decimal(_) || (*def) matches ColumnDef::Boolean(_) || (*def)
            matches ColumnDef::UUID(_),
    ensures
        r is Ok <==> coerce_ok(*def, f, value@),
        r matches Ok(c) ==> coerce_cond(*def, f, value@, c),
        r matches Err(e) ==> coerce_err(*def, f, value@, e),
{
    let null = match op {
        FilterOperator::IsNull | FilterOperator::IsNotNull => true,
        _ => false,
    };
    let multi = match op {
        FilterOperator::In | FilterOperator::NotIn => true,
        _ => false,
    };
    let name = def.get_column_name();
    match def {
        ColumnDef::Float32(_) => {
            if null {
                Ok(FilterCondition::Float32Value { column: name, operator: op, value: None })
            } else if is_float_literal(value) {
                Ok(
                    FilterCondition::Float32Value {
                        column: name,
                        operator: op,
                        value: Some(value.to_owned()),
                    },
                )
            } else {
                Err(FilterError::InvalidValue { value: value.to_owned() })
            }
        },
        ColumnDef::Float64(_) | ColumnDef::Decimal(_) => {
            if null {
                Ok(FilterCondition::Float64Value { column: name, operator: op, value: None })
            } else if is_float_literal(value) {
                Ok(
                    FilterCondition::Float64Value {
                        column: name,
                        operator: op,
                        value: Some(value.to_owned()),
                    },
                )
            } else {
                Err(FilterError::InvalidValue { value: value.to_owned() })
            }
        },
        ColumnDef::Boolean(_) => {
            if null {
                Ok(FilterCondition::BooleanValue { column: name, operator: op, value: None })
            } else {
                let truthy = str_eq_ci(value, "true") || str_eq_ci(value, "1") || str_eq_ci(
                    value,
                    "yes",
                ) || str_eq_ci(value, "y");
                let falsy = str_eq_ci(value, "false") || str_eq_ci(value, "0") || str_eq_ci(
                    value,
                    "no",
                ) || str_eq_ci(value, "n");
                if truthy {
                    Ok(
                        FilterCondition::BooleanValue {
                            column: name,
                            operator: op,
                            value: Some(true),
                        },
                    )
                } else if falsy {
                    Ok(
                        FilterCondition::BooleanValue {
                            column: name,
                            operator: op,
                            value: Some(false),
                        },
                    )
                } else {
                    Err(FilterError::InvalidValue { value: value.to_owned() })
                }
            }
        },
        _ => {
            if null {
                Ok(FilterCondition::UUIDValue { column: name, operator: op, value: None })
            } else if multi {
                Ok(
                    FilterCondition::InValues {
                        column: name,
                        operator: op,
                        values: split_trim(value),
                        column_type: Some(ColumnTypeInfo::UUID),
                    },
                )
            } else {
                Ok(
                    FilterCondition::UUIDValue {
                        column: name,
                        operator: op,
                        value: Some(value.to_owned()),
                    },
                )
            }
        },
    }
}

/// Coerces for the date and datetime column kinds.
fn coerce_dateish(def: &ColumnDef, op: FilterOperator, value: &str, Ghost(f): Ghost<Seq<char>>) -> (
    r: Result<FilterCondition, FilterError>)
    requires
        known_operator(f),
        op == spec_registry_op(f),
        (*def) matches ColumnDef::Date(_) || (*def) matches ColumnDef::Date32(_) || (*def) matches
            ColumnDef::DateTime(_) || (*def) matches ColumnDef::DateTime64(_),
    ensures
        r is Ok <==> coerce_ok(*def, f, value@),
        r matches Ok(c) ==> coerce_cond(*def, f, value@, c),
        r matches Err(e) ==> coerce_err(*def, f, value@, e),
{
    let null = match op {
        FilterOperator::IsNull | FilterOperator::IsNotNull => true,
        _ => false,
    };
    let name = def.get_column_name();
    let is_date_only = match op {
        FilterOperator::DateEqual => true,
        _ => false,
    };
    let is_range = match op {
        FilterOperator::DateRange => true,
        _ => false,
    };
    let is_relative = match op {
        FilterOperator::RelativeDate => true,
        _ => false,
    };
    if !null && is_date_only {
        return Ok(
            FilterCondition::DateRange {
                column: name,
                range_type: DateRangeType::DateOnly(value.to_owned()),
            },
        );
    }
    if !null && is_range {
        let parts = split_trim(value);
        proof {
            let m = split_char(value@, ',').map_values(|p: Seq<char>| trim_seq(p));
            assert(views_of(parts@) == m);
            assert(views_of(parts@).len() == parts@.len());
            assert(m.len() == split_char(value@, ',').len());
        }
        if parts.len() == 2 {
            let start = parts[0].clone();
            let end = parts[1].clone();
            proof {
                let m = split_char(value@, ',').map_values(|p: Seq<char>| trim_seq(p));
                assert(views_of(parts@)[0] == parts@[0]@);
                assert(views_of(parts@)[1] == parts@[1]@);
                assert(m[0] == trim_seq(split_char(value@, ',')[0]));
                assert(m[1] == trim_seq(split_char(value@, ',')[1]));
                assert(start@ == trim_seq(split_char(value@, ',')[0]));
                assert(end@ == trim_seq(split_char(value@, ',')[1]));
            }
            return Ok(
                FilterCondition::DateRange {
                    column: name,
                    range_type: DateRangeType::Range { start, end },
                },
            );
        } else {
            return Err(FilterError::InvalidDateRange { value: value.to_owned() });
        }
    }
    if !null && is_relative {
        return Ok(
            FilterCondition::DateRange {
                column: name,
                range_type: DateRangeType::Relative(value.to_owned()),
            },
        );
    }
    let v: Option<String> = if null {
        None
    } else {
        Some(value.to_owned())
    };
    match def {
        ColumnDef::Date(_) | ColumnDef::Date32(_) => Ok(
            FilterCondition::DateValue { column: name, operator: op, value: v },
        ),
        ColumnDef::DateTime(_) => Ok(
            FilterCondition::DateTimeValue { column: name, operator: op, value: v },
        ),
        _ => Ok(FilterCondition::DateTime64Value { column: name, operator: op, value: v }),
    }
}

/// Coerces for the array column kinds.
fn coerce_array(def: &ColumnDef, op: FilterOperator, value: &str, Ghost(f): Ghost<Seq<char>>) -> (
    r: Result<FilterCondition, FilterError>)
    requires
        known_operator(f),
        op == spec_registry_op(f),
        (*def) matches ColumnDef::ArrayString(_) || (*def) matches ColumnDef::ArrayUInt8(_) || (
        *def) matches ColumnDef::ArrayUInt16(_) || (*def) matches ColumnDef::ArrayUInt32(_) || (
        *def) matches ColumnDef::ArrayUInt64(_) || (*def) matches ColumnDef::ArrayInt8(_) || (
        *def) matches ColumnDef::ArrayInt16(_) || (*def) matches ColumnDef::ArrayInt32(_) || (
        *def) matches ColumnDef::ArrayInt64(_) || (*def) matches ColumnDef::ArrayFloat32(_) || (
        *def) matches ColumnDef::ArrayFloat64(_),
    ensures
        r is Ok <==> coerce_ok(*def, f, value@),
        r matches Ok(c) ==> coerce_cond(*def, f, value@, c),
        r matches Err(e) ==> coerce_err(*def, f, value@, e),
{
    let null = match op {
        FilterOperator::IsNull | FilterOperator::IsNotNull => true,
        _ => false,
    };
    let name = def.get_column_name();
    match op {
        FilterOperator::ArrayContains => Ok(
            FilterCondition::ArrayContains {
                column: name,
                operator: op,
                value: value.to_owned(),
            },
        ),
        FilterOperator::ArrayHas => Ok(
            FilterCondition::ArrayHas { column: name, operator: op, value: value.to_owned() },
        ),
        _ => {
            if null {
                Ok(FilterCondition::StringValue { column: name, operator: op, value: None })
            } else {
                Err(
                    FilterError::UnsupportedOperator {
                        family: crate::filtering::TypeFamily::Array,
                        operator: op,
                    },
                )
            }
        },
    }
}

/// Coerces for the JSON column kind, splitting a dotted path off the value.
fn coerce_json(def: &ColumnDef, op: FilterOperator, value: &str, Ghost(f): Ghost<Seq<char>>) -> (r:
    Result<FilterCondition, FilterError>)
    requires
        known_operator(f),
        op == spec_registry_op(f),
        (*def) matches ColumnDef::JSON(_),
    ensures
        r is Ok <==> coerce_ok(*def, f, value@),
        r matches Ok(c) ==> coerce_cond(*def, f, value@, c),
        r matches Err(e) ==> coerce_err(*def, f, value@, e),
{
    let null = match op {
        FilterOperator::IsNull | FilterOperator::IsNotNull => true,
        _ => false,
    };
    let name = def.get_column_name();
    let n = value.unicode_len();
    let dot = crate::text::scan_sep(value, 0, '.');
    proof {
        assert(value@.subrange(0, n as int) =~= value@);
    }
    if !null && dot < n {
        let path = value.substring_char(0, dot).to_owned();
        let rest = value.substring_char(dot + 1, n).to_owned();
        Ok(
            FilterCondition::JSONValue {
                column: name,
                operator: op,
                value: Some(rest),
                path: Some(path),
            },
        )
    } else {
        Ok(
            FilterCondition::JSONValue {
                column: name,
                operator: op,
                value: if null {
                    None
                } else {
                    Some(value.to_owned())
                },
                path: None,
            },
        )
    }
}

impl ColumnDef {
    /// Coerces an operator symbol and a literal into the typed condition
    /// this column kind calls for; unknown symbols, literals that do not
    /// parse into the declared type, and operators a kind cannot carry are
    /// rejected with the matching error.
    pub fn to_filter_condition(&self, operator: &str, value: &str) -> (r: Result<
        FilterCondition,
        FilterError,
    >)
        ensures
            r is Ok <==> coerce_ok(*self, operator@, value@),
            r matches Ok(c) ==> coerce_cond(*self, operator@, value@, c),
            r matches Err(e) ==> coerce_err(*self, operator@, value@, e),
    {
        let op = match registry_op(operator) {
            Some(op) => op,
            None => {
                return Err(FilterError::InvalidOperator { operator: operator.to_owned() });
            },
        };
        match self {
            ColumnDef::UInt8(_) | ColumnDef::UInt16(_) | ColumnDef::UInt32(_)
            | ColumnDef::UInt64(_) => coerce_uint(self, op, value, Ghost(operator@)),
            ColumnDef::Int8(_) | ColumnDef::Int16(_) | ColumnDef::Int32(_)
            | ColumnDef::Int64(_) => coerce_int(self, op, value, Ghost(operator@)),
            ColumnDef::Float32(_) | ColumnDef::Float64(_) | ColumnDef::Decimal(_)
            | ColumnDef::Boolean(_) | ColumnDef::UUID(_) => coerce_scalar(
                self,
                op,
                value,
                Ghost(operator@),
            ),
            ColumnDef::Date(_) | ColumnDef::Date32(_) | ColumnDef::DateTime(_)
            | ColumnDef::DateTime64(_) => coerce_dateish(self, op, value, Ghost(operator@)),
            ColumnDef::ArrayString(_) | ColumnDef::ArrayUInt8(_) | ColumnDef::ArrayUInt16(_)
            | ColumnDef::ArrayUInt32(_) | ColumnDef::ArrayUInt64(_) | ColumnDef::ArrayInt8(_)
            | ColumnDef::ArrayInt16(_) | ColumnDef::ArrayInt32(_) | ColumnDef::ArrayInt64(_)
            | ColumnDef::ArrayFloat32(_) | ColumnDef::ArrayFloat64(_) => coerce_array(
                self,
                op,
                value,
                Ghost(operator@),
            ),
            ColumnDef::JSON(_) => coerce_json(self, op, value, Ghost(operator@)),
            _ => {
                let c = coerce_stringish(self, op, value);
                Ok(c)
            },
        }
    }
}


// ---------------------------------------------------------------------------
// The flat-filter grouper and the top-level assembler.
// ---------------------------------------------------------------------------


/// The logical operator a connector annotation denotes: `OR` in any ASCII
/// case means disjunction, anything else (including `AND`) conjunction.
pub open spec fn conn_of(c: Option<String>) -> Option<LogicalOperator> {
    match c {
        None => None,
        Some(t) => Some(
            if eq_ci(t@, "OR"@) {
                LogicalOperator::Or
            } else {
                LogicalOperator::And
            },
        ),
    }
}

/// A run rendered as one parenthesized group: fragments that render to
/// nothing are elided, and a run with none left renders to nothing.
pub open spec fn run_sql(op: LogicalOperator, sqls: Seq<Seq<char>>) -> Seq<char> {
    let parts = crate::filtering::nonempty_from(sqls, 0);
    if parts.len() == 0 {
        Seq::<char>::empty()
    } else {
        "("@ + join_sep(parts, " "@ + crate::filtering::logical_sql(op) + " "@) + ")"@
    }
}

/// One step of the grouper fold over rendered fragments: the state is the
/// accumulated root fragment and the open run, and a connector opens,
/// extends or closes runs exactly as the exec loop does.
pub open spec fn grouper_step(
    st: (Option<Seq<char>>, Option<(LogicalOperator, Seq<Seq<char>>)>),
    sql: Seq<char>,
    conn: Option<LogicalOperator>,
) -> (Option<Seq<char>>, Option<(LogicalOperator, Seq<Seq<char>>)>) {
    let (root, run) = st;
    match conn {
        Some(op) => match run {
            None => (root, Some((op, seq![sql]))),
            Some((rop, sqls)) => if rop == op {
                (root, Some((rop, sqls.push(sql))))
            } else {
                (
                    Some(
                        crate::filtering::combined_sql(
                            root,
                            if sqls.len() == 1 {
                                sqls[0]
                            } else {
                                run_sql(rop, sqls)
                            },
                        ),
                    ),
                    Some((op, seq![sql])),
                )
            },
        },
        None => match run {
            Some((rop, sqls)) => (root, Some((rop, sqls.push(sql)))),
            None => (Some(crate::filtering::combined_sql(root, sql)), None),
        },
    }
}

/// The grouper state after the first `i` items, rendering each condition
/// in the given case mode.
pub open spec fn grouper_fold(
    conds: Seq<FilterCondition>,
    conns: Seq<Option<LogicalOperator>>,
    i: int,
    ci: bool,
) -> (Option<Seq<char>>, Option<(LogicalOperator, Seq<Seq<char>>)>)
    decreases i,
{
    if i <= 0 {
        (None, None)
    } else {
        grouper_step(
            grouper_fold(conds, conns, i - 1, ci),
            crate::filtering::cond_sql(conds[i - 1], ci),
            conns[i - 1],
        )
    }
}

/// The final fragment of the grouper fold: a remaining run of one item is
/// inlined, a longer one becomes a group, and either is conjoined with the
/// accumulated root.
pub open spec fn grouper_result(
    conds: Seq<FilterCondition>,
    conns: Seq<Option<LogicalOperator>>,
    ci: bool,
) -> Seq<char> {
    let st = grouper_fold(conds, conns, conds.len() as int, ci);
    match st.1 {
        Some((op, sqls)) => crate::filtering::combined_sql(
            st.0,
            if sqls.len() == 1 {
                sqls[0]
            } else {
                run_sql(op, sqls)
            },
        ),
        None => match st.0 {
            Some(r) => r,
            None => Seq::empty(),
        },
    }
}

/// An all-conditions-render check over a shared prefix is the same in
/// either sequence.
proof fn lemma_cond_ok_range_stable(a: Seq<FilterCondition>, b: Seq<FilterCondition>, f: int)
    requires
        0 <= f <= a.len(),
        f <= b.len(),
        forall|j: int| 0 <= j < f ==> #[trigger] a[j] == b[j],
    ensures
        (forall|j: int| 0 <= j < f ==> cond_ok(#[trigger] a[j])) <==> (forall|j: int|
            0 <= j < f ==> cond_ok(#[trigger] b[j])),
{
    if forall|j: int| 0 <= j < f ==> cond_ok(#[trigger] a[j]) {
        assert forall|j: int| 0 <= j < f implies cond_ok(#[trigger] b[j]) by {
            assert(cond_ok(a[j]));
        }
    }
    if forall|j: int| 0 <= j < f ==> cond_ok(#[trigger] b[j]) {
        assert forall|j: int| 0 <= j < f implies cond_ok(#[trigger] a[j]) by {
            assert(cond_ok(b[j]));
        }
    }
}

/// The index of the first erroneous entry of a validated-expression list
/// at or after `i`, or `-1`.
pub open spec fn first_err_item(s: Seq<Result<FilterExpression, FilterError>>, i: int) -> int
    decreases s.len() - i,
{
    if i < 0 || i >= s.len() {
        -1
    } else if s[i] is Err {
        i
    } else {
        first_err_item(s, i + 1)
    }
}

proof fn lemma_first_err_at(s: Seq<Result<FilterExpression, FilterError>>, i: int, k: int)
    requires
        0 <= i <= k < s.len(),
        forall|j: int| i <= j < k ==> #[trigger] s[j] is Ok,
        s[k] is Err,
    ensures
        first_err_item(s, i) == k,
    decreases k - i,
{
    if i < k {
        lemma_first_err_at(s, i + 1, k);
    }
}

/// Splitting an all-conditions-render check at a flush boundary.
proof fn lemma_cond_ok_split(conds: Seq<FilterCondition>, f: int, n: int)
    requires
        0 <= f <= n <= conds.len(),
    ensures
        ((forall|j: int| 0 <= j < f ==> cond_ok(#[trigger] conds[j])) && (forall|j: int|
            f <= j < n ==> cond_ok(#[trigger] conds[j]))) <==> (forall|j: int|
            0 <= j < n ==> cond_ok(#[trigger] conds[j])),
{
}

/// Whether the first `i` connectors follow the single-run shape: every
/// connector but the last carries the same operator, and the last item
/// carries none.
pub open spec fn run_prefix(conns: Seq<Option<LogicalOperator>>, i: int) -> bool {
    &&& conns[0] is Some
    &&& (forall|j: int|
        0 <= j < i ==> #[trigger] conns[j] == (if j < conns.len() - 1 {
            conns[0]
        } else {
            None
        }))
}

/// A pushed condition does not disturb the fold over earlier indices.
proof fn lemma_fold_prefix_push(
    conds: Seq<FilterCondition>,
    c: FilterCondition,
    conns: Seq<Option<LogicalOperator>>,
    i: int,
    ci: bool,
)
    requires
        i <= conds.len(),
    ensures
        grouper_fold(conds.push(c), conns, i, ci) == grouper_fold(conds, conns, i, ci),
    decreases i,
{
    if i > 0 {
        lemma_fold_prefix_push(conds, c, conns, i - 1, ci);
        assert(conds.push(c)[i - 1] == conds[i - 1]);
    }
}

/// The index of the first registry entry carrying `name` at or after `i`,
/// or `-1`.
pub open spec fn find_def(defs: Seq<ColumnDef>, name: Seq<char>, i: int) -> int
    decreases defs.len() - i,
{
    if i < 0 || i >= defs.len() {
        -1
    } else if spec_column_name(defs[i]) == name {
        i
    } else {
        find_def(defs, name, i + 1)
    }
}

/// Whether a flat filter item names a registered column and carries a
/// literal its declared type accepts.
pub open spec fn item_ok(defs: Seq<ColumnDef>, item: JsonFilter) -> bool {
    let k = find_def(defs, item.n@, 0);
    k >= 0 && coerce_ok(defs[k], item.f@, item.v@)
}

/// The index of the first rejected item at or after `i`, or `-1`.
pub open spec fn first_bad_item(filters: Seq<JsonFilter>, defs: Seq<ColumnDef>, i: int) -> int
    decreases filters.len() - i,
{
    if i < 0 || i >= filters.len() {
        -1
    } else if !item_ok(defs, filters[i]) {
        i
    } else {
        first_bad_item(filters, defs, i + 1)
    }
}

proof fn lemma_find_def_at(defs: Seq<ColumnDef>, name: Seq<char>, i: int, k: int)
    requires
        0 <= i <= k < defs.len(),
        forall|j: int| i <= j < k ==> spec_column_name(#[trigger] defs[j]) != name,
        spec_column_name(defs[k]) == name,
    ensures
        find_def(defs, name, i) == k,
    decreases k - i,
{
    if i < k {
        lemma_find_def_at(defs, name, i + 1, k);
    }
}

proof fn lemma_find_def_none(defs: Seq<ColumnDef>, name: Seq<char>, i: int)
    requires
        0 <= i <= defs.len(),
        forall|j: int| i <= j < defs.len() ==> spec_column_name(#[trigger] defs[j]) != name,
    ensures
        find_def(defs, name, i) == -1,
    decreases defs.len() - i,
{
    if i < defs.len() {
        lemma_find_def_none(defs, name, i + 1);
    }
}

proof fn lemma_first_bad_at(filters: Seq<JsonFilter>, defs: Seq<ColumnDef>, i: int, k: int)
    requires
        0 <= i <= k < filters.len(),
        forall|j: int| i <= j < k ==> item_ok(defs, #[trigger] filters[j]),
        !item_ok(defs, filters[k]),
    ensures
        first_bad_item(filters, defs, i) == k,
    decreases k - i,
{
    if i < k {
        lemma_first_bad_at(filters, defs, i + 1, k);
    }
}

/// Finds the first registry entry carrying `name`.
fn find_column(defs: &Vec<ColumnDef>, name: &String) -> (r: Option<usize>)
    ensures
        r matches Some(k) ==> 0 <= k < defs@.len() && find_def(defs@, name@, 0) == k as int,
        r is None ==> find_def(defs@, name@, 0) == -1,
{
    let mut k: usize = 0;
    while k < defs.len()
        invariant
            0 <= k <= defs@.len(),
            forall|j: int| 0 <= j < k ==> spec_column_name(#[trigger] defs@[j]) != name@,
        decreases defs@.len() - k,
    {
        let dname = defs[k].get_column_name();
        if dname == *name {
            proof {
                lemma_find_def_at(defs@, name@, 0, k as int);
            }
            return Some(k);
        }
        k = k + 1;
    }
    proof {
        lemma_find_def_none(defs@, name@, 0);
    }
    None
}

impl FilterBuilder {
    /// Folds a flat, connector-annotated filter list into a tree: a run of
    /// items joined by one connector becomes one group, runs and loose items
    /// are conjoined at the top level, and the first rejected item's error
    /// wins. The root's rendering is pinned by the grouper fold.
    #[verifier::loop_isolation(false)]
    #[verifier::rlimit(100)]
    pub fn from_json_filters(
        filters: &Vec<JsonFilter>,
        case_insensitive: bool,
        column_defs: &Vec<ColumnDef>,
    ) -> (r: Result<FilterBuilder, FilterError>)
        ensures
            r is Ok <==> (forall|i: int|
                0 <= i < filters@.len() ==> item_ok(column_defs@, #[trigger] filters@[i])),
            r matches Ok(b) ==> b.case_insensitive == case_insensitive && (b.root is Some
                <==> filters@.len() > 0),
            r matches Ok(b) ==> (b.root matches Some(root) ==> exists|conds: Seq<FilterCondition>|
                {
                    &&& #[trigger] conds.len() == filters@.len()
                    &&& (forall|j: int|
                        0 <= j < filters@.len() ==> coerce_cond(
                            column_defs@[find_def(column_defs@, filters@[j].n@, 0)],
                            filters@[j].f@,
                            filters@[j].v@,
                            #[trigger] conds[j],
                        ))
                    &&& expr_sql(root, case_insensitive) == grouper_result(
                        conds,
                        Seq::new(filters@.len(), |j: int| conn_of(filters@[j].c)),
                        case_insensitive,
                    )
                    &&& (expr_ok(root) <==> (forall|j: int|
                        0 <= j < filters@.len() ==> cond_ok(#[trigger] conds[j])))
                    &&& ({
                        let conns = Seq::new(filters@.len(), |j: int| conn_of(filters@[j].c));
                        (filters@.len() >= 2 && run_prefix(conns, filters@.len() as int)) ==> (
                        root matches FilterExpression::Group { operator: gop, expressions: ges }
                            && Some(gop) == conns[0] && ges@.len() == filters@.len() && (forall|
                            j: int,
                        |
                            0 <= j < filters@.len() ==> #[trigger] ges@[j]
                                == FilterExpression::Condition(conds[j])))
                    })
                }),
            r matches Err(e) ==> ({
                let k = first_bad_item(filters@, column_defs@, 0);
                &&& 0 <= k < filters@.len()
                &&& ({
                    let d = find_def(column_defs@, filters@[k].n@, 0);
                    if d < 0 {
                        e matches FilterError::ColumnNotFound { column } && column@
                            == filters@[k].n@
                    } else {
                        coerce_err(column_defs@[d], filters@[k].f@, filters@[k].v@, e)
                    }
                })
            }),
    {
        let ci = case_insensitive;
        let ghost conns = Seq::new(filters@.len(), |j: int| conn_of(filters@[j].c));
        let mut builder = FilterBuilder::new().case_insensitive(case_insensitive);
        let mut current_group: Option<(LogicalOperator, Vec<FilterExpression>)> = None;
        let mut last_connector: Option<LogicalOperator> = None;
        let ghost mut conds: Seq<FilterCondition> = Seq::empty();
        let ghost mut flushed: int = 0;
        let mut i: usize = 0;
        while i < filters.len()
            invariant
                0 <= i <= filters@.len(),
                conns == Seq::new(filters@.len(), |j: int| conn_of(filters@[j].c)),
                forall|j: int| 0 <= j < i ==> item_ok(column_defs@, #[trigger] filters@[j]),
                builder.case_insensitive == case_insensitive,
                (builder.root is Some || current_group is Some) <==> i > 0,
                current_group is Some ==> last_connector is Some,
                conds.len() == i,
                forall|j: int|
                    0 <= j < i ==> coerce_cond(
                        column_defs@[find_def(column_defs@, filters@[j].n@, 0)],
                        filters@[j].f@,
                        filters@[j].v@,
                        #[trigger] conds[j],
                    ),
                0 <= flushed <= i,
                builder.root is Some <==> flushed > 0,
                (conns.len() >= 2 && run_prefix(conns, i as int)) ==> (flushed == 0 && (i > 0
                    ==> (current_group matches Some((gop, ges)) && Some(gop) == conns[0]))),
                (match current_group {
                    None => flushed == i,
                    Some((gop, ges)) => flushed + ges@.len() == i && (forall|k: int|
                        0 <= k < ges@.len() ==> #[trigger] ges@[k] == FilterExpression::Condition(
                            conds[flushed + k],
                        )),
                }),
                ({
                    let st = grouper_fold(conds, conns, i as int, ci);
                    &&& (match current_group {
                        None => st.1 is None,
                        Some((gop, ges)) => st.1 matches Some((sop, ssqls)) && sop == gop
                            && ssqls.len() == ges@.len() && ges@.len() >= 1 && (forall|k: int|
                            0 <= k < ges@.len() ==> #[trigger] ssqls[k] == expr_sql(ges@[k], ci)),
                    })
                    &&& (match builder.root {
                        None => st.0 is None,
                        Some(root) => st.0 matches Some(rs) && rs == expr_sql(root, ci) && (
                        expr_ok(root) <==> (forall|j: int|
                            0 <= j < flushed ==> cond_ok(#[trigger] conds[j]))),
                    })
                }),
            decreases filters@.len() - i,
        {
            let item = &filters[i];
            let def_idx = match find_column(column_defs, &item.n) {
                Some(k) => k,
                None => {
                    proof {
                        lemma_first_bad_at(filters@, column_defs@, 0, i as int);
                    }
                    return Err(FilterError::ColumnNotFound { column: item.n.clone() });
                },
            };
            let condition = match column_defs[def_idx].to_filter_condition(
                item.f.as_str(),
                item.v.as_str(),
            ) {
                Ok(c) => c,
                Err(e) => {
                    proof {
                        lemma_first_bad_at(filters@, column_defs@, 0, i as int);
                    }
                    return Err(e);
                },
            };
            let ghost st = grouper_fold(conds, conns, i as int, ci);
            let ghost csql = crate::filtering::cond_sql(condition, ci);
            proof {
                let old_conds = conds;
                conds = conds.push(condition);
                lemma_fold_prefix_push(old_conds, condition, conns, i as int, ci);
                assert(old_conds.push(condition) == conds);
                assert(conds[i as int] == condition);
                assert(grouper_fold(conds, conns, i as int, ci) == st);
                assert(grouper_fold(conds, conns, i as int + 1, ci) == grouper_step(
                    st,
                    csql,
                    conns[i as int],
                ));
                // the facts over the pre-push sequence carry to the new one
                assert(forall|j: int| 0 <= j < i as int ==> #[trigger] conds[j] == old_conds[j]);
                lemma_cond_ok_range_stable(old_conds, conds, flushed);
                assert(match builder.root {
                    Some(root) => expr_ok(root) <==> (forall|j: int|
                        0 <= j < flushed ==> cond_ok(#[trigger] conds[j])),
                    None => true,
                });
                assert(match current_group {
                    Some((gop, ges)) => forall|k: int|
                        0 <= k < ges@.len() ==> #[trigger] ges@[k] == FilterExpression::Condition(
                            conds[flushed + k],
                        ),
                    None => true,
                });
            }
            let expression = FilterExpression::Condition(condition);
            proof {
                assert(expr_ok(expression) == cond_ok(conds[i as int]));
                assert(expr_sql(expression, ci) == csql);
            }
            match &item.c {
                Some(connector) => {
                    let op = if str_eq_ci(connector.as_str(), "OR") {
                        LogicalOperator::Or
                    } else {
                        LogicalOperator::And
                    };
                    proof {
                        assert(conns[i as int] == Some(op));
                    }
                    match current_group {
                        None => {
                            let mut es: Vec<FilterExpression> = Vec::new();
                            es.push(expression);
                            current_group = Some((op, es));
                            last_connector = Some(op);
                        },
                        Some((current_op, mut es)) => {
                            if current_op == op {
                                es.push(expression);
                                current_group = Some((current_op, es));
                            } else {
                                if es.len() > 1 {
                                    let group = FilterExpression::Group {
                                        operator: current_op,
                                        expressions: es,
                                    };
                                    proof {
                                        let ges = group->expressions@;
                                        crate::filtering::lemma_nonempty_parts(
                                            ges,
                                            st.1->Some_0.1,
                                            ci,
                                            0,
                                        );
                                        assert(expr_sql(group, ci) == run_sql(
                                            st.1->Some_0.0,
                                            st.1->Some_0.1,
                                        ));
                                        crate::filtering::lemma_leaf_run_ok(ges, conds, flushed);
                                        assert(expr_ok(group) <==> (forall|j: int|
                                            flushed <= j < i ==> cond_ok(#[trigger] conds[j])));
                                    }
                                    builder = builder.add_expression(group);
                                } else {
                                    proof {
                                        assert(es@[0] == FilterExpression::Condition(
                                            conds[flushed],
                                        ));
                                        assert(expr_ok(es@[0]) == cond_ok(conds[flushed]));
                                        assert(expr_sql(es@[0], ci) == crate::filtering::cond_sql(
                                            conds[flushed],
                                            ci,
                                        ));
                                        assert((forall|j: int|
                                            flushed <= j < i as int ==> cond_ok(
                                                #[trigger] conds[j],
                                            )) <==> cond_ok(conds[flushed]));
                                    }
                                    let single = es.remove(0);
                                    builder = builder.add_expression(single);
                                }
                                proof {
                                    lemma_cond_ok_split(conds, flushed, i as int);
                                    flushed = i as int;
                                    assert(match builder.root {
                                        Some(root) => expr_ok(root) <==> (forall|j: int|
                                            0 <= j < flushed ==> cond_ok(#[trigger] conds[j])),
                                        None => false,
                                    });
                                }
                                let mut es2: Vec<FilterExpression> = Vec::new();
                                es2.push(expression);
                                current_group = Some((op, es2));
                            }
                            last_connector = Some(op);
                        },
                    }
                },
                None => {
                    proof {
                        assert(conns[i as int] is None);
                    }
                    let group_open = match &current_group {
                        Some(_) => true,
                        None => false,
                    };
                    let has_last = match &last_connector {
                        Some(_) => true,
                        None => false,
                    };
                    if group_open && has_last {
                        match current_group {
                            Some((current_op, mut es)) => {
                                es.push(expression);
                                current_group = Some((current_op, es));
                            },
                            None => {
                                builder = builder.add_expression(expression);
                                proof {
                                    flushed = i as int + 1;
                                }
                            },
                        }
                    } else {
                        builder = builder.add_expression(expression);
                        proof {
                            flushed = i as int + 1;
                        }
                    }
                },
            }
            i = i + 1;
        }
        let ghost st = grouper_fold(conds, conns, filters@.len() as int, ci);
        match current_group {
            Some((op, mut es)) => {
                if es.len() > 1 {
                    let group = FilterExpression::Group { operator: op, expressions: es };
                    proof {
                        let ges = group->expressions@;
                        crate::filtering::lemma_nonempty_parts(ges, st.1->Some_0.1, ci, 0);
                        assert(expr_sql(group, ci) == run_sql(st.1->Some_0.0, st.1->Some_0.1));
                        crate::filtering::lemma_leaf_run_ok(ges, conds, flushed);
                        assert(expr_ok(group) <==> (forall|j: int|
                            flushed <= j < conds.len() ==> cond_ok(#[trigger] conds[j])));
                    }
                    builder = builder.add_expression(group);
                } else {
                    proof {
                        assert(es@[0] == FilterExpression::Condition(conds[flushed]));
                        assert(expr_ok(es@[0]) == cond_ok(conds[flushed]));
                        assert(expr_sql(es@[0], ci) == crate::filtering::cond_sql(
                            conds[flushed],
                            ci,
                        ));
                        assert((forall|j: int|
                            flushed <= j < conds.len() ==> cond_ok(#[trigger] conds[j])) <==> cond_ok(
                            conds[flushed],
                        ));
                    }
                    let first = es.remove(0);
                    builder = builder.add_expression(first);
                }
                proof {
                    lemma_cond_ok_split(conds, flushed, conds.len() as int);
                    flushed = conds.len() as int;
                    assert(match builder.root {
                        Some(root) => expr_ok(root) <==> (forall|j: int|
                            0 <= j < flushed ==> cond_ok(#[trigger] conds[j])),
                        None => false,
                    });
                }
            },
            None => {},
        }
        proof {
            if filters@.len() > 0 {
                assert(expr_sql(builder.root->0, ci) == grouper_result(conds, conns, ci));
                assert(expr_ok(builder.root->0) <==> (forall|j: int|
                    0 <= j < conds.len() ==> cond_ok(#[trigger] conds[j])));
            }
        }
        Ok(builder)
    }
}

/// A vector of expression clones; each clone renders as its original.
fn clone_exprs(v: &Vec<FilterExpression>) -> (r: Vec<FilterExpression>)
    ensures
        r@.len() == v@.len(),
        forall|j: int| 0 <= j < v@.len() ==> expr_alike(#[trigger] r@[j], v@[j]),
{
    let mut r: Vec<FilterExpression> = Vec::new();
    let mut i: usize = 0;
    while i < v.len()
        invariant
            0 <= i <= v@.len(),
            r@.len() == i,
            forall|j: int| 0 <= j < i ==> expr_alike(#[trigger] r@[j], v@[j]),
        decreases v@.len() - i,
    {
        r.push(v[i].clone());
        i = i + 1;
    }
    r
}

/// Pagination inputs as a caller supplies them, before validation.
#[derive(Debug, Clone, Copy)]
pub struct PaginationOptions {
    pub current_page: i64,
    pub per_page: i64,
    pub per_page_limit: i64,
    pub total_records: i64,
}

impl PaginationOptions {
    /// Plain construction; validation happens in `Paginate::new`.
    pub fn new(current_page: i64, per_page: i64, per_page_limit: i64, total_records: i64) -> (r:
        PaginationOptions)
        ensures
            r.current_page == current_page,
            r.per_page == per_page,
            r.per_page_limit == per_page_limit,
            r.total_records == total_records,
    {
        PaginationOptions { current_page, per_page, per_page_limit, total_records }
    }
}

/// The WHERE-clause body of a list of expressions: a single expression
/// stands alone, several are conjoined in one AND group that elides the
/// expressions rendering to nothing.
pub open spec fn options_body_sql(exprs: Seq<FilterExpression>, ci: bool) -> Seq<char> {
    if exprs.len() == 1 {
        expr_sql(exprs[0], ci)
    } else {
        let parts = crate::filtering::exprs_nonempty_sqls_from(exprs, 0, ci);
        if parts.len() == 0 {
            Seq::<char>::empty()
        } else {
            "("@ + join_sep(parts, " AND "@) + ")"@
        }
    }
}

/// The full WHERE fragment of a list of expressions: empty when there are
/// no expressions or the body renders empty.
pub open spec fn options_where_sql(exprs: Seq<FilterExpression>, ci: bool) -> Seq<char> {
    if exprs.len() == 0 {
        Seq::empty()
    } else if options_body_sql(exprs, ci).len() == 0 {
        Seq::empty()
    } else {
        " WHERE "@ + options_body_sql(exprs, ci)
    }
}

/// Filtering inputs: an expression list, a case mode and the registry.
#[derive(Debug)]
pub struct FilteringOptions {
    pub expressions: Vec<FilterExpression>,
    pub case_insensitive: bool,
    pub column_defs: Vec<ColumnDef>,
}

impl FilteringOptions {
    /// Case-insensitive filtering over the given expressions.
    pub fn new(expressions: Vec<FilterExpression>, column_defs: Vec<ColumnDef>) -> (r:
        FilteringOptions)
        ensures
            r.expressions == expressions,
            r.case_insensitive == true,
            r.column_defs == column_defs,
    {
        FilteringOptions { expressions, case_insensitive: true, column_defs }
    }

    /// Case-sensitive filtering over the given expressions.
    pub fn case_sensitive(expressions: Vec<FilterExpression>, column_defs: Vec<ColumnDef>) -> (r:
        FilteringOptions)
        ensures
            r.expressions == expressions,
            r.case_insensitive == false,
            r.column_defs == column_defs,
    {
        FilteringOptions { expressions, case_insensitive: false, column_defs }
    }

    /// Builds filtering options from a flat filter list: nothing for an
    /// empty list, else the grouped tree as the sole expression.
    pub fn from_json_filters(filters: &Vec<JsonFilter>, column_defs: Vec<ColumnDef>) -> (r: Result<
        Option<FilteringOptions>,
        FilterError,
    >)
        ensures
            r is Ok <==> (forall|i: int|
                0 <= i < filters@.len() ==> item_ok(column_defs@, #[trigger] filters@[i])),
            filters@.len() == 0 ==> (r matches Ok(o) && o is None),
            r matches Ok(o) ==> (o is Some <==> filters@.len() > 0),
            r matches Ok(o) ==> (o matches Some(f) ==> {
                &&& f.case_insensitive == true
                &&& f.column_defs == column_defs
                &&& f.expressions@.len() == 1
                &&& exists|conds: Seq<FilterCondition>|
                    {
                        &&& #[trigger] conds.len() == filters@.len()
                        &&& (forall|j: int|
                            0 <= j < filters@.len() ==> coerce_cond(
                                column_defs@[find_def(column_defs@, filters@[j].n@, 0)],
                                filters@[j].f@,
                                filters@[j].v@,
                                #[trigger] conds[j],
                            ))
                        &&& expr_sql(f.expressions@[0], true) == grouper_result(
                            conds,
                            Seq::new(filters@.len(), |j: int| conn_of(filters@[j].c)),
                            true,
                        )
                        &&& (expr_ok(f.expressions@[0]) <==> (forall|j: int|
                            0 <= j < filters@.len() ==> cond_ok(#[trigger] conds[j])))
                    }
            }),
            r matches Err(e) ==> ({
                let k = first_bad_item(filters@, column_defs@, 0);
                &&& 0 <= k < filters@.len()
                &&& ({
                    let d = find_def(column_defs@, filters@[k].n@, 0);
                    if d < 0 {
                        e matches FilterError::ColumnNotFound { column } && column@
                            == filters@[k].n@
                    } else {
                        coerce_err(column_defs@[d], filters@[k].f@, filters@[k].v@, e)
                    }
                })
            }),
    {
        if filters.len() == 0 {
            return Ok(None);
        }
        match FilterBuilder::from_json_filters(filters, true, &column_defs) {
            Ok(builder) => {
                match builder.root {
                    Some(root) => {
                        let ghost groot = root;
                        let mut exprs: Vec<FilterExpression> = Vec::new();
                        exprs.push(root);
                        proof {
                            assert(exprs@[0] == groot);
                        }
                        Ok(Some(FilteringOptions::new(exprs, column_defs)))
                    },
                    None => Ok(None),
                }
            },
            Err(e) => Err(e),
        }
    }

    /// A builder holding these expressions: one expression becomes the
    /// root, several are wrapped in one AND group.
    pub fn to_filter_builder(&self) -> (r: Result<FilterBuilder, FilterError>)
        ensures
            r is Ok,
            r->Ok_0.case_insensitive == self.case_insensitive,
            r->Ok_0.root is Some <==> self.expressions@.len() >= 1,
            r->Ok_0.root matches Some(root) ==> {
                &&& expr_ok(root) <==> exprs_ok_from(self.expressions@, 0)
                &&& !expr_ok(root) ==> expr_err(root) == exprs_err_from(self.expressions@, 0)
                &&& expr_ok(root) ==> expr_sql(root, true) == options_body_sql(
                    self.expressions@,
                    true,
                )
                &&& expr_ok(root) ==> expr_sql(root, false) == options_body_sql(
                    self.expressions@,
                    false,
                )
            },
    {
        let n = self.expressions.len();
        if n == 0 {
            proof {
                reveal_with_fuel(exprs_ok_from, 2);
            }
            Ok(FilterBuilder { root: None, case_insensitive: self.case_insensitive })
        } else if n == 1 {
            let root = self.expressions[0].clone();
            proof {
                lemma_expr_alike_unfold(root, self.expressions@[0]);
                reveal_with_fuel(exprs_ok_from, 2);
                reveal_with_fuel(exprs_err_from, 2);
            }
            Ok(FilterBuilder { root: Some(root), case_insensitive: self.case_insensitive })
        } else {
            let children = clone_exprs(&self.expressions);
            let root = FilterExpression::Group {
                operator: LogicalOperator::And,
                expressions: children,
            };
            proof {
                lemma_exprs_congruent(root->expressions@, self.expressions@, 0, true);
                lemma_exprs_congruent(root->expressions@, self.expressions@, 0, false);
                reveal_strlit(" AND ");
                reveal_strlit("AND");
                reveal_strlit(" ");
                assert(" "@ + crate::filtering::logical_sql(LogicalOperator::And) + " "@
                    =~= " AND "@);
            }
            Ok(FilterBuilder { root: Some(root), case_insensitive: self.case_insensitive })
        }
    }

    /// Renders the WHERE fragment of these options.
    pub fn to_sql(&self) -> (r: Result<String, FilterError>)
        ensures
            r is Ok <==> exprs_ok_from(self.expressions@, 0),
            r is Ok ==> r->Ok_0@ == options_where_sql(self.expressions@, self.case_insensitive),
            r is Err ==> r->Err_0 == exprs_err_from(self.expressions@, 0),
    {
        let builder = match self.to_filter_builder() {
            Ok(b) => b,
            Err(e) => {
                proof {
                    assert(false);
                }
                return Err(e);
            },
        };
        proof {
            if self.expressions@.len() == 0 {
                reveal_with_fuel(exprs_ok_from, 2);
            }
        }
        builder.build()
    }

    /// Collects validated expressions into filtering options: the first
    /// error wins, an empty list yields nothing.
    #[verifier::loop_isolation(false)]
    pub fn try_from_expressions(
        expressions: Vec<Result<FilterExpression, FilterError>>,
        column_defs: Vec<ColumnDef>,
    ) -> (r: Result<Option<FilteringOptions>, FilterError>)
        ensures
            r is Ok <==> (forall|i: int|
                0 <= i < expressions@.len() ==> #[trigger] expressions@[i] is Ok),
            r matches Ok(o) ==> (o is Some <==> expressions@.len() > 0),
            r matches Ok(o) ==> (o matches Some(f) ==> {
                &&& f.case_insensitive == true
                &&& f.expressions@.len() == expressions@.len()
                &&& forall|i: int|
                    0 <= i < expressions@.len() ==> #[trigger] f.expressions@[i]
                        == expressions@[i]->Ok_0
            }),
            r matches Err(e) ==> ({
                let k = first_err_item(expressions@, 0);
                &&& 0 <= k < expressions@.len()
                &&& (expressions@[k] matches Err(x) && x == e)
            }),
    {
        let ghost orig = expressions@;
        let mut exprs: Vec<FilterExpression> = Vec::new();
        let mut rest = expressions;
        let n0 = rest.len();
        proof {
            assert(orig.len() == n0);
        }
        let mut t: usize = 0;
        while rest.len() > 0
            invariant
                orig.len() <= usize::MAX,
                t == orig.len() - rest@.len(),
                rest@ == orig.subrange(t as int, orig.len() as int),
                exprs@.len() == t,
                forall|i: int|
                    0 <= i < t ==> #[trigger] orig[i] is Ok && exprs@[i] == orig[i]->Ok_0,
            decreases rest@.len(),
        {
            let e = rest.remove(0);
            proof {
                assert(e == orig[t as int]);
                assert(rest@ =~= orig.subrange(t as int + 1, orig.len() as int));
            }
            match e {
                Ok(expr) => exprs.push(expr),
                Err(err) => {
                    proof {
                        lemma_first_err_at(orig, 0, t as int);
                    }
                    return Err(err);
                },
            }
            t = t + 1;
        }
        if exprs.len() > 0 {
            Ok(Some(FilteringOptions::new(exprs, column_defs)))
        } else {
            Ok(None)
        }
    }
}

/// The WHERE fragment a stored builder renders.
pub open spec fn builder_where_sql(fb: FilterBuilder) -> Seq<char> {
    match fb.root {
        Some(e) => if expr_sql(e, fb.case_insensitive).len() == 0 {
            Seq::<char>::empty()
        } else {
            " WHERE "@ + expr_sql(e, fb.case_insensitive)
        },
        None => Seq::<char>::empty(),
    }
}

/// Whether a stored builder renders without error.
pub open spec fn builder_ok(fb: FilterBuilder) -> bool {
    match fb.root {
        Some(e) => expr_ok(e),
        None => true,
    }
}

/// The WHERE part of assembled SQL.
pub open spec fn filters_part(f: Option<FilterBuilder>) -> Seq<char> {
    match f {
        Some(fb) => builder_where_sql(fb),
        None => Seq::<char>::empty(),
    }
}

/// Whether the WHERE part renders without error.
pub open spec fn filters_part_ok(f: Option<FilterBuilder>) -> bool {
    match f {
        Some(fb) => builder_ok(fb),
        None => true,
    }
}

/// The ORDER BY part of assembled SQL.
pub open spec fn sorting_part(s: Option<Sorting>) -> Seq<char> {
    match s {
        Some(st) => st.sql@,
        None => Seq::<char>::empty(),
    }
}

/// The LIMIT/OFFSET part of assembled SQL, with its separating space.
pub open spec fn pagination_part(p: Option<Paginate>) -> Seq<char> {
    match p {
        Some(pg) => " "@ + pg.sql@,
        None => Seq::<char>::empty(),
    }
}

/// The assembled query state: pagination, sorting and filtering combined.
#[derive(Debug)]
pub struct ClickHouseFilters {
    pub pagination: Option<Paginate>,
    pub sorting: Option<Sorting>,
    pub filters: Option<FilterBuilder>,
    pub column_defs: Vec<ColumnDef>,
}

impl ClickHouseFilters {
    /// Assembles the components: sorting is canonicalized, pagination is
    /// validated, and the filtering options become a stored builder.
    pub fn new(
        pagination: Option<PaginationOptions>,
        sorting_columns: Vec<SortedColumn>,
        filtering_options: Option<FilteringOptions>,
        column_defs: Vec<ColumnDef>,
    ) -> (r: Result<ClickHouseFilters, FilterError>)
        ensures
            r is Ok,
            ({
                let res = r->Ok_0;
                &&& (res.sorting is Some <==> sorting_columns@.len() > 0)
                &&& (res.pagination is Some <==> pagination is Some)
                &&& (res.filters is Some <==> filtering_options is Some)
                &&& res.column_defs == column_defs
                &&& (sorting_columns@.len() > 0 ==> (res.sorting matches Some(st) && {
                    &&& strictly_sorted(st.columns@)
                    &&& (forall|j: int|
                        0 <= j < st.columns@.len() ==> first_col(
                            sorting_columns@,
                            #[trigger] st.columns@[j].column@,
                            0,
                        ) >= 0 && st.columns@[j] == sorting_columns@[first_col(
                            sorting_columns@,
                            st.columns@[j].column@,
                            0,
                        )])
                    &&& (forall|i: int|
                        0 <= i < sorting_columns@.len() ==> has_col(
                            st.columns@,
                            #[trigger] sorting_columns@[i].column@,
                        ))
                    &&& st.sql@ == order_by_sql(st.columns@)
                }))
                &&& (pagination matches Some(o) ==> (res.pagination matches Some(p) && {
                    let pp = spec_per_page(o.per_page as int, o.per_page_limit as int);
                    let tr = spec_total_records(o.total_records as int);
                    let tp = spec_total_pages(o.total_records as int, pp);
                    let cp = spec_current_page(o.current_page as int, tp);
                    &&& p.pagination.per_page == pp
                    &&& p.pagination.total_records == tr
                    &&& p.pagination.total_pages == tp
                    &&& p.pagination.current_page == cp
                    &&& p.pagination.previous_page == spec_prev_page(cp)
                    &&& p.pagination.next_page == spec_next_page(cp, tp)
                    &&& p.sql@ == "LIMIT "@ + dec_int(pp) + " OFFSET "@ + dec_int(
                        spec_offset(pp, cp),
                    )
                }))
                &&& (filtering_options matches Some(o) ==> {
                    let fb = res.filters->0;
                    &&& fb.case_insensitive == o.case_insensitive
                    &&& (builder_ok(fb) <==> exprs_ok_from(o.expressions@, 0))
                    &&& (builder_ok(fb) ==> builder_where_sql(fb) == options_where_sql(
                        o.expressions@,
                        o.case_insensitive,
                    ))
                })
            }),
    {
        let sorting = if sorting_columns.len() == 0 {
            None
        } else {
            Some(Sorting::new(sorting_columns))
        };
        let pagination = match pagination {
            Some(opts) => Some(
                Paginate::new(
                    opts.current_page,
                    opts.per_page,
                    opts.per_page_limit,
                    opts.total_records,
                ),
            ),
            None => None,
        };
        let filters = match filtering_options {
            Some(opts) => {
                match opts.to_filter_builder() {
                    Ok(builder) => {
                        proof {
                            if opts.expressions@.len() == 0 {
                                reveal_with_fuel(exprs_ok_from, 2);
                            }
                        }
                        Some(builder)
                    },
                    Err(e) => {
                        proof {
                            assert(false);
                        }
                        return Err(e);
                    },
                }
            },
            None => None,
        };
        Ok(ClickHouseFilters { pagination, sorting, filters, column_defs })
    }

    /// The WHERE + ORDER BY + LIMIT/OFFSET tail of a query.
    pub fn sql(&self) -> (r: Result<String, FilterError>)
        ensures
            r is Ok <==> filters_part_ok(self.filters),
            r is Ok ==> r->Ok_0@ == filters_part(self.filters) + sorting_part(self.sorting)
                + pagination_part(self.pagination),
    {
        let mut sql = String::new();
        match &self.filters {
            Some(filters) => {
                match filters.build() {
                    Ok(w) => sql.append(w.as_str()),
                    Err(e) => {
                        return Err(e);
                    },
                }
            },
            None => {},
        }
        match &self.sorting {
            Some(sorting) => sql.append(sorting.sql.as_str()),
            None => {},
        }
        match &self.pagination {
            Some(pagination) => {
                sql.append(" ");
                sql.append(pagination.sql.as_str());
            },
            None => {},
        }
        proof {
            assert(sql@ =~= filters_part(self.filters) + sorting_part(self.sorting)
                + pagination_part(self.pagination));
        }
        Ok(sql)
    }

    /// A COUNT query over the filtered rows: no ordering, no paging.
    pub fn count_sql(&self, schema: &str, table: &str) -> (r: Result<String, FilterError>)
        ensures
            r is Ok <==> filters_part_ok(self.filters),
            r is Ok ==> r->Ok_0@ == "SELECT COUNT(*) FROM "@ + schema@ + "."@ + table@
                + filters_part(self.filters),
    {
        let mut sql = String::new();
        sql.append("SELECT COUNT(*) FROM ");
        sql.append(schema);
        sql.append(".");
        sql.append(table);
        match &self.filters {
            Some(filters) => {
                match filters.build() {
                    Ok(w) => sql.append(w.as_str()),
                    Err(e) => {
                        return Err(e);
                    },
                }
            },
            None => {},
        }
        Ok(sql)
    }

    /// A full SELECT over the named columns (`*` when none are named),
    /// with filtering, ordering and paging.
    pub fn query_sql(&self, schema: &str, table: &str, columns: &Vec<String>) -> (r: Result<
        String,
        FilterError,
    >)
        ensures
            r is Ok <==> filters_part_ok(self.filters),
            r is Ok ==> r->Ok_0@ == "SELECT "@ + (if columns@.len() == 0 {
                "*"@
            } else {
                join_sep(views_of(columns@), ", "@)
            }) + " FROM "@ + schema@ + "."@ + table@ + filters_part(self.filters) + sorting_part(
                self.sorting,
            ) + pagination_part(self.pagination),
    {
        let mut sql = String::new();
        sql.append("SELECT ");
        if columns.len() == 0 {
            sql.append("*");
        } else {
            let ghost vs = views_of(columns@);
            let mut i: usize = 0;
            while i < columns.len()
                invariant
                    vs == views_of(columns@),
                    vs.len() == columns@.len(),
                    0 <= i <= columns@.len(),
                    sql@ == "SELECT "@ + join_sep(vs.subrange(0, i as int), ", "@),
                decreases columns@.len() - i,
            {
                if i > 0 {
                    sql.append(", ");
                }
                let ghost before = sql@;
                sql.append(columns[i].as_str());
                proof {
                    assert(vs[i as int] == columns@[i as int]@);
                    assert(sql@ =~= before + vs[i as int]);
                    assert(vs.subrange(0, i as int + 1) =~= vs.subrange(0, i as int).push(
                        vs[i as int],
                    ));
                    crate::text::lemma_join_push(vs.subrange(0, i as int), ", "@, vs[i as int]);
                    assert(sql@ =~= "SELECT "@ + join_sep(vs.subrange(0, i as int + 1), ", "@));
                }
                i = i + 1;
            }
            proof {
                assert(vs.subrange(0, columns@.len() as int) =~= vs);
            }
        }
        sql.append(" FROM ");
        sql.append(schema);
        sql.append(".");
        sql.append(table);
        match &self.filters {
            Some(filters) => {
                match filters.build() {
                    Ok(w) => sql.append(w.as_str()),
                    Err(e) => {
                        return Err(e);
                    },
                }
            },
            None => {},
        }
        match &self.sorting {
            Some(sorting) => sql.append(sorting.sql.as_str()),
            None => {},
        }
        match &self.pagination {
            Some(pagination) => {
                sql.append(" ");
                sql.append(pagination.sql.as_str());
            },
            None => {},
        }
        proof {
            assert(sql@ =~= "SELECT "@ + (if columns@.len() == 0 {
                "*"@
            } else {
                join_sep(views_of(columns@), ", "@)
            }) + " FROM "@ + schema@ + "."@ + table@ + filters_part(self.filters) + sorting_part(
                self.sorting,
            ) + pagination_part(self.pagination));
        }
        Ok(sql)
    }
}

} // verus!
