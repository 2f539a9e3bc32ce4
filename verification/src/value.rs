//! Bound parameter values. A `SqlValue` is a plain value destined for a
//! statement's parameter list; it is never embedded in SQL text.
use vstd::prelude::*;

verus! {

/// The mathematical content of a bound value.
pub enum SqlValueModel {
    Null,
    Bool(bool),
    Int(int),
    Text(Seq<char>),
}

/// A value bound as a statement parameter: null, boolean, integer, or
/// text. Richer backend types (dates, arrays, JSON) travel as text here;
/// the edge converts them on either side.
#[derive(Clone, Debug)]
pub enum SqlValue {
    Null,
    Bool(bool),
    Int(i64),
    Text(String),
}

impl View for SqlValue {
    type V = SqlValueModel;

    open spec fn view(&self) -> SqlValueModel {
        match self {
            SqlValue::Null => SqlValueModel::Null,
            SqlValue::Bool(b) => SqlValueModel::Bool(*b),
            SqlValue::Int(i) => SqlValueModel::Int(*i as int),
            SqlValue::Text(s) => SqlValueModel::Text(s@),
        }
    }
}

/// The element-wise view of a parameter list.
pub open spec fn vals(s: Seq<SqlValue>) -> Seq<SqlValueModel> {
    s.map_values(|v: SqlValue| v@)
}

/// Appending one value to a parameter list appends its view.
pub proof fn lemma_vals_push(s: Seq<SqlValue>, v: SqlValue)
    ensures
        vals(s.push(v)) =~= vals(s).push(v@),
{
}

/// An owned copy of a bound value with the same content.
pub fn value_dup(v: &SqlValue) -> (r: SqlValue)
    ensures
        r@ == v@,
{
    match v {
        SqlValue::Null => SqlValue::Null,
        SqlValue::Bool(b) => SqlValue::Bool(*b),
        SqlValue::Int(i) => SqlValue::Int(*i),
        SqlValue::Text(s) => SqlValue::Text(s.clone()),
    }
}

/// One field of a mutation payload: a raw key (validated against the
/// identifier grammar only when a statement is compiled) and its value.
#[derive(Clone, Debug)]
pub struct PayloadEntry {
    pub key: String,
    pub value: SqlValue,
}

/// The key sequence of a payload row.
pub open spec fn key_views(row: Seq<PayloadEntry>) -> Seq<Seq<char>> {
    row.map_values(|e: PayloadEntry| e.key@)
}

/// The value sequence of a payload row.
pub open spec fn row_vals(row: Seq<PayloadEntry>) -> Seq<SqlValueModel> {
    row.map_values(|e: PayloadEntry| e.value@)
}

} // verus!
