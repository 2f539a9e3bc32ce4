//! The immutable operation specification: filters, sorting, projection,
//! distinctness and row bounds, as parsed from a request's query string.
use vstd::prelude::*;

use crate::ident::Identifier;
use crate::value::SqlValue;

verus! {

/// The closed set of filter operators recognized in the query-string
/// mini-language. Unknown operator tokens are a parse-time error.
#[derive(Clone, Copy, Debug, PartialEq, Eq, Structural)]
pub enum FilterOp {
    Eq,
    Neq,
    Gt,
    Gte,
    Lt,
    Lte,
    Like,
    Ilike,
    IsNull,
    In,
}

/// The operand of a filter clause: none (`is_null`), a single value, or a
/// parenthesized value list (`in`).
#[derive(Clone, Debug)]
pub enum Operand {
    Unit,
    One(SqlValue),
    Many(Vec<SqlValue>),
}

/// One column–operator–operand condition; clauses combine with AND.
#[derive(Clone, Debug)]
pub struct FilterClause {
    pub column: Identifier,
    pub op: FilterOp,
    pub operand: Operand,
}

impl FilterClause {
    /// The operand shape matches the operator: `is_null` carries no
    /// operand, `in` carries a list, every other operator a single value.
    pub open spec fn wf(&self) -> bool {
        &&& self.column.wf()
        &&& match self.op {
            FilterOp::IsNull => self.operand is Unit,
            FilterOp::In => self.operand is Many,
            _ => self.operand is One,
        }
    }
}

/// Where a sort places null values.
#[derive(Clone, Copy, Debug, PartialEq, Eq, Structural)]
pub enum NullsOrder {
    Unspecified,
    First,
    Last,
}

/// One sort key: column, direction, and null placement.
#[derive(Clone, Debug)]
pub struct SortClause {
    pub column: Identifier,
    pub descending: bool,
    pub nulls: NullsOrder,
}

impl SortClause {
    pub open spec fn wf(&self) -> bool {
        self.column.wf()
    }
}

/// The parsed, immutable specification of one operation. `columns: None`
/// projects every column; `distinct_on` non-empty implies deduplication
/// regardless of the `distinct` flag; `filters` combine with AND in order;
/// `sort` keys apply left to right.
#[derive(Clone, Debug)]
pub struct OperationSpec {
    pub limit: Option<u64>,
    pub offset: Option<u64>,
    pub columns: Option<Vec<Identifier>>,
    pub distinct: bool,
    pub distinct_on: Vec<Identifier>,
    pub filters: Vec<FilterClause>,
    pub sort: Vec<SortClause>,
}

impl OperationSpec {
    /// Every identifier inside has passed the grammar and every filter's
    /// operand shape matches its operator.
    pub open spec fn wf(&self) -> bool {
        &&& (self.columns matches Some(cs) ==> forall|i: int|
            0 <= i < cs.len() ==> (#[trigger] cs[i]).wf())
        &&& forall|i: int| 0 <= i < self.distinct_on.len() ==> (#[trigger] self.distinct_on[i]).wf()
        &&& forall|i: int| 0 <= i < self.filters.len() ==> (#[trigger] self.filters[i]).wf()
        &&& forall|i: int| 0 <= i < self.sort.len() ==> (#[trigger] self.sort[i]).wf()
    }

    /// The specification of an operation with no keys set: no row bounds,
    /// full projection, no deduplication, no filters, no sort.
    pub fn empty() -> (r: OperationSpec)
        ensures
            r.limit is None,
            r.offset is None,
            r.columns is None,
            !r.distinct,
            r.distinct_on@.len() == 0,
            r.filters@.len() == 0,
            r.sort@.len() == 0,
            r.wf(),
    {
        OperationSpec {
            limit: None,
            offset: None,
            columns: None,
            distinct: false,
            distinct_on: Vec::new(),
            filters: Vec::new(),
            sort: Vec::new(),
        }
    }
}

} // verus!
