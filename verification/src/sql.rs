//! The request-shaped types of the HTTP surface: the path segments of a
//! table or function resource, the raw query fields of one operation, and
//! `SelectSQL`, which compiles a SELECT from them.
use vstd::prelude::*;

use crate::GatewayError;
use crate::compile::CompiledStatement;
use crate::compile::compile_select;
use crate::compile::filters_param_count;
use crate::compile::limit_text;
use crate::compile::name_list;
use crate::compile::quote_ident;
use crate::compile::select_text;
use crate::ident::Identifier;
use crate::ident::ResourceAddress;
use crate::ident::ResourceKind;
use crate::operation::NullsOrder;
use crate::operation::OperationSpec;
use crate::operation::SortClause;
use crate::parse::SortModel;
use crate::parse::idents_of;
use crate::parse::sort_model;
use crate::parse::sorts_of;
use crate::parse::split_on;

verus! {

/// The raw path segments addressing a table.
#[derive(Clone, Debug)]
pub struct SQLSchemaTable {
    pub schema: String,
    pub table: String,
}

/// The raw path segments addressing a database function.
#[derive(Clone, Debug)]
pub struct SQLFunction {
    pub schema: String,
    pub name: String,
}

/// The raw query fields of one operation as they arrive from the query
/// string, before identifier validation: each comma list is still one
/// string. `SelectSQL` compiles the scalar fields, the comma lists and
/// the `sort` list of this shape. Per-column filter entries belong to the
/// full mini-language, which goes through `parse::parse` and
/// `compile::compile_select`; the flat `filter` string here has no
/// defined grammar, so a given one is rejected rather than silently
/// dropped.
#[derive(Clone, Debug)]
pub struct SQLOperation {
    pub limit: Option<u64>,
    pub filter: Option<String>,
    pub sort: Option<String>,
    pub distinct: Option<bool>,
    pub columns: Option<String>,
    pub distinct_on: Option<String>,
}

/// When the raw operation compiles: every named column passes the
/// identifier grammar, every sort item parses, and no uninterpreted
/// `filter` string was given.
pub open spec fn legacy_ok(op: SQLOperation) -> bool {
    &&& op.filter is None
    &&& (op.columns matches Some(c) ==> idents_of(c@) is Some)
    &&& (op.distinct_on matches Some(d) ==> idents_of(d@) is Some)
    &&& (op.sort matches Some(s) ==> sorts_of(s@) is Some)
}

/// One sort key's text, over its parsed model.
pub open spec fn sort_key_text_model(m: SortModel) -> Seq<char> {
    quote_ident(m.column) + (if m.descending {
        " DESC"@
    } else {
        Seq::<char>::empty()
    }) + (match m.nulls {
        NullsOrder::Unspecified => Seq::<char>::empty(),
        NullsOrder::First => " NULLS FIRST"@,
        NullsOrder::Last => " NULLS LAST"@,
    })
}

/// The comma-separated sort keys, over their parsed models.
pub open spec fn sort_list_text_model(ms: Seq<SortModel>) -> Seq<char>
    decreases ms.len(),
{
    if ms.len() == 0 {
        Seq::empty()
    } else if ms.len() == 1 {
        sort_key_text_model(ms.last())
    } else {
        sort_list_text_model(ms.drop_last()) + ", "@ + sort_key_text_model(ms.last())
    }
}

/// The sort text of a clause run is determined by the clauses' models.
proof fn lemma_sort_list_text_model(ss: Seq<SortClause>)
    ensures
        crate::compile::sort_list_text(ss) == sort_list_text_model(
            ss.map_values(|s: SortClause| sort_model(s)),
        ),
    decreases ss.len(),
{
    let ms = ss.map_values(|s: SortClause| sort_model(s));
    if ss.len() > 0 {
        lemma_sort_list_text_model(ss.drop_last());
        assert(ss.drop_last().map_values(|s: SortClause| sort_model(s)) =~= ms.drop_last());
        assert(ms.last() == sort_model(ss.last()));
        assert(crate::compile::sort_key_text(ss.last()) == sort_key_text_model(ms.last()));
    }
}

/// The `ORDER BY` section a raw operation compiles to: the `sort` field
/// follows the `sort=a,-b` grammar of the query-string mini-language
/// (leading `-` means descending, left-to-right precedence).
pub open spec fn legacy_order_by_text(op: SQLOperation) -> Seq<char> {
    match op.sort {
        Some(s) => " ORDER BY "@ + sort_list_text_model(sorts_of(s@).unwrap()),
        None => Seq::empty(),
    }
}

/// The `DISTINCT` section a raw operation compiles to: a given
/// `distinct_on` list always renders `DISTINCT ON (...)`, whatever the
/// `distinct` flag says.
pub open spec fn legacy_distinct_text(op: SQLOperation) -> Seq<char> {
    match op.distinct_on {
        Some(d) => "DISTINCT ON ("@ + name_list(split_on(d@, ',')) + ") "@,
        None => if op.distinct == Some(true) {
            "DISTINCT "@
        } else {
            Seq::empty()
        },
    }
}

/// The projection a raw operation compiles to.
pub open spec fn legacy_projection_text(op: SQLOperation) -> Seq<char> {
    match op.columns {
        Some(c) => name_list(split_on(c@, ',')),
        None => "*"@,
    }
}

/// The SELECT text a raw operation compiles to over `schema.table`.
pub open spec fn legacy_select_text(s: SelectSQL) -> Seq<char> {
    "SELECT "@ + legacy_distinct_text(s.operation) + legacy_projection_text(s.operation)
        + " FROM "@ + quote_ident(s.schema@) + "."@ + quote_ident(s.table@)
        + legacy_order_by_text(s.operation) + limit_text(s.operation.limit)
}

/// A SELECT in the making: a validated table address and the raw
/// operation fields it will compile.
pub struct SelectSQL {
    pub schema: Identifier,
    pub table: Identifier,
    pub operation: SQLOperation,
}

impl SelectSQL {
    /// Pairs a validated schema and table with the raw operation fields.
    pub fn new(schema: Identifier, table: Identifier, operation: SQLOperation) -> (r: Self)
        ensures
            r.schema == schema,
            r.table == table,
            r.operation == operation,
    {
        SelectSQL { schema, table, operation }
    }

    /// Compiles the SELECT text. Succeeds exactly when no uninterpreted
    /// `filter` string was given, every column named in `columns` and
    /// `distinct_on` passes the identifier grammar and every `sort` item
    /// parses, and then returns exactly `legacy_select_text(self)`. A
    /// given `filter` fails with `MalformedQuery` — its grammar is
    /// deliberately undefined, and silently dropping a caller's filter
    /// would widen the result — and a bad column or sort item fails with
    /// `InvalidIdentifier`, in both cases before any text is built.
    pub fn build(self) -> (r: Result<String, GatewayError>)
        requires
            self.schema.wf(),
            self.table.wf(),
        ensures
            r is Ok <==> legacy_ok(self.operation),
            r matches Ok(sql) ==> sql@ == legacy_select_text(self),
            self.operation.filter is Some ==> (r matches Err(e) && e is MalformedQuery),
            self.operation.filter is None ==> (r matches Err(e) ==> e is InvalidIdentifier),
    {
        if self.operation.filter.is_some() {
            return Err(
                GatewayError::MalformedQuery(
                    "the flat filter field has no defined grammar; use per-column filter entries".to_owned(),
                ),
            );
        }
        let columns: Option<Vec<Identifier>> = match &self.operation.columns {
            Some(c) => {
                match crate::parse::parse_ident_items(c.as_str()) {
                    Ok(cs) => Some(cs),
                    Err(e) => {
                        return Err(e);
                    },
                }
            },
            None => None,
        };
        let distinct_on: Vec<Identifier> = match &self.operation.distinct_on {
            Some(d) => {
                match crate::parse::parse_ident_items(d.as_str()) {
                    Ok(cs) => cs,
                    Err(e) => {
                        return Err(e);
                    },
                }
            },
            None => Vec::new(),
        };
        let sort: Vec<SortClause> = match &self.operation.sort {
            Some(s) => {
                match crate::parse::parse_sorts(s.as_str()) {
                    Ok(ss) => ss,
                    Err(e) => {
                        return Err(e);
                    },
                }
            },
            None => Vec::new(),
        };
        let distinct: bool = match self.operation.distinct {
            Some(b) => b,
            None => false,
        };
        let spec2 = OperationSpec {
            limit: self.operation.limit,
            offset: None,
            columns,
            distinct,
            distinct_on,
            filters: Vec::new(),
            sort,
        };
        let addr = ResourceAddress {
            schema: self.schema,
            name: self.table,
            kind: ResourceKind::Table,
        };
        proof {
            assert(filters_param_count(spec2.filters@) == 0);
            if self.operation.distinct_on is Some {
                crate::parse::lemma_split_nonempty(self.operation.distinct_on->0@, ',');
            }
            if self.operation.columns is Some {
                crate::parse::lemma_split_nonempty(self.operation.columns->0@, ',');
            }
            if self.operation.sort is Some {
                crate::parse::lemma_split_nonempty(self.operation.sort->0@, ',');
                lemma_sort_list_text_model(spec2.sort@);
            }
        }
        let stmt: CompiledStatement = compile_select(&addr, &spec2);
        proof {
            assert(select_text(addr, spec2) =~= legacy_select_text(self));
        }
        Ok(stmt.sql)
    }
}

} // verus!
