//! The statement builder: pure compilation of a resource address, an
//! operation specification and an optional payload into SQL text plus an
//! ordered list of bound parameters.
//!
//! The safety contract of the whole gateway is stated here: identifier
//! text reaches the SQL string only through `quote_ident` applied to
//! values that satisfy the identifier grammar, and every user-controlled
//! value appears only in the parameter list, represented in the text by a
//! `$n` placeholder.
use vstd::prelude::*;

use crate::GatewayError;
use crate::digits::dec_rep;
use crate::digits::u64_to_dec;
use crate::ident::Identifier;
use crate::ident::ResourceAddress;
use crate::ident::is_valid_ident;
use crate::ident::valid_identifier;
use crate::operation::FilterClause;
use crate::operation::FilterOp;
use crate::operation::NullsOrder;
use crate::operation::Operand;
use crate::operation::OperationSpec;
use crate::operation::SortClause;
use crate::value::PayloadEntry;
use crate::value::SqlValue;
use crate::value::SqlValueModel;
use crate::value::key_views;
use crate::value::lemma_vals_push;
use crate::value::row_vals;
use crate::value::vals;
use crate::value::value_dup;

verus! {

/// A compiled statement: SQL text and the ordered bound parameters that
/// its `$1..$n` placeholders refer to.
#[derive(Debug)]
pub struct CompiledStatement {
    pub sql: String,
    pub params: Vec<SqlValue>,
}

/// An identifier quoted for textual embedding.
pub open spec fn quote_ident(name: Seq<char>) -> Seq<char> {
    "\""@ + name + "\""@
}

/// A comma-separated list of quoted identifiers.
pub open spec fn name_list(names: Seq<Seq<char>>) -> Seq<char>
    decreases names.len(),
{
    if names.len() == 0 {
        Seq::empty()
    } else if names.len() == 1 {
        quote_ident(names.last())
    } else {
        name_list(names.drop_last()) + ", "@ + quote_ident(names.last())
    }
}

/// The identifier texts of a validated identifier sequence.
pub open spec fn id_views(ids: Seq<Identifier>) -> Seq<Seq<char>> {
    ids.map_values(|id: Identifier| id@)
}

/// `"schema"."name"`, both parts quoted.
pub open spec fn qualified_name(addr: ResourceAddress) -> Seq<char> {
    quote_ident(addr.schema@) + "."@ + quote_ident(addr.name@)
}

/// The `$n` placeholder for parameter number `n`.
pub open spec fn placeholder(n: nat) -> Seq<char> {
    "$"@ + dec_rep(n)
}

/// `$start, $start+1, ..., $start+n-1`.
pub open spec fn placeholder_list(start: nat, n: nat) -> Seq<char>
    decreases n,
{
    if n == 0 {
        Seq::empty()
    } else if n == 1 {
        placeholder(start)
    } else {
        placeholder_list(start, (n - 1) as nat) + ", "@ + placeholder((start + n - 1) as nat)
    }
}

/// How many parameters a filter operand binds.
pub open spec fn operand_count(o: Operand) -> nat {
    match o {
        Operand::Unit => 0,
        Operand::One(_) => 1,
        Operand::Many(vs) => vs@.len(),
    }
}

/// The parameters a filter operand binds, in order.
pub open spec fn operand_params(o: Operand) -> Seq<SqlValueModel> {
    match o {
        Operand::Unit => Seq::empty(),
        Operand::One(v) => seq![v@],
        Operand::Many(vs) => vals(vs@),
    }
}

/// The SQL comparison token of a filter operator (with surrounding
/// spaces); `is_null` and `in` render through their own clause shapes.
pub open spec fn op_token(op: FilterOp) -> Seq<char> {
    match op {
        FilterOp::Eq => " = "@,
        FilterOp::Neq => " <> "@,
        FilterOp::Gt => " > "@,
        FilterOp::Gte => " >= "@,
        FilterOp::Lt => " < "@,
        FilterOp::Lte => " <= "@,
        FilterOp::Like => " LIKE "@,
        FilterOp::Ilike => " ILIKE "@,
        FilterOp::IsNull => " IS NULL"@,
        FilterOp::In => " IN "@,
    }
}

/// The text of one filter clause whose first placeholder is `$start`.
pub open spec fn clause_text(f: FilterClause, start: nat) -> Seq<char> {
    match f.op {
        FilterOp::IsNull => quote_ident(f.column@) + " IS NULL"@,
        FilterOp::In => quote_ident(f.column@) + " IN ("@ + placeholder_list(
            start,
            operand_count(f.operand),
        ) + ")"@,
        _ => quote_ident(f.column@) + op_token(f.op) + placeholder(start),
    }
}

/// How many parameters a run of filter clauses binds.
pub open spec fn filters_param_count(fs: Seq<FilterClause>) -> nat
    decreases fs.len(),
{
    if fs.len() == 0 {
        0
    } else {
        filters_param_count(fs.drop_last()) + operand_count(fs.last().operand)
    }
}

/// The AND-joined text of a run of filter clauses whose first placeholder
/// is `$start`.
pub open spec fn filters_text(fs: Seq<FilterClause>, start: nat) -> Seq<char>
    decreases fs.len(),
{
    if fs.len() == 0 {
        Seq::empty()
    } else if fs.len() == 1 {
        clause_text(fs.last(), start)
    } else {
        filters_text(fs.drop_last(), start) + " AND "@ + clause_text(
            fs.last(),
            start + filters_param_count(fs.drop_last()),
        )
    }
}

/// The parameters a run of filter clauses binds, in placeholder order.
pub open spec fn filters_params(fs: Seq<FilterClause>) -> Seq<SqlValueModel>
    decreases fs.len(),
{
    if fs.len() == 0 {
        Seq::empty()
    } else {
        filters_params(fs.drop_last()) + operand_params(fs.last().operand)
    }
}

/// The `WHERE` section: empty when there are no filter clauses.
pub open spec fn where_text(fs: Seq<FilterClause>, start: nat) -> Seq<char> {
    if fs.len() == 0 {
        Seq::empty()
    } else {
        " WHERE "@ + filters_text(fs, start)
    }
}

/// One sort key: quoted column, `DESC` when descending, and an optional
/// null-placement suffix.
pub open spec fn sort_key_text(s: SortClause) -> Seq<char> {
    quote_ident(s.column@) + (if s.descending {
        " DESC"@
    } else {
        Seq::<char>::empty()
    }) + (match s.nulls {
        NullsOrder::Unspecified => Seq::<char>::empty(),
        NullsOrder::First => " NULLS FIRST"@,
        NullsOrder::Last => " NULLS LAST"@,
    })
}

/// The comma-separated sort keys, left-to-right precedence.
pub open spec fn sort_list_text(ss: Seq<SortClause>) -> Seq<char>
    decreases ss.len(),
{
    if ss.len() == 0 {
        Seq::empty()
    } else if ss.len() == 1 {
        sort_key_text(ss.last())
    } else {
        sort_list_text(ss.drop_last()) + ", "@ + sort_key_text(ss.last())
    }
}

/// The `ORDER BY` section: empty when there are no sort keys.
pub open spec fn order_by_text(ss: Seq<SortClause>) -> Seq<char> {
    if ss.len() == 0 {
        Seq::empty()
    } else {
        " ORDER BY "@ + sort_list_text(ss)
    }
}

/// The `DISTINCT` section. A non-empty `distinct_on` list always renders
/// `DISTINCT ON (...)`, whatever the `distinct` flag says.
pub open spec fn distinct_text(op: OperationSpec) -> Seq<char> {
    if op.distinct_on@.len() > 0 {
        "DISTINCT ON ("@ + name_list(id_views(op.distinct_on@)) + ") "@
    } else if op.distinct {
        "DISTINCT "@
    } else {
        Seq::empty()
    }
}

/// The projected columns: `*` when no restriction was given.
pub open spec fn projection_text(op: OperationSpec) -> Seq<char> {
    match op.columns {
        Some(cs) => if cs@.len() == 0 {
            "*"@
        } else {
            name_list(id_views(cs@))
        },
        None => "*"@,
    }
}

/// The `LIMIT` section: empty exactly when no limit was given.
pub open spec fn limit_text(limit: Option<u64>) -> Seq<char> {
    match limit {
        Some(l) => " LIMIT "@ + dec_rep(l as nat),
        None => Seq::empty(),
    }
}

/// The `OFFSET` section: empty exactly when no offset was given.
pub open spec fn offset_text(offset: Option<u64>) -> Seq<char> {
    match offset {
        Some(o) => " OFFSET "@ + dec_rep(o as nat),
        None => Seq::empty(),
    }
}

/// The text of a compiled SELECT before its row-bound clauses.
pub open spec fn select_body_text(addr: ResourceAddress, op: OperationSpec) -> Seq<char> {
    "SELECT "@ + distinct_text(op) + projection_text(op) + " FROM "@ + qualified_name(addr)
        + where_text(op.filters@, 1) + order_by_text(op.sort@)
}

/// The complete text of a compiled SELECT.
pub open spec fn select_text(addr: ResourceAddress, op: OperationSpec) -> Seq<char> {
    select_body_text(addr, op) + limit_text(op.limit) + offset_text(op.offset)
}

/// Whether `needle` occurs as a contiguous run inside `hay`.
pub open spec fn contains_seq(hay: Seq<char>, needle: Seq<char>) -> bool {
    exists|i: int|
        0 <= i && i + needle.len() <= hay.len() && #[trigger] hay.subrange(i, i + needle.len())
            == needle
}

/// A prefix of a filter run never binds more parameters than the run.
pub proof fn lemma_filters_count_mono(fs: Seq<FilterClause>, i: int, j: int)
    requires
        0 <= i <= j <= fs.len(),
    ensures
        filters_param_count(fs.take(i)) <= filters_param_count(fs.take(j)),
    decreases j - i,
{
    if i < j {
        lemma_filters_count_mono(fs, i, j - 1);
        assert(fs.take(j).drop_last() =~= fs.take(j - 1));
        assert(filters_param_count(fs.take(j)) == filters_param_count(fs.take(j - 1))
            + operand_count(fs.take(j).last().operand));
    }
}

/// Appends `"name"` to `out`.
fn push_quoted(out: &mut String, id: &Identifier)
    ensures
        final(out)@ == old(out)@ + quote_ident(id@),
{
    out.append("\"");
    out.append(id.as_str());
    out.append("\"");
    proof {
        assert(out@ =~= old(out)@ + quote_ident(id@));
    }
}

/// Appends the comma-separated quoted identifier list to `out`.
fn push_name_list(out: &mut String, ids: &Vec<Identifier>)
    ensures
        final(out)@ == old(out)@ + name_list(id_views(ids@)),
{
    let n = ids.len();
    let mut i: usize = 0;
    while i < n
        invariant
            0 <= i <= n,
            n == ids@.len(),
            out@ == old(out)@ + name_list(id_views(ids@.take(i as int))),
        decreases n - i,
    {
        if i > 0 {
            out.append(", ");
        }
        push_quoted(out, &ids[i]);
        proof {
            let t = id_views(ids@.take(i + 1));
            assert(t.drop_last() =~= id_views(ids@.take(i as int)));
            assert(t.last() == ids@[i as int]@);
            assert(out@ =~= old(out)@ + name_list(t));
        }
        i = i + 1;
    }
    proof {
        assert(ids@.take(n as int) =~= ids@);
    }
}

/// Appends `$n` to `out`.
fn push_placeholder(out: &mut String, n: usize)
    ensures
        final(out)@ == old(out)@ + placeholder(n as nat),
{
    out.append("$");
    let d = u64_to_dec(n as u64);
    out.append(d.as_str());
    proof {
        assert(out@ =~= old(out)@ + placeholder(n as nat));
    }
}

/// Appends the text of one filter clause and its bound parameters;
/// `*next` is the clause's first placeholder number and is advanced past
/// the parameters the clause binds.
fn push_clause(out: &mut String, params: &mut Vec<SqlValue>, next: &mut usize, f: &FilterClause)
    requires
        f.wf(),
        (*old(next)) + operand_count(f.operand) <= usize::MAX,
    ensures
        final(out)@ == old(out)@ + clause_text(*f, (*old(next)) as nat),
        final(params)@.len() == old(params)@.len() + operand_count(f.operand),
        vals(final(params)@) == vals(old(params)@) + operand_params(f.operand),
        *final(next) == (*old(next)) + operand_count(f.operand),
{
    push_quoted(out, &f.column);
    match (&f.op, &f.operand) {
        (FilterOp::IsNull, Operand::Unit) => {
            out.append(" IS NULL");
            proof {
                assert(vals(params@) =~= vals(old(params)@) + operand_params(f.operand));
                assert(out@ =~= old(out)@ + clause_text(*f, (*old(next)) as nat));
            }
        },
        (FilterOp::In, Operand::Many(vs)) => {
            out.append(" IN (");
            let start: usize = *next;
            let m = vs.len();
            let mut j: usize = 0;
            while j < m
                invariant
                    0 <= j <= m,
                    m == vs@.len(),
                    start + m <= usize::MAX,
                    *next == start + j,
                    out@ == old(out)@ + quote_ident(f.column@) + " IN ("@ + placeholder_list(
                        start as nat,
                        j as nat,
                    ),
                    params@.len() == old(params)@.len() + j,
                    vals(params@) == vals(old(params)@) + vals(vs@.take(j as int)),
                decreases m - j,
            {
                if j > 0 {
                    out.append(", ");
                }
                push_placeholder(out, *next);
                let d = value_dup(&vs[j]);
                let ghost pb = params@;
                params.push(d);
                *next = *next + 1;
                proof {
                    assert(out@ =~= old(out)@ + quote_ident(f.column@) + " IN ("@
                        + placeholder_list(start as nat, (j + 1) as nat));
                    lemma_vals_push(pb, d);
                    assert(vals(vs@.take(j + 1)) =~= vals(vs@.take(j as int)).push(vs@[j as int]@));
                    assert(vals(params@) =~= vals(old(params)@) + vals(vs@.take(j + 1)));
                }
                j = j + 1;
            }
            out.append(")");
            proof {
                assert(vs@.take(m as int) =~= vs@);
                assert(operand_params(f.operand) =~= vals(vs@));
                assert(out@ =~= old(out)@ + clause_text(*f, (*old(next)) as nat));
            }
        },
        (opk, Operand::One(v)) => {
            match opk {
                FilterOp::Eq => out.append(" = "),
                FilterOp::Neq => out.append(" <> "),
                FilterOp::Gt => out.append(" > "),
                FilterOp::Gte => out.append(" >= "),
                FilterOp::Lt => out.append(" < "),
                FilterOp::Lte => out.append(" <= "),
                FilterOp::Like => out.append(" LIKE "),
                FilterOp::Ilike => out.append(" ILIKE "),
                _ => out.append(" = "),
            }
            push_placeholder(out, *next);
            let d = value_dup(v);
            let ghost pb = params@;
            params.push(d);
            *next = *next + 1;
            proof {
                lemma_vals_push(pb, d);
                assert(vals(params@) =~= vals(old(params)@) + operand_params(f.operand));
                assert(out@ =~= old(out)@ + clause_text(*f, (*old(next)) as nat));
            }
        },
        _ => {
            // `f.wf()` ties each operator to its operand shape, so no
            // other combination can reach this arm
            proof {
                assert(false);
            }
        },
    }
}

/// Appends the AND-joined filter clauses and their parameters; `*next` is
/// the first placeholder number of the run.
fn push_filters(out: &mut String, params: &mut Vec<SqlValue>, next: &mut usize, fs: &Vec<
    FilterClause,
>)
    requires
        forall|i: int| 0 <= i < fs@.len() ==> (#[trigger] fs@[i]).wf(),
        (*old(next)) + filters_param_count(fs@) <= usize::MAX,
    ensures
        final(out)@ == old(out)@ + filters_text(fs@, (*old(next)) as nat),
        vals(final(params)@) == vals(old(params)@) + filters_params(fs@),
        *final(next) == (*old(next)) + filters_param_count(fs@),
{
    let n = fs.len();
    let ghost start = *next as nat;
    let mut i: usize = 0;
    while i < n
        invariant
            0 <= i <= n,
            n == fs@.len(),
            forall|k: int| 0 <= k < fs@.len() ==> (#[trigger] fs@[k]).wf(),
            start + filters_param_count(fs@) <= usize::MAX,
            *next == start + filters_param_count(fs@.take(i as int)),
            out@ == old(out)@ + filters_text(fs@.take(i as int), start),
            vals(params@) == vals(old(params)@) + filters_params(fs@.take(i as int)),
        decreases n - i,
    {
        if i > 0 {
            out.append(" AND ");
        }
        proof {
            lemma_filters_count_mono(fs@, i + 1, n as int);
            assert(fs@.take(n as int) =~= fs@);
            assert(fs@.take(i + 1).drop_last() =~= fs@.take(i as int));
            assert(fs@.take(i + 1).last() == fs@[i as int]);
        }
        push_clause(out, params, next, &fs[i]);
        proof {
            assert(out@ =~= old(out)@ + filters_text(fs@.take(i + 1), start));
            assert(vals(params@) =~= vals(old(params)@) + filters_params(fs@.take(i + 1)));
        }
        i = i + 1;
    }
    proof {
        assert(fs@.take(n as int) =~= fs@);
    }
}

/// Appends the comma-separated sort keys to `out`.
fn push_sort_list(out: &mut String, ss: &Vec<SortClause>)
    requires
        forall|i: int| 0 <= i < ss@.len() ==> (#[trigger] ss@[i]).wf(),
    ensures
        final(out)@ == old(out)@ + sort_list_text(ss@),
{
    let n = ss.len();
    let mut i: usize = 0;
    while i < n
        invariant
            0 <= i <= n,
            n == ss@.len(),
            forall|k: int| 0 <= k < ss@.len() ==> (#[trigger] ss@[k]).wf(),
            out@ == old(out)@ + sort_list_text(ss@.take(i as int)),
        decreases n - i,
    {
        if i > 0 {
            out.append(", ");
        }
        push_quoted(out, &ss[i].column);
        if ss[i].descending {
            out.append(" DESC");
        }
        match ss[i].nulls {
            NullsOrder::Unspecified => (),
            NullsOrder::First => out.append(" NULLS FIRST"),
            NullsOrder::Last => out.append(" NULLS LAST"),
        }
        proof {
            assert(ss@.take(i + 1).drop_last() =~= ss@.take(i as int));
            assert(ss@.take(i + 1).last() == ss@[i as int]);
            assert(out@ =~= old(out)@ + sort_list_text(ss@.take(i + 1)));
        }
        i = i + 1;
    }
    proof {
        assert(ss@.take(n as int) =~= ss@);
    }
}

/// Compiles a SELECT over the addressed table. The text is exactly
/// `select_text(addr, op)`; the parameters are exactly the filter
/// operands, in placeholder order — no user-controlled value is embedded
/// in the text.
#[verifier::rlimit(80)]
pub fn compile_select(addr: &ResourceAddress, op: &OperationSpec) -> (r: CompiledStatement)
    requires
        addr.wf(),
        op.wf(),
        filters_param_count(op.filters@) + 1 <= usize::MAX,
    ensures
        r.sql@ == select_text(*addr, *op),
        vals(r.params@) == filters_params(op.filters@),
{
    let mut out = String::new();
    let mut params: Vec<SqlValue> = Vec::new();
    out.append("SELECT ");
    if op.distinct_on.len() > 0 {
        out.append("DISTINCT ON (");
        push_name_list(&mut out, &op.distinct_on);
        out.append(") ");
    } else if op.distinct {
        out.append("DISTINCT ");
    }
    let ghost t1 = "SELECT "@ + distinct_text(*op);
    proof {
        assert(out@ =~= t1);
    }
    match &op.columns {
        Some(cs) => {
            if cs.len() == 0 {
                out.append("*");
            } else {
                push_name_list(&mut out, cs);
            }
        },
        None => out.append("*"),
    }
    let ghost t2 = t1 + projection_text(*op);
    proof {
        assert(out@ =~= t2);
    }
    out.append(" FROM ");
    push_quoted(&mut out, &addr.schema);
    out.append(".");
    push_quoted(&mut out, &addr.name);
    let ghost t3 = t2 + " FROM "@ + qualified_name(*addr);
    proof {
        assert(out@ =~= t3);
    }
    if op.filters.len() > 0 {
        out.append(" WHERE ");
        let mut next: usize = 1;
        push_filters(&mut out, &mut params, &mut next, &op.filters);
    }
    let ghost t4 = t3 + where_text(op.filters@, 1);
    proof {
        assert(out@ =~= t4);
    }
    if op.sort.len() > 0 {
        out.append(" ORDER BY ");
        push_sort_list(&mut out, &op.sort);
    }
    let ghost t5 = t4 + order_by_text(op.sort@);
    proof {
        assert(out@ =~= t5);
    }
    if let Some(l) = op.limit {
        out.append(" LIMIT ");
        let d = u64_to_dec(l);
        out.append(d.as_str());
    }
    if let Some(o) = op.offset {
        out.append(" OFFSET ");
        let d = u64_to_dec(o);
        out.append(d.as_str());
    }
    proof {
        assert(out@ =~= t5 + limit_text(op.limit) + offset_text(op.offset));
        assert(out@ =~= select_text(*addr, *op));
        assert(vals(params@) =~= filters_params(op.filters@));
    }
    CompiledStatement { sql: out, params }
}


/// How many values a bulk payload binds in total.
pub open spec fn payload_total(rows: Seq<Vec<PayloadEntry>>) -> nat
    decreases rows.len(),
{
    if rows.len() == 0 {
        0
    } else {
        payload_total(rows.drop_last()) + rows.last()@.len()
    }
}

/// The `(...), (...)` placeholder tuples of a bulk insert, numbered
/// consecutively from `$1`.
pub open spec fn tuples_text(rows: Seq<Vec<PayloadEntry>>) -> Seq<char>
    decreases rows.len(),
{
    if rows.len() == 0 {
        Seq::empty()
    } else if rows.len() == 1 {
        "("@ + placeholder_list(1, rows.last()@.len()) + ")"@
    } else {
        tuples_text(rows.drop_last()) + ", "@ + "("@ + placeholder_list(
            payload_total(rows.drop_last()) + 1,
            rows.last()@.len(),
        ) + ")"@
    }
}

/// The values a bulk payload binds, in placeholder order.
pub open spec fn payload_params(rows: Seq<Vec<PayloadEntry>>) -> Seq<SqlValueModel>
    decreases rows.len(),
{
    if rows.len() == 0 {
        Seq::empty()
    } else {
        payload_params(rows.drop_last()) + row_vals(rows.last()@)
    }
}

/// Every key of the row satisfies the identifier grammar.
pub open spec fn row_keys_valid(row: Seq<PayloadEntry>) -> bool {
    forall|i: int| 0 <= i < row.len() ==> valid_identifier((#[trigger] row[i]).key@)
}

/// When an insert compiles: at least one row, at least one column, all
/// keys of the first row valid, and every row carrying the same keys in
/// the same order.
pub open spec fn insert_ok(rows: Seq<Vec<PayloadEntry>>) -> bool {
    &&& rows.len() > 0
    &&& rows[0]@.len() > 0
    &&& row_keys_valid(rows[0]@)
    &&& forall|i: int| 0 <= i < rows.len() ==> key_views(#[trigger] rows[i]@) == key_views(rows[0]@)
}

/// The complete text of a compiled INSERT. The `RETURNING *` suffix makes
/// inserted rows round-trip to the caller.
pub open spec fn insert_text(addr: ResourceAddress, rows: Seq<Vec<PayloadEntry>>) -> Seq<char> {
    "INSERT INTO "@ + qualified_name(addr) + " ("@ + name_list(key_views(rows[0]@))
        + ") VALUES "@ + tuples_text(rows) + " RETURNING *"@
}

/// A comma-separated `"key" <tok> $n` list with consecutive placeholders
/// from `$start`; `tok` is ` = ` in a SET list and ` := ` in a named
/// argument list.
pub open spec fn assign_list_text(row: Seq<PayloadEntry>, start: nat, tok: Seq<char>) -> Seq<char>
    decreases row.len(),
{
    if row.len() == 0 {
        Seq::empty()
    } else if row.len() == 1 {
        quote_ident(row.last().key@) + tok + placeholder(start)
    } else {
        assign_list_text(row.drop_last(), start, tok) + ", "@ + quote_ident(row.last().key@) + tok
            + placeholder((start + row.len() - 1) as nat)
    }
}

/// When an update compiles, the filter rule aside: a non-empty SET list
/// with valid keys.
pub open spec fn update_ok(row: Seq<PayloadEntry>) -> bool {
    row.len() > 0 && row_keys_valid(row)
}

/// The complete text of a compiled UPDATE.
pub open spec fn update_text(addr: ResourceAddress, row: Seq<PayloadEntry>, op: OperationSpec) -> Seq<char> {
    "UPDATE "@ + qualified_name(addr) + " SET "@ + assign_list_text(row, 1, " = "@) + where_text(
        op.filters@,
        row.len() + 1,
    ) + " RETURNING *"@
}

/// The complete text of a compiled DELETE.
pub open spec fn delete_text(addr: ResourceAddress, op: OperationSpec) -> Seq<char> {
    "DELETE FROM "@ + qualified_name(addr) + where_text(op.filters@, 1) + " RETURNING *"@
}

/// The complete text of a compiled function call with named arguments.
pub open spec fn call_text(addr: ResourceAddress, row: Seq<PayloadEntry>) -> Seq<char> {
    "SELECT * FROM "@ + qualified_name(addr) + "("@ + assign_list_text(row, 1, " := "@) + ")"@
}

/// A prefix of a bulk payload never binds more values than the payload.
pub proof fn lemma_payload_total_mono(rows: Seq<Vec<PayloadEntry>>, i: int, j: int)
    requires
        0 <= i <= j <= rows.len(),
    ensures
        payload_total(rows.take(i)) <= payload_total(rows.take(j)),
    decreases j - i,
{
    if i < j {
        lemma_payload_total_mono(rows, i, j - 1);
        assert(rows.take(j).drop_last() =~= rows.take(j - 1));
        assert(payload_total(rows.take(j)) == payload_total(rows.take(j - 1))
            + rows.take(j).last()@.len());
    }
}

/// Appends `"name"` for a raw key that has passed the grammar.
fn push_quoted_str(out: &mut String, s: &str)
    requires
        valid_identifier(s@),
    ensures
        final(out)@ == old(out)@ + quote_ident(s@),
{
    out.append("\"");
    out.append(s);
    out.append("\"");
    proof {
        assert(out@ =~= old(out)@ + quote_ident(s@));
    }
}

/// Decides whether every key of the row passes the identifier grammar.
fn row_keys_all_valid(row: &Vec<PayloadEntry>) -> (b: bool)
    ensures
        b == row_keys_valid(row@),
{
    let n = row.len();
    let mut i: usize = 0;
    while i < n
        invariant
            0 <= i <= n,
            n == row@.len(),
            forall|j: int| 0 <= j < i ==> valid_identifier((#[trigger] row@[j]).key@),
        decreases n - i,
    {
        if !is_valid_ident(row[i].key.as_str()) {
            return false;
        }
        i = i + 1;
    }
    true
}

/// Decides whether every row carries the same keys, in the same order, as
/// the first row.
fn rows_consistent(rows: &Vec<Vec<PayloadEntry>>) -> (b: bool)
    requires
        rows@.len() > 0,
    ensures
        b == forall|i: int|
            0 <= i < rows@.len() ==> key_views(#[trigger] rows@[i]@) == key_views(rows@[0]@),
{
    let n = rows.len();
    let k = rows[0].len();
    let mut i: usize = 0;
    while i < n
        invariant
            0 <= i <= n,
            n == rows@.len(),
            k == rows@[0]@.len(),
            forall|p: int| 0 <= p < i ==> key_views(#[trigger] rows@[p]@) == key_views(rows@[0]@),
        decreases n - i,
    {
        if rows[i].len() != k {
            proof {
                assert(key_views(rows@[i as int]@).len() != key_views(rows@[0]@).len());
            }
            return false;
        }
        let mut j: usize = 0;
        while j < k
            invariant
                0 <= j <= k,
                0 <= i < n,
                n == rows@.len(),
                k == rows@[0]@.len(),
                rows@[i as int]@.len() == k,
                forall|q: int|
                    0 <= q < j ==> (#[trigger] rows@[i as int]@[q]).key@ == rows@[0]@[q].key@,
            decreases k - j,
        {
            let same = rows[i][j].key.eq(&rows[0][j].key);
            if !same {
                proof {
                    assert(key_views(rows@[i as int]@)[j as int] != key_views(rows@[0]@)[j as int]);
                }
                return false;
            }
            j = j + 1;
        }
        proof {
            assert(key_views(rows@[i as int]@) =~= key_views(rows@[0]@));
        }
        i = i + 1;
    }
    true
}

/// Appends the quoted key list of a payload row.
fn push_key_list(out: &mut String, row: &Vec<PayloadEntry>)
    requires
        row_keys_valid(row@),
    ensures
        final(out)@ == old(out)@ + name_list(key_views(row@)),
{
    let n = row.len();
    let mut i: usize = 0;
    while i < n
        invariant
            0 <= i <= n,
            n == row@.len(),
            row_keys_valid(row@),
            out@ == old(out)@ + name_list(key_views(row@.take(i as int))),
        decreases n - i,
    {
        if i > 0 {
            out.append(", ");
        }
        push_quoted_str(out, row[i].key.as_str());
        proof {
            let t = key_views(row@.take(i + 1));
            assert(t.drop_last() =~= key_views(row@.take(i as int)));
            assert(t.last() == row@[i as int].key@);
            assert(out@ =~= old(out)@ + name_list(t));
        }
        i = i + 1;
    }
    proof {
        assert(row@.take(n as int) =~= row@);
    }
}

/// Appends a `"key" <tok> $n` list and the row's values as parameters;
/// `*next` is advanced past the row.
fn push_assign_list(
    out: &mut String,
    params: &mut Vec<SqlValue>,
    next: &mut usize,
    row: &Vec<PayloadEntry>,
    tok: &str,
)
    requires
        row_keys_valid(row@),
        (*old(next)) + row@.len() <= usize::MAX,
    ensures
        final(out)@ == old(out)@ + assign_list_text(row@, (*old(next)) as nat, tok@),
        vals(final(params)@) == vals(old(params)@) + row_vals(row@),
        *final(next) == (*old(next)) + row@.len(),
{
    let n = row.len();
    let ghost start = (*next) as nat;
    let mut i: usize = 0;
    while i < n
        invariant
            0 <= i <= n,
            n == row@.len(),
            row_keys_valid(row@),
            start + n <= usize::MAX,
            *next == start + i,
            out@ == old(out)@ + assign_list_text(row@.take(i as int), start, tok@),
            vals(params@) == vals(old(params)@) + row_vals(row@.take(i as int)),
        decreases n - i,
    {
        if i > 0 {
            out.append(", ");
        }
        push_quoted_str(out, row[i].key.as_str());
        out.append(tok);
        push_placeholder(out, *next);
        let d = value_dup(&row[i].value);
        let ghost pb = params@;
        params.push(d);
        *next = *next + 1;
        proof {
            let t = row@.take(i + 1);
            assert(t.drop_last() =~= row@.take(i as int));
            assert(t.last() == row@[i as int]);
            assert(out@ =~= old(out)@ + assign_list_text(t, start, tok@));
            lemma_vals_push(pb, d);
            assert(row_vals(t) =~= row_vals(row@.take(i as int)).push(row@[i as int].value@));
            assert(vals(params@) =~= vals(old(params)@) + row_vals(t));
        }
        i = i + 1;
    }
    proof {
        assert(row@.take(n as int) =~= row@);
    }
}


/// Compiles an INSERT from a bulk payload: the key list comes from the
/// first row, every row becomes one placeholder tuple, and every value is
/// bound as a parameter. Fails with `SchemaMismatch` exactly when the
/// payload is empty, a key fails the identifier grammar, or the rows'
/// key sets disagree.
#[verifier::rlimit(80)]
pub fn compile_insert(addr: &ResourceAddress, rows: &Vec<Vec<PayloadEntry>>) -> (r: Result<
    CompiledStatement,
    GatewayError,
>)
    requires
        addr.wf(),
        payload_total(rows@) + 1 <= usize::MAX,
    ensures
        r is Ok <==> insert_ok(rows@),
        r matches Ok(c) ==> c.sql@ == insert_text(*addr, rows@) && vals(c.params@)
            == payload_params(rows@),
        r matches Err(e) ==> e is SchemaMismatch,
{
    if rows.len() == 0 {
        return Err(GatewayError::SchemaMismatch);
    }
    if rows[0].len() == 0 {
        return Err(GatewayError::SchemaMismatch);
    }
    if !row_keys_all_valid(&rows[0]) {
        return Err(GatewayError::SchemaMismatch);
    }
    if !rows_consistent(rows) {
        return Err(GatewayError::SchemaMismatch);
    }
    let mut out = String::new();
    let mut params: Vec<SqlValue> = Vec::new();
    out.append("INSERT INTO ");
    push_quoted(&mut out, &addr.schema);
    out.append(".");
    push_quoted(&mut out, &addr.name);
    out.append(" (");
    push_key_list(&mut out, &rows[0]);
    out.append(") VALUES ");
    let ghost pfx = "INSERT INTO "@ + qualified_name(*addr) + " ("@ + name_list(
        key_views(rows@[0]@),
    ) + ") VALUES "@;
    proof {
        assert(out@ =~= pfx);
    }
    let n = rows.len();
    let mut next: usize = 1;
    let mut i: usize = 0;
    while i < n
        invariant
            0 <= i <= n,
            n == rows@.len(),
            payload_total(rows@) + 1 <= usize::MAX,
            next == 1 + payload_total(rows@.take(i as int)),
            out@ == pfx + tuples_text(rows@.take(i as int)),
            vals(params@) == payload_params(rows@.take(i as int)),
        decreases n - i,
    {
        proof {
            lemma_payload_total_mono(rows@, i + 1, n as int);
            assert(rows@.take(n as int) =~= rows@);
            assert(rows@.take(i + 1).drop_last() =~= rows@.take(i as int));
        }
        if i > 0 {
            out.append(", ");
        }
        out.append("(");
        let ghost base = out@;
        let ghost pvals = params@;
        let ghost start = next as nat;
        let m = rows[i].len();
        let mut j: usize = 0;
        while j < m
            invariant
                0 <= j <= m,
                0 <= i < n,
                n == rows@.len(),
                m == rows@[i as int]@.len(),
                start + m <= usize::MAX,
                next == start + j,
                out@ == base + placeholder_list(start, j as nat),
                vals(params@) == vals(pvals) + row_vals(rows@[i as int]@.take(j as int)),
            decreases m - j,
        {
            if j > 0 {
                out.append(", ");
            }
            push_placeholder(&mut out, next);
            let d = value_dup(&rows[i][j].value);
            let ghost pb = params@;
            params.push(d);
            next = next + 1;
            proof {
                assert(out@ =~= base + placeholder_list(start, (j + 1) as nat));
                lemma_vals_push(pb, d);
                let t = rows@[i as int]@.take(j + 1);
                assert(t.drop_last() =~= rows@[i as int]@.take(j as int));
                assert(row_vals(t) =~= row_vals(t.drop_last()).push(rows@[i as int]@[j as int].value@));
                assert(vals(params@) =~= vals(pvals) + row_vals(t));
            }
            j = j + 1;
        }
        out.append(")");
        proof {
            assert(rows@[i as int]@.take(m as int) =~= rows@[i as int]@);
            assert(out@ =~= pfx + tuples_text(rows@.take(i + 1)));
            assert(vals(params@) =~= payload_params(rows@.take(i + 1)));
        }
        i = i + 1;
    }
    out.append(" RETURNING *");
    proof {
        assert(rows@.take(n as int) =~= rows@);
        assert(out@ =~= insert_text(*addr, rows@));
    }
    Ok(CompiledStatement { sql: out, params })
}

/// Compiles an UPDATE: the SET list binds the payload's values, the WHERE
/// clause the filter operands, numbered after them. An empty filter list
/// without the explicit opt-in fails with `MissingFilter` and builds
/// nothing — the rule that guards against whole-table mutation; a bad
/// payload fails with `SchemaMismatch`.
#[verifier::rlimit(80)]
pub fn compile_update(
    addr: &ResourceAddress,
    row: &Vec<PayloadEntry>,
    op: &OperationSpec,
    allow_unfiltered: bool,
) -> (r: Result<CompiledStatement, GatewayError>)
    requires
        addr.wf(),
        op.wf(),
        row@.len() + filters_param_count(op.filters@) + 1 <= usize::MAX,
    ensures
        r is Ok <==> ((op.filters@.len() > 0 || allow_unfiltered) && update_ok(row@)),
        op.filters@.len() == 0 && !allow_unfiltered ==> (r matches Err(e) && e is MissingFilter),
        (op.filters@.len() > 0 || allow_unfiltered) && !update_ok(row@) ==> (r matches Err(e)
            && e is SchemaMismatch),
        r matches Ok(c) ==> c.sql@ == update_text(*addr, row@, *op) && vals(c.params@) == row_vals(
            row@,
        ) + filters_params(op.filters@),
{
    if op.filters.len() == 0 && !allow_unfiltered {
        return Err(GatewayError::MissingFilter);
    }
    if row.len() == 0 {
        return Err(GatewayError::SchemaMismatch);
    }
    if !row_keys_all_valid(row) {
        return Err(GatewayError::SchemaMismatch);
    }
    let mut out = String::new();
    let mut params: Vec<SqlValue> = Vec::new();
    out.append("UPDATE ");
    push_quoted(&mut out, &addr.schema);
    out.append(".");
    push_quoted(&mut out, &addr.name);
    out.append(" SET ");
    let ghost pfx = "UPDATE "@ + qualified_name(*addr) + " SET "@;
    proof {
        assert(out@ =~= pfx);
    }
    let mut next: usize = 1;
    push_assign_list(&mut out, &mut params, &mut next, row, " = ");
    let ghost pfx2 = pfx + assign_list_text(row@, 1, " = "@);
    proof {
        assert(out@ =~= pfx2);
    }
    if op.filters.len() > 0 {
        out.append(" WHERE ");
        push_filters(&mut out, &mut params, &mut next, &op.filters);
    }
    out.append(" RETURNING *");
    proof {
        assert(out@ =~= update_text(*addr, row@, *op));
        assert(vals(params@) =~= row_vals(row@) + filters_params(op.filters@));
    }
    Ok(CompiledStatement { sql: out, params })
}

/// Compiles a DELETE: the WHERE clause binds the filter operands. The
/// same `MissingFilter` rule as for UPDATE applies.
pub fn compile_delete(addr: &ResourceAddress, op: &OperationSpec, allow_unfiltered: bool) -> (r:
    Result<CompiledStatement, GatewayError>)
    requires
        addr.wf(),
        op.wf(),
        filters_param_count(op.filters@) + 1 <= usize::MAX,
    ensures
        r is Ok <==> op.filters@.len() > 0 || allow_unfiltered,
        r matches Err(e) ==> e is MissingFilter,
        r matches Ok(c) ==> c.sql@ == delete_text(*addr, *op) && vals(c.params@) == filters_params(
            op.filters@,
        ),
{
    if op.filters.len() == 0 && !allow_unfiltered {
        return Err(GatewayError::MissingFilter);
    }
    let mut out = String::new();
    let mut params: Vec<SqlValue> = Vec::new();
    out.append("DELETE FROM ");
    push_quoted(&mut out, &addr.schema);
    out.append(".");
    push_quoted(&mut out, &addr.name);
    let ghost pfx = "DELETE FROM "@ + qualified_name(*addr);
    proof {
        assert(out@ =~= pfx);
    }
    if op.filters.len() > 0 {
        out.append(" WHERE ");
        let mut next: usize = 1;
        push_filters(&mut out, &mut params, &mut next, &op.filters);
    }
    out.append(" RETURNING *");
    proof {
        assert(out@ =~= delete_text(*addr, *op));
        assert(vals(params@) =~= filters_params(op.filters@));
    }
    Ok(CompiledStatement { sql: out, params })
}

/// Compiles a function call with named-argument binding: each payload key
/// becomes `"key" := $n` and each value a parameter. Fails with
/// `SchemaMismatch` exactly when a key fails the identifier grammar; an
/// empty argument list is allowed.
pub fn compile_call(addr: &ResourceAddress, row: &Vec<PayloadEntry>) -> (r: Result<
    CompiledStatement,
    GatewayError,
>)
    requires
        addr.wf(),
        row@.len() + 1 <= usize::MAX,
    ensures
        r is Ok <==> row_keys_valid(row@),
        r matches Ok(c) ==> c.sql@ == call_text(*addr, row@) && vals(c.params@) == row_vals(row@),
        r matches Err(e) ==> e is SchemaMismatch,
{
    if !row_keys_all_valid(row) {
        return Err(GatewayError::SchemaMismatch);
    }
    let mut out = String::new();
    let mut params: Vec<SqlValue> = Vec::new();
    out.append("SELECT * FROM ");
    push_quoted(&mut out, &addr.schema);
    out.append(".");
    push_quoted(&mut out, &addr.name);
    out.append("(");
    let ghost pfx = "SELECT * FROM "@ + qualified_name(*addr) + "("@;
    proof {
        assert(out@ =~= pfx);
    }
    let mut next: usize = 1;
    push_assign_list(&mut out, &mut params, &mut next, row, " := ");
    out.append(")");
    proof {
        assert(out@ =~= call_text(*addr, row@));
    }
    Ok(CompiledStatement { sql: out, params })
}

/// Law: a given limit `L` renders the clause ` LIMIT L` between the
/// statement body and the offset clause — so the compiled text contains
/// ` LIMIT L` — and an absent limit renders the body and offset with no
/// limit clause between them.
pub proof fn lemma_limit_clause(addr: ResourceAddress, op: OperationSpec)
    ensures
        op.limit matches Some(l) ==> select_text(addr, op) == select_body_text(addr, op) + (
        " LIMIT "@ + dec_rep(l as nat)) + offset_text(op.offset),
        op.limit matches Some(l) ==> contains_seq(
            select_text(addr, op),
            " LIMIT "@ + dec_rep(l as nat),
        ),
        op.limit is None ==> select_text(addr, op) == select_body_text(addr, op) + offset_text(
            op.offset,
        ),
{
    let t = select_text(addr, op);
    let body = select_body_text(addr, op);
    let off = offset_text(op.offset);
    match op.limit {
        Some(l) => {
            let lim = " LIMIT "@ + dec_rep(l as nat);
            assert(t =~= body + lim + off);
            let b = body.len() as int;
            assert(t.subrange(b, b + lim.len()) == lim) by {
                assert(t.subrange(b, b + lim.len()) =~= lim);
            }
            assert(contains_seq(t, lim));
        },
        None => {
            assert(t =~= body + off);
        },
    }
}

/// Law: a non-empty `distinct_on` list always renders `DISTINCT` in the
/// compiled SELECT — the `distinct` flag, on which this lemma places no
/// hypothesis, cannot suppress it.
pub proof fn lemma_distinct_on_forces_distinct(addr: ResourceAddress, op: OperationSpec)
    requires
        op.distinct_on@.len() > 0,
    ensures
        contains_seq(select_text(addr, op), "DISTINCT"@),
{
    reveal_strlit("SELECT ");
    reveal_strlit("DISTINCT");
    reveal_strlit("DISTINCT ON (");
    let t = select_text(addr, op);
    assert("DISTINCT"@.len() == 8);
    assert(t.subrange(7, 7 + "DISTINCT"@.len() as int) == "DISTINCT"@) by {
        assert(t.subrange(7, 15) =~= "DISTINCT"@);
    }
    assert(contains_seq(t, "DISTINCT"@));
}


/// Two operands of the same shape: same kind, and for lists the same
/// number of items — the values themselves may differ arbitrarily.
pub open spec fn same_shape_operand(a: Operand, b: Operand) -> bool {
    match (a, b) {
        (Operand::Unit, Operand::Unit) => true,
        (Operand::One(_), Operand::One(_)) => true,
        (Operand::Many(x), Operand::Many(y)) => x@.len() == y@.len(),
        _ => false,
    }
}

/// Two filter runs that agree on columns, operators and operand counts,
/// while their bound values may differ arbitrarily.
pub open spec fn same_shape_filters(a: Seq<FilterClause>, b: Seq<FilterClause>) -> bool {
    &&& a.len() == b.len()
    &&& forall|i: int|
        0 <= i < a.len() ==> (#[trigger] a[i]).column@ == b[i].column@ && a[i].op == b[i].op
            && same_shape_operand(a[i].operand, b[i].operand)
}

/// Law: the WHERE text is a function of columns, operators and operand
/// counts alone. Whatever values a client supplies, they can only change
/// the parameter list, never the SQL text — the statement's injection
/// safety in one sentence.
pub proof fn lemma_values_never_reach_text(a: Seq<FilterClause>, b: Seq<FilterClause>, start: nat)
    requires
        same_shape_filters(a, b),
    ensures
        filters_param_count(a) == filters_param_count(b),
        filters_text(a, start) == filters_text(b, start),
        where_text(a, start) == where_text(b, start),
    decreases a.len(),
{
    if a.len() > 0 {
        assert(same_shape_filters(a.drop_last(), b.drop_last())) by {
            assert(forall|i: int|
                0 <= i < a.drop_last().len() ==> a.drop_last()[i] == a[i] && b.drop_last()[i]
                    == b[i]);
        }
        lemma_values_never_reach_text(a.drop_last(), b.drop_last(), start);
        assert(a.last() == a[a.len() - 1] && b.last() == b[b.len() - 1]);
        assert(operand_count(a.last().operand) == operand_count(b.last().operand));
        let s2 = start + filters_param_count(a.drop_last());
        assert(clause_text(a.last(), s2) == clause_text(b.last(), s2)) by {
            assert(quote_ident(a.last().column@) == quote_ident(b.last().column@));
        }
        if a.len() == 1 {
            assert(filters_text(a, start) == clause_text(a.last(), start));
            assert(clause_text(a.last(), start) == clause_text(b.last(), start));
        }
    }
}

} // verus!
