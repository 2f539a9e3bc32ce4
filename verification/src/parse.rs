//! The operator parser: the query-string mini-language
//! (`limit`, `offset`, `columns`, `distinct`, `distinct_on`, `sort`, and
//! `column=op.value` filters) parsed into an `OperationSpec`.
//!
//! The grammar is stated by pure specification functions over character
//! sequences (`split_on`, `spec_parse`); the executable parser returns
//! exactly what they describe. Parsing is pure: it never touches the
//! backend, and every malformed input is rejected before any statement
//! could be compiled.
use vstd::prelude::*;

use crate::GatewayError;
use crate::digits::all_digits;
use crate::digits::digits_val;
use crate::digits::parse_u64;
use crate::ident::Identifier;
use crate::ident::valid_identifier;
use crate::compile::id_views;
use crate::operation::FilterClause;
use crate::operation::FilterOp;
use crate::operation::NullsOrder;
use crate::operation::Operand;
use crate::operation::OperationSpec;
use crate::operation::SortClause;
use crate::value::SqlValue;
use crate::value::SqlValueModel;
use crate::value::vals;

verus! {

/// The pieces of `s` between occurrences of `sep`: always one more piece
/// than there are separators, so the empty string has one empty piece.
pub open spec fn split_on(s: Seq<char>, sep: char) -> Seq<Seq<char>>
    decreases s.len(),
{
    if s.len() == 0 {
        seq![Seq::<char>::empty()]
    } else if s[0] == sep {
        seq![Seq::<char>::empty()] + split_on(s.skip(1), sep)
    } else {
        let r = split_on(s.skip(1), sep);
        seq![seq![s[0]] + r[0]] + r.skip(1)
    }
}

/// Splitting never yields zero pieces.
pub proof fn lemma_split_nonempty(s: Seq<char>, sep: char)
    ensures
        split_on(s, sep).len() >= 1,
    decreases s.len(),
{
    if s.len() > 0 {
        lemma_split_nonempty(s.skip(1), sep);
    }
}

/// Appending one character extends the last piece, or begins a new empty
/// piece when the character is the separator.
pub proof fn lemma_split_push(s: Seq<char>, c: char, sep: char)
    ensures
        c == sep ==> split_on(s.push(c), sep) =~~= split_on(s, sep).push(Seq::<char>::empty()),
        c != sep ==> split_on(s.push(c), sep) =~~= split_on(s, sep).drop_last().push(
            split_on(s, sep).last().push(c),
        ),
    decreases s.len(),
{
    lemma_split_nonempty(s, sep);
    let t = s.push(c);
    if s.len() == 0 {
        assert(t[0] == c);
        assert(t.skip(1) =~= Seq::<char>::empty());
        assert(split_on(Seq::<char>::empty(), sep) =~= seq![Seq::<char>::empty()]);
        assert(split_on(t, sep) =~= if c == sep {
            seq![Seq::<char>::empty()] + split_on(t.skip(1), sep)
        } else {
            seq![seq![c] + split_on(t.skip(1), sep)[0]] + split_on(t.skip(1), sep).skip(1)
        });
        if c == sep {
            assert(split_on(t, sep) =~~= split_on(s, sep).push(Seq::<char>::empty()));
        } else {
            assert(split_on(t, sep)[0] =~= seq![c]);
            assert(split_on(t, sep) =~~= split_on(s, sep).drop_last().push(
                split_on(s, sep).last().push(c),
            ));
        }
    } else {
        lemma_split_push(s.skip(1), c, sep);
        lemma_split_nonempty(s.skip(1), sep);
        assert(t[0] == s[0]);
        assert(t.skip(1) =~= s.skip(1).push(c));
        let r = split_on(s.skip(1), sep);
        let r2 = split_on(s.skip(1).push(c), sep);
        if s[0] == sep {
            assert(split_on(t, sep) =~= seq![Seq::<char>::empty()] + r2);
            assert(split_on(s, sep) =~= seq![Seq::<char>::empty()] + r);
            if c == sep {
                assert(split_on(t, sep) =~~= split_on(s, sep).push(Seq::<char>::empty()));
            } else {
                assert(split_on(s, sep).last() == r.last());
                assert(split_on(t, sep) =~~= split_on(s, sep).drop_last().push(
                    split_on(s, sep).last().push(c),
                ));
            }
        } else {
            assert(split_on(t, sep) =~= seq![seq![t[0]] + r2[0]] + r2.skip(1));
            assert(split_on(s, sep) =~= seq![seq![s[0]] + r[0]] + r.skip(1));
            if c == sep {
                assert(r2 =~~= r.push(Seq::<char>::empty()));
                assert(r2[0] == r[0]);
                assert(r2.skip(1) =~= r.skip(1).push(Seq::<char>::empty()));
                assert(split_on(t, sep) =~~= split_on(s, sep).push(Seq::<char>::empty()));
            } else {
                assert(r2 =~~= r.drop_last().push(r.last().push(c)));
                if r.len() == 1 {
                    assert(r2[0] == r[0].push(c));
                    assert(split_on(s, sep).len() == 1);
                    assert(split_on(s, sep).last() =~= seq![s[0]] + r[0]);
                    assert(seq![t[0]] + r[0].push(c) =~= (seq![s[0]] + r[0]).push(c));
                    assert(r2.skip(1) =~= Seq::<Seq<char>>::empty());
                    assert(split_on(t, sep) =~~= split_on(s, sep).drop_last().push(
                        split_on(s, sep).last().push(c),
                    ));
                } else {
                    assert(r2[0] == r[0]);
                    assert(r2.skip(1) =~= r.skip(1).drop_last().push(r.last().push(c)));
                    assert(split_on(s, sep).last() == r.last());
                    assert(split_on(s, sep).drop_last() =~= seq![seq![s[0]] + r[0]] + r.skip(
                        1,
                    ).drop_last());
                    assert(split_on(t, sep) =~~= split_on(s, sep).drop_last().push(
                        split_on(s, sep).last().push(c),
                    ));
                }
            }
        }
    }
}

/// The first piece is the prefix of `s` up to the first separator; there
/// is a second piece exactly when the separator occurs at all.
pub proof fn lemma_split_first(s: Seq<char>, sep: char)
    ensures
        split_on(s, sep)[0].len() <= s.len(),
        split_on(s, sep)[0] =~= s.take(split_on(s, sep)[0].len() as int),
        forall|j: int| 0 <= j < split_on(s, sep)[0].len() ==> s[j] != sep,
        split_on(s, sep).len() >= 2 <==> split_on(s, sep)[0].len() < s.len(),
        split_on(s, sep)[0].len() < s.len() ==> s[split_on(s, sep)[0].len() as int] == sep,
    decreases s.len(),
{
    lemma_split_nonempty(s, sep);
    if s.len() == 0 {
    } else if s[0] == sep {
    } else {
        lemma_split_first(s.skip(1), sep);
        lemma_split_nonempty(s.skip(1), sep);
        let k = split_on(s.skip(1), sep)[0];
        assert(split_on(s, sep)[0] =~= seq![s[0]] + k);
        assert((seq![s[0]] + k).len() == k.len() + 1);
        assert(split_on(s, sep)[0] =~= s.take(k.len() as int + 1));
        assert(split_on(s, sep).len() == split_on(s.skip(1), sep).len());
        assert forall|j: int| 0 <= j < split_on(s, sep)[0].len() implies s[j] != sep by {
            if j > 0 {
                assert(s[j] == s.skip(1)[j - 1]);
            }
        }
    }
}

/// The text of each piece in a split result.
pub open spec fn str_views(ss: Seq<String>) -> Seq<Seq<char>> {
    ss.map_values(|p: String| p@)
}

/// Splits `s` at every occurrence of `sep`.
pub fn split_str(s: &str, sep: char) -> (r: Vec<String>)
    ensures
        str_views(r@) == split_on(s@, sep),
{
    let n = s.unicode_len();
    let mut done: Vec<String> = Vec::new();
    let mut cur = String::new();
    let mut i: usize = 0;
    while i < n
        invariant
            0 <= i <= n,
            n == s@.len(),
            str_views(done@).push(cur@) =~= split_on(s@.take(i as int), sep),
        decreases n - i,
    {
        let c = s.get_char(i);
        proof {
            assert(s@.take(i + 1) =~= s@.take(i as int).push(s@[i as int]));
            lemma_split_push(s@.take(i as int), s@[i as int], sep);
            lemma_split_nonempty(s@.take(i as int), sep);
        }
        if c == sep {
            let ghost done0 = done@;
            done.push(cur);
            cur = String::new();
            proof {
                assert(str_views(done@) =~= str_views(done0).push(done@.last()@));
                assert(str_views(done@).push(cur@) =~= split_on(s@.take(i + 1), sep));
            }
        } else {
            let piece = s.substring_char(i, i + 1);
            let ghost cur0 = cur@;
            cur.append(piece);
            proof {
                let sp = split_on(s@.take(i as int), sep);
                assert(sp.last() == cur0);
                assert(str_views(done@) =~= sp.drop_last());
                assert(cur@ =~= cur0.push(s@[i as int]));
                assert(str_views(done@).push(cur@) =~= split_on(s@.take(i + 1), sep));
            }
        }
        i = i + 1;
    }
    let ghost done0 = done@;
    done.push(cur);
    proof {
        assert(s@.take(n as int) =~= s@);
        assert(str_views(done@) =~= str_views(done0).push(done@.last()@));
        assert(str_views(done@) =~= split_on(s@, sep));
    }
    done
}

/// The index of the first occurrence of `sep` in `s`, if any.
pub fn find_char(s: &str, sep: char) -> (r: Option<usize>)
    ensures
        r matches Some(i) ==> 0 <= i < s@.len() && s@[i as int] == sep && forall|j: int|
            0 <= j < i ==> s@[j] != sep,
        r is None ==> forall|j: int| 0 <= j < s@.len() ==> s@[j] != sep,
{
    let n = s.unicode_len();
    let mut i: usize = 0;
    while i < n
        invariant
            0 <= i <= n,
            n == s@.len(),
            forall|j: int| 0 <= j < i ==> s@[j] != sep,
        decreases n - i,
    {
        if s.get_char(i) == sep {
            return Some(i);
        }
        i = i + 1;
    }
    None
}


/// The head of `s` up to the first `sep`.
pub open spec fn head_of(s: Seq<char>, sep: char) -> Seq<char> {
    split_on(s, sep)[0]
}

/// Whether `sep` occurs in `s` at all.
pub open spec fn has_sep(s: Seq<char>, sep: char) -> bool {
    split_on(s, sep).len() >= 2
}

/// Everything after the first `sep`.
pub open spec fn tail_of(s: Seq<char>, sep: char) -> Seq<char> {
    s.skip(head_of(s, sep).len() as int + 1)
}

/// The mathematical content of a parsed sort key.
#[verifier::ext_equal]
pub struct SortModel {
    pub column: Seq<char>,
    pub descending: bool,
    pub nulls: NullsOrder,
}

/// The mathematical content of a parsed filter operand.
#[verifier::ext_equal]
pub enum OperandModel {
    Unit,
    One(SqlValueModel),
    Many(Seq<SqlValueModel>),
}

/// The mathematical content of a parsed filter clause.
#[verifier::ext_equal]
pub struct FilterModel {
    pub column: Seq<char>,
    pub op: FilterOp,
    pub operand: OperandModel,
}

/// The mathematical content of an operation specification.
#[verifier::ext_equal]
pub struct OpModel {
    pub limit: Option<nat>,
    pub offset: Option<nat>,
    pub columns: Option<Seq<Seq<char>>>,
    pub distinct: bool,
    pub distinct_on: Seq<Seq<char>>,
    pub filters: Seq<FilterModel>,
    pub sort: Seq<SortModel>,
}

/// The model of a sort clause value.
pub open spec fn sort_model(s: SortClause) -> SortModel {
    SortModel { column: s.column@, descending: s.descending, nulls: s.nulls }
}

/// The model of an operand value.
pub open spec fn operand_model(o: Operand) -> OperandModel {
    match o {
        Operand::Unit => OperandModel::Unit,
        Operand::One(v) => OperandModel::One(v@),
        Operand::Many(vs) => OperandModel::Many(vals(vs@)),
    }
}

/// The model of a filter clause value.
pub open spec fn filter_model(f: FilterClause) -> FilterModel {
    FilterModel { column: f.column@, op: f.op, operand: operand_model(f.operand) }
}

/// The model of an operation specification value.
pub open spec fn op_model(op: OperationSpec) -> OpModel {
    OpModel {
        limit: match op.limit {
            Some(l) => Some(l as nat),
            None => None,
        },
        offset: match op.offset {
            Some(o) => Some(o as nat),
            None => None,
        },
        columns: match op.columns {
            Some(cs) => Some(id_views(cs@)),
            None => None,
        },
        distinct: op.distinct,
        distinct_on: id_views(op.distinct_on@),
        filters: op.filters@.map_values(|f: FilterClause| filter_model(f)),
        sort: op.sort@.map_values(|s: SortClause| sort_model(s)),
    }
}

/// The specification of an operation with no keys set.
pub open spec fn empty_model() -> OpModel {
    OpModel {
        limit: None,
        offset: None,
        columns: None,
        distinct: false,
        distinct_on: Seq::empty(),
        filters: Seq::empty(),
        sort: Seq::empty(),
    }
}

/// Why a query string is rejected.
pub enum ParseFail {
    NoKeyValue,
    BadNumber,
    BadFlag,
    UnknownOperator,
    Unterminated,
    EmptyOperand,
    BadIdentifier,
}

/// The error variant each rejection surfaces as: identifier violations as
/// `InvalidIdentifier`, everything else as `MalformedQuery`.
pub open spec fn fail_error_matches(e: GatewayError, f: ParseFail) -> bool {
    match f {
        ParseFail::BadIdentifier => e is InvalidIdentifier,
        _ => e is MalformedQuery,
    }
}

/// A filter operand value: a run of digits that fits a 64-bit signed
/// integer binds as an integer, anything else binds as text.
pub open spec fn val_model(v: Seq<char>) -> SqlValueModel {
    if v.len() > 0 && all_digits(v) && digits_val(v) <= i64::MAX {
        SqlValueModel::Int(digits_val(v) as int)
    } else {
        SqlValueModel::Text(v)
    }
}

/// The closed operator-token table.
pub open spec fn op_of(tok: Seq<char>) -> Option<FilterOp> {
    if tok == "eq"@ {
        Some(FilterOp::Eq)
    } else if tok == "neq"@ {
        Some(FilterOp::Neq)
    } else if tok == "gt"@ {
        Some(FilterOp::Gt)
    } else if tok == "gte"@ {
        Some(FilterOp::Gte)
    } else if tok == "lt"@ {
        Some(FilterOp::Lt)
    } else if tok == "lte"@ {
        Some(FilterOp::Lte)
    } else if tok == "like"@ {
        Some(FilterOp::Like)
    } else if tok == "ilike"@ {
        Some(FilterOp::Ilike)
    } else if tok == "is_null"@ {
        Some(FilterOp::IsNull)
    } else if tok == "in"@ {
        Some(FilterOp::In)
    } else {
        None
    }
}

/// A comma-separated identifier list, accepted only when every piece
/// passes the grammar.
pub open spec fn idents_of(v: Seq<char>) -> Option<Seq<Seq<char>>> {
    let ps = split_on(v, ',');
    if forall|i: int| 0 <= i < ps.len() ==> valid_identifier(#[trigger] ps[i]) {
        Some(ps)
    } else {
        None
    }
}

/// One sort item: a leading `-` means descending; the rest must pass the
/// identifier grammar. Null placement has no query-string syntax.
pub open spec fn sort_item_model(p: Seq<char>) -> Option<SortModel> {
    if p.len() > 0 && p[0] == '-' {
        if valid_identifier(p.skip(1)) {
            Some(SortModel { column: p.skip(1), descending: true, nulls: NullsOrder::Unspecified })
        } else {
            None
        }
    } else if valid_identifier(p) {
        Some(SortModel { column: p, descending: false, nulls: NullsOrder::Unspecified })
    } else {
        None
    }
}

/// A comma-separated sort list, accepted only when every item parses.
pub open spec fn sorts_of(v: Seq<char>) -> Option<Seq<SortModel>> {
    let ps = split_on(v, ',');
    if forall|i: int| 0 <= i < ps.len() ==> (#[trigger] sort_item_model(ps[i])) is Some {
        Some(ps.map_values(|p: Seq<char>| sort_item_model(p).unwrap()))
    } else {
        None
    }
}

/// The items of a parenthesized `in` list; an empty item is rejected.
pub open spec fn in_items_model(inner: Seq<char>) -> Option<Seq<SqlValueModel>> {
    let ps = split_on(inner, ',');
    if forall|i: int| 0 <= i < ps.len() ==> (#[trigger] ps[i]).len() > 0 {
        Some(ps.map_values(|p: Seq<char>| val_model(p)))
    } else {
        None
    }
}

/// One filter entry `column=op.operand`.
pub open spec fn filter_entry_model(k: Seq<char>, v: Seq<char>) -> Result<FilterModel, ParseFail> {
    if !valid_identifier(k) {
        Err(ParseFail::BadIdentifier)
    } else if v == "is_null"@ {
        Ok(FilterModel { column: k, op: FilterOp::IsNull, operand: OperandModel::Unit })
    } else if !has_sep(v, '.') {
        Err(ParseFail::UnknownOperator)
    } else {
        let tok = head_of(v, '.');
        let rest = tail_of(v, '.');
        match op_of(tok) {
            None => Err(ParseFail::UnknownOperator),
            Some(FilterOp::In) => {
                if rest.len() >= 2 && rest[0] == '(' && rest.last() == ')' {
                    match in_items_model(rest.subrange(1, rest.len() - 1)) {
                        Some(items) => Ok(
                            FilterModel {
                                column: k,
                                op: FilterOp::In,
                                operand: OperandModel::Many(items),
                            },
                        ),
                        None => Err(ParseFail::EmptyOperand),
                    }
                } else {
                    Err(ParseFail::Unterminated)
                }
            },
            Some(FilterOp::IsNull) => Ok(
                FilterModel { column: k, op: FilterOp::IsNull, operand: OperandModel::Unit },
            ),
            Some(fop) => {
                if rest.len() == 0 {
                    Err(ParseFail::EmptyOperand)
                } else {
                    Ok(
                        FilterModel {
                            column: k,
                            op: fop,
                            operand: OperandModel::One(val_model(rest)),
                        },
                    )
                }
            },
        }
    }
}

/// The effect of one `key=value` entry on the specification built so far.
pub open spec fn apply_entry(m: OpModel, k: Seq<char>, v: Seq<char>) -> Result<OpModel, ParseFail> {
    if k == "limit"@ {
        if v.len() > 0 && all_digits(v) && digits_val(v) <= u64::MAX {
            Ok(OpModel { limit: Some(digits_val(v)), ..m })
        } else {
            Err(ParseFail::BadNumber)
        }
    } else if k == "offset"@ {
        if v.len() > 0 && all_digits(v) && digits_val(v) <= u64::MAX {
            Ok(OpModel { offset: Some(digits_val(v)), ..m })
        } else {
            Err(ParseFail::BadNumber)
        }
    } else if k == "columns"@ {
        match idents_of(v) {
            Some(cs) => Ok(OpModel { columns: Some(cs), ..m }),
            None => Err(ParseFail::BadIdentifier),
        }
    } else if k == "distinct"@ {
        if v == "true"@ {
            Ok(OpModel { distinct: true, ..m })
        } else if v == "false"@ {
            Ok(OpModel { distinct: false, ..m })
        } else {
            Err(ParseFail::BadFlag)
        }
    } else if k == "distinct_on"@ {
        match idents_of(v) {
            Some(cs) => Ok(OpModel { distinct_on: cs, ..m }),
            None => Err(ParseFail::BadIdentifier),
        }
    } else if k == "sort"@ {
        match sorts_of(v) {
            Some(ss) => Ok(OpModel { sort: ss, ..m }),
            None => Err(ParseFail::BadIdentifier),
        }
    } else {
        match filter_entry_model(k, v) {
            Ok(f) => Ok(OpModel { filters: m.filters.push(f), ..m }),
            Err(e) => Err(e),
        }
    }
}

/// Folds the entries of a query string, left to right; the first
/// rejection wins.
pub open spec fn apply_entries(m: OpModel, ps: Seq<Seq<char>>) -> Result<OpModel, ParseFail>
    decreases ps.len(),
{
    if ps.len() == 0 {
        Ok(m)
    } else if !has_sep(ps[0], '=') {
        Err(ParseFail::NoKeyValue)
    } else {
        match apply_entry(m, head_of(ps[0], '='), tail_of(ps[0], '=')) {
            Ok(m2) => apply_entries(m2, ps.skip(1)),
            Err(f) => Err(f),
        }
    }
}

/// The grammar of a whole query string: `&`-separated `key=value`
/// entries over the empty specification; the empty string is the empty
/// specification.
pub open spec fn spec_parse(q: Seq<char>) -> Result<OpModel, ParseFail> {
    if q.len() == 0 {
        Ok(empty_model())
    } else {
        apply_entries(empty_model(), split_on(q, '&'))
    }
}


/// Whether `s` reads exactly as `lit`.
fn str_eq_lit(s: &str, lit: &str) -> (b: bool)
    ensures
        b == (s@ == lit@),
{
    s.to_owned().eq(&lit.to_owned())
}

/// Splits `p` at its first `sep` into head and tail; `None` exactly when
/// `sep` does not occur.
fn split_first(p: &str, sep: char) -> (r: Option<(String, String)>)
    ensures
        r is Some <==> has_sep(p@, sep),
        r matches Some(kv) ==> kv.0@ == head_of(p@, sep) && kv.1@ == tail_of(p@, sep),
{
    proof {
        lemma_split_first(p@, sep);
    }
    match find_char(p, sep) {
        Some(i) => {
            let n = p.unicode_len();
            let k = p.substring_char(0, i).to_owned();
            let v = p.substring_char(i + 1, n).to_owned();
            proof {
                let hl = head_of(p@, sep).len() as int;
                assert(hl <= i) by {
                    if hl > i {
                        assert(p@[i as int] != sep);
                    }
                }
                assert(hl >= i) by {
                    if hl < i {
                        assert(has_sep(p@, sep) <==> hl < p@.len());
                        assert(p@[hl] == sep);
                    }
                }
                assert(k@ =~= head_of(p@, sep));
                assert(v@ =~= tail_of(p@, sep));
                assert(has_sep(p@, sep));
            }
            Some((k, v))
        },
        None => {
            proof {
                if has_sep(p@, sep) {
                    assert(p@[head_of(p@, sep).len() as int] == sep);
                }
            }
            None
        },
    }
}

/// The operator for a token of the filter mini-language.
fn match_op(tok: &str) -> (r: Option<FilterOp>)
    ensures
        r == op_of(tok@),
{
    if str_eq_lit(tok, "eq") {
        Some(FilterOp::Eq)
    } else if str_eq_lit(tok, "neq") {
        Some(FilterOp::Neq)
    } else if str_eq_lit(tok, "gt") {
        Some(FilterOp::Gt)
    } else if str_eq_lit(tok, "gte") {
        Some(FilterOp::Gte)
    } else if str_eq_lit(tok, "lt") {
        Some(FilterOp::Lt)
    } else if str_eq_lit(tok, "lte") {
        Some(FilterOp::Lte)
    } else if str_eq_lit(tok, "like") {
        Some(FilterOp::Like)
    } else if str_eq_lit(tok, "ilike") {
        Some(FilterOp::Ilike)
    } else if str_eq_lit(tok, "is_null") {
        Some(FilterOp::IsNull)
    } else if str_eq_lit(tok, "in") {
        Some(FilterOp::In)
    } else {
        None
    }
}

/// Parses one operand value.
fn parse_value(v: &str) -> (r: SqlValue)
    ensures
        r@ == val_model(v@),
{
    match parse_u64(v) {
        Some(u) => {
            if u <= 0x7fff_ffff_ffff_ffff {
                SqlValue::Int(u as i64)
            } else {
                SqlValue::Text(v.to_owned())
            }
        },
        None => SqlValue::Text(v.to_owned()),
    }
}

/// Parses a comma-separated identifier list; fails exactly when a piece
/// violates the grammar.
pub fn parse_ident_items(v: &str) -> (r: Result<Vec<Identifier>, GatewayError>)
    ensures
        r is Ok <==> idents_of(v@) is Some,
        r matches Ok(cs) ==> Some(id_views(cs@)) == idents_of(v@),
        r matches Ok(cs) ==> forall|j: int| 0 <= j < cs@.len() ==> (#[trigger] cs@[j]).wf(),
        r matches Err(e) ==> e is InvalidIdentifier,
{
    let pieces = split_str(v, ',');
    let ghost ps = split_on(v@, ',');
    let mut out: Vec<Identifier> = Vec::new();
    let n = pieces.len();
    let mut i: usize = 0;
    while i < n
        invariant
            0 <= i <= n,
            n == pieces@.len(),
            str_views(pieces@) == ps,
            ps == split_on(v@, ','),
            id_views(out@) =~= ps.take(i as int),
            forall|j: int| 0 <= j < i ==> valid_identifier(#[trigger] ps[j]),
            forall|j: int| 0 <= j < out@.len() ==> (#[trigger] out@[j]).wf(),
        decreases n - i,
    {
        match Identifier::new(pieces[i].as_str()) {
            Ok(id) => {
                let ghost out0 = out@;
                out.push(id);
                proof {
                    out0.lemma_push_map_commute(|x: Identifier| x@, id);
                    assert(ps.take(i + 1) =~= ps.take(i as int).push(ps[i as int]));
                    assert(id_views(out@) =~= ps.take(i + 1));
                }
            },
            Err(_) => {
                proof {
                    assert(!valid_identifier(ps[i as int]));
                }
                return Err(GatewayError::InvalidIdentifier);
            },
        }
        i = i + 1;
    }
    proof {
        assert(ps.take(n as int) =~= ps);
    }
    Ok(out)
}

/// Parses a comma-separated sort list; fails exactly when an item's
/// column violates the grammar.
pub fn parse_sorts(v: &str) -> (r: Result<Vec<SortClause>, GatewayError>)
    ensures
        r is Ok <==> sorts_of(v@) is Some,
        r matches Ok(ss) ==> Some(ss@.map_values(|s: SortClause| sort_model(s))) == sorts_of(v@),
        r matches Ok(ss) ==> forall|j: int| 0 <= j < ss@.len() ==> (#[trigger] ss@[j]).wf(),
        r matches Err(e) ==> e is InvalidIdentifier,
{
    let pieces = split_str(v, ',');
    let ghost ps = split_on(v@, ',');
    let mut out: Vec<SortClause> = Vec::new();
    let n = pieces.len();
    let mut i: usize = 0;
    while i < n
        invariant
            0 <= i <= n,
            n == pieces@.len(),
            str_views(pieces@) == ps,
            ps == split_on(v@, ','),
            out@.len() == i,
            forall|j: int| 0 <= j < i ==> (#[trigger] sort_item_model(ps[j])) is Some,
            forall|j: int|
                0 <= j < i ==> sort_model(#[trigger] out@[j]) == sort_item_model(ps[j]).unwrap(),
            forall|j: int| 0 <= j < i ==> (#[trigger] out@[j]).wf(),
        decreases n - i,
    {
        let p = &pieces[i];
        proof {
            assert(pieces@[i as int]@ == ps[i as int]);
        }
        let plen = p.as_str().unicode_len();
        let clause: SortClause;
        if plen > 0 && p.as_str().get_char(0) == '-' {
            let rest = p.as_str().substring_char(1, plen);
            proof {
                assert(rest@ =~= ps[i as int].skip(1));
            }
            match Identifier::new(rest) {
                Ok(id) => {
                    clause = SortClause {
                        column: id,
                        descending: true,
                        nulls: NullsOrder::Unspecified,
                    };
                },
                Err(_) => {
                    proof {
                        assert(sort_item_model(ps[i as int]) is None);
                        if sorts_of(v@) is Some {
                            assert(sort_item_model(ps[i as int]) is Some);
                        }
                    }
                    return Err(GatewayError::InvalidIdentifier);
                },
            }
        } else {
            match Identifier::new(p.as_str()) {
                Ok(id) => {
                    clause = SortClause {
                        column: id,
                        descending: false,
                        nulls: NullsOrder::Unspecified,
                    };
                },
                Err(_) => {
                    proof {
                        assert(sort_item_model(ps[i as int]) is None);
                        if sorts_of(v@) is Some {
                            assert(sort_item_model(ps[i as int]) is Some);
                        }
                    }
                    return Err(GatewayError::InvalidIdentifier);
                },
            }
        }
        out.push(clause);
        i = i + 1;
    }
    proof {
        assert forall|j: int| 0 <= j < n implies sort_model(out@[j]) == sort_item_model(
            ps[j],
        ).unwrap() by {}
        assert(out@.map_values(|s: SortClause| sort_model(s)) =~~= ps.map_values(
            |p: Seq<char>| sort_item_model(p).unwrap(),
        ));
    }
    Ok(out)
}

/// Parses the inside of an `in(...)` list; fails exactly when an item is
/// empty.
fn parse_in_items(inner: &str) -> (r: Result<Vec<SqlValue>, GatewayError>)
    ensures
        r is Ok <==> in_items_model(inner@) is Some,
        r matches Ok(vs) ==> Some(vals(vs@)) == in_items_model(inner@),
        r matches Err(e) ==> e is MalformedQuery,
{
    let pieces = split_str(inner, ',');
    let ghost ps = split_on(inner@, ',');
    let mut out: Vec<SqlValue> = Vec::new();
    let n = pieces.len();
    let mut i: usize = 0;
    while i < n
        invariant
            0 <= i <= n,
            n == pieces@.len(),
            str_views(pieces@) == ps,
            ps == split_on(inner@, ','),
            vals(out@) =~= ps.take(i as int).map_values(|p: Seq<char>| val_model(p)),
            forall|j: int| 0 <= j < i ==> (#[trigger] ps[j]).len() > 0,
        decreases n - i,
    {
        proof {
            assert(pieces@[i as int]@ == ps[i as int]);
        }
        if pieces[i].as_str().unicode_len() == 0 {
            proof {
                if in_items_model(inner@) is Some {
                    assert(ps[i as int].len() > 0);
                }
            }
            return Err(GatewayError::MalformedQuery("empty filter operand".to_owned()));
        }
        let d = parse_value(pieces[i].as_str());
        let ghost out0 = out@;
        out.push(d);
        proof {
            out0.lemma_push_map_commute(|x: SqlValue| x@, d);
            ps.lemma_map_take_succ(|p: Seq<char>| val_model(p), i as int);
            assert(vals(out@) =~= ps.take(i + 1).map_values(|p: Seq<char>| val_model(p)));
        }
        i = i + 1;
    }
    proof {
        assert(ps.take(n as int) =~= ps);
    }
    Ok(out)
}


/// Parses a whole query string into an `OperationSpec`: exactly the
/// specification `spec_parse` describes, or the error it prescribes —
/// parse failures as `MalformedQuery`, identifier violations as
/// `InvalidIdentifier`. Parsing never touches the backend.
#[verifier::rlimit(80)]
pub fn parse(q: &str) -> (r: Result<OperationSpec, GatewayError>)
    ensures
        r is Ok <==> spec_parse(q@) is Ok,
        r matches Ok(op) ==> op.wf() && op_model(op) == spec_parse(q@)->Ok_0,
        r matches Err(e) ==> spec_parse(q@) matches Err(f) && fail_error_matches(e, f),
{
    let mut m = OperationSpec::empty();
    proof {
        assert(op_model(m) =~~= empty_model());
    }
    if q.unicode_len() == 0 {
        return Ok(m);
    }
    let pieces = split_str(q, '&');
    let ghost ps = split_on(q@, '&');
    proof {
        assert(ps.skip(0) =~= ps);
    }
    let n = pieces.len();
    let mut i: usize = 0;
    while i < n
        invariant
            0 <= i <= n,
            n == pieces@.len(),
            str_views(pieces@) == ps,
            ps == split_on(q@, '&'),
            q@.len() > 0,
            m.wf(),
            spec_parse(q@) == apply_entries(op_model(m), ps.skip(i as int)),
        decreases n - i,
    {
        let ghost m0 = op_model(m);
        proof {
            assert(pieces@[i as int]@ == ps[i as int]);
            assert(ps.skip(i as int)[0] == ps[i as int]);
            assert(ps.skip(i as int).skip(1) =~= ps.skip(i + 1));
        }
        let entry = split_first(pieces[i].as_str(), '=');
        match entry {
            None => {
                return Err(GatewayError::MalformedQuery("entry is not key=value".to_owned()));
            },
            Some((k, v)) => {
                let ghost kv = k@;
                let ghost vv = v@;
                if str_eq_lit(k.as_str(), "limit") {
                    match parse_u64(v.as_str()) {
                        Some(u) => {
                            m.limit = Some(u);
                            proof {
                                assert(op_model(m) =~~= apply_entry(m0, kv, vv)->Ok_0);
                            }
                        },
                        None => {
                            return Err(GatewayError::MalformedQuery("bad limit".to_owned()));
                        },
                    }
                } else if str_eq_lit(k.as_str(), "offset") {
                    match parse_u64(v.as_str()) {
                        Some(u) => {
                            m.offset = Some(u);
                            proof {
                                assert(op_model(m) =~~= apply_entry(m0, kv, vv)->Ok_0);
                            }
                        },
                        None => {
                            return Err(GatewayError::MalformedQuery("bad offset".to_owned()));
                        },
                    }
                } else if str_eq_lit(k.as_str(), "columns") {
                    match parse_ident_items(v.as_str()) {
                        Ok(cs) => {
                            m.columns = Some(cs);
                            proof {
                                assert(op_model(m) =~~= apply_entry(m0, kv, vv)->Ok_0);
                            }
                        },
                        Err(e) => {
                            return Err(e);
                        },
                    }
                } else if str_eq_lit(k.as_str(), "distinct") {
                    if str_eq_lit(v.as_str(), "true") {
                        m.distinct = true;
                        proof {
                            assert(op_model(m) =~~= apply_entry(m0, kv, vv)->Ok_0);
                        }
                    } else if str_eq_lit(v.as_str(), "false") {
                        m.distinct = false;
                        proof {
                            assert(op_model(m) =~~= apply_entry(m0, kv, vv)->Ok_0);
                        }
                    } else {
                        return Err(GatewayError::MalformedQuery("bad distinct flag".to_owned()));
                    }
                } else if str_eq_lit(k.as_str(), "distinct_on") {
                    match parse_ident_items(v.as_str()) {
                        Ok(cs) => {
                            m.distinct_on = cs;
                            proof {
                                assert(op_model(m) =~~= apply_entry(m0, kv, vv)->Ok_0);
                            }
                        },
                        Err(e) => {
                            return Err(e);
                        },
                    }
                } else if str_eq_lit(k.as_str(), "sort") {
                    match parse_sorts(v.as_str()) {
                        Ok(ss) => {
                            m.sort = ss;
                            proof {
                                assert(op_model(m) =~~= apply_entry(m0, kv, vv)->Ok_0);
                            }
                        },
                        Err(e) => {
                            return Err(e);
                        },
                    }
                } else {
                    let column = match Identifier::new(k.as_str()) {
                        Ok(id) => id,
                        Err(e) => {
                            return Err(e);
                        },
                    };
                    let clause: FilterClause;
                    if str_eq_lit(v.as_str(), "is_null") {
                        clause = FilterClause {
                            column,
                            op: FilterOp::IsNull,
                            operand: Operand::Unit,
                        };
                    } else {
                        match split_first(v.as_str(), '.') {
                            None => {
                                return Err(
                                    GatewayError::MalformedQuery("unknown operator".to_owned()),
                                );
                            },
                            Some((tok, rest)) => {
                                match match_op(tok.as_str()) {
                                    None => {
                                        return Err(
                                            GatewayError::MalformedQuery(
                                                "unknown operator".to_owned(),
                                            ),
                                        );
                                    },
                                    Some(FilterOp::In) => {
                                        let rl = rest.as_str().unicode_len();
                                        if rl < 2 || rest.as_str().get_char(0) != '('
                                            || rest.as_str().get_char(rl - 1) != ')' {
                                            return Err(
                                                GatewayError::MalformedQuery(
                                                    "unterminated in(...) list".to_owned(),
                                                ),
                                            );
                                        }
                                        let inner = rest.as_str().substring_char(1, rl - 1);
                                        proof {
                                            assert(inner@ =~= rest@.subrange(
                                                1,
                                                rest@.len() - 1,
                                            ));
                                        }
                                        match parse_in_items(inner) {
                                            Ok(items) => {
                                                clause = FilterClause {
                                                    column,
                                                    op: FilterOp::In,
                                                    operand: Operand::Many(items),
                                                };
                                            },
                                            Err(e) => {
                                                return Err(e);
                                            },
                                        }
                                    },
                                    Some(FilterOp::IsNull) => {
                                        clause = FilterClause {
                                            column,
                                            op: FilterOp::IsNull,
                                            operand: Operand::Unit,
                                        };
                                    },
                                    Some(fop) => {
                                        if rest.as_str().unicode_len() == 0 {
                                            return Err(
                                                GatewayError::MalformedQuery(
                                                    "empty filter operand".to_owned(),
                                                ),
                                            );
                                        }
                                        let d = parse_value(rest.as_str());
                                        clause = FilterClause {
                                            column,
                                            op: fop,
                                            operand: Operand::One(d),
                                        };
                                    },
                                }
                            },
                        }
                    }
                    proof {
                        assert(clause.wf());
                        assert(filter_entry_model(kv, vv) is Ok);
                        assert(filter_model(clause) =~~= filter_entry_model(kv, vv)->Ok_0);
                    }
                    let ghost mf0 = m.filters@;
                    m.filters.push(clause);
                    proof {
                        mf0.lemma_push_map_commute(
                            |f: FilterClause| filter_model(f),
                            clause,
                        );
                        assert(op_model(m) =~~= apply_entry(m0, kv, vv)->Ok_0);
                    }
                }
            },
        }
        i = i + 1;
    }
    proof {
        assert(ps.skip(n as int) =~= Seq::<Seq<char>>::empty());
    }
    Ok(m)
}

} // verus!
