//! The resource resolver: the identifier safety grammar and the resolution
//! of path segments into a validated `ResourceAddress`.
//!
//! An identifier is non-empty, starts with an ASCII letter or underscore,
//! continues with ASCII letters, digits or underscores, and is at most
//! `MAX_IDENT_LEN` characters long. Any value embedded textually in SQL
//! must satisfy this grammar; everything else is bound as a parameter.
use vstd::prelude::*;

use crate::GatewayError;

verus! {

/// Upper bound on identifier length, matching the common backend limit.
pub const MAX_IDENT_LEN: usize = 63;

/// Whether `c` may start an identifier: an ASCII letter or underscore.
pub open spec fn is_ident_start(c: char) -> bool {
    ('a' <= c && c <= 'z') || ('A' <= c && c <= 'Z') || c == '_'
}

/// Whether `c` may continue an identifier: a start character or a digit.
pub open spec fn is_ident_char(c: char) -> bool {
    is_ident_start(c) || ('0' <= c && c <= '9')
}

/// The identifier safety grammar over a character sequence.
pub open spec fn valid_identifier(s: Seq<char>) -> bool {
    &&& 1 <= s.len() <= MAX_IDENT_LEN
    &&& is_ident_start(s[0])
    &&& forall|i: int| 0 <= i < s.len() ==> is_ident_char(#[trigger] s[i])
}

/// Decides the identifier grammar for a raw string.
pub fn is_valid_ident(raw: &str) -> (b: bool)
    ensures
        b == valid_identifier(raw@),
{
    let n = raw.unicode_len();
    if n == 0 || n > MAX_IDENT_LEN {
        return false;
    }
    let first = raw.get_char(0);
    if !(('a' <= first && first <= 'z') || ('A' <= first && first <= 'Z') || first == '_') {
        return false;
    }
    let mut i: usize = 0;
    while i < n
        invariant
            0 <= i <= n,
            n == raw@.len(),
            forall|j: int| 0 <= j < i ==> is_ident_char(#[trigger] raw@[j]),
        decreases n - i,
    {
        let c = raw.get_char(i);
        let ok = ('a' <= c && c <= 'z') || ('A' <= c && c <= 'Z') || c == '_' || ('0' <= c && c
            <= '9');
        if !ok {
            return false;
        }
        i = i + 1;
    }
    true
}

/// A string that has passed the identifier grammar. The invariant
/// `valid_identifier(self@)` is established by the sole constructor and
/// preserved by every method; only such values are ever embedded as
/// identifier text in compiled SQL.
#[derive(Clone, Debug)]
pub struct Identifier {
    text: String,
}

impl View for Identifier {
    type V = Seq<char>;

    closed spec fn view(&self) -> Seq<char> {
        self.text@
    }
}

impl Identifier {
    /// The type's invariant: the held text satisfies the grammar.
    pub open spec fn wf(&self) -> bool {
        valid_identifier(self@)
    }

    /// Validates `raw` against the identifier grammar; succeeds exactly on
    /// conforming strings and otherwise reports `InvalidIdentifier`.
    pub fn new(raw: &str) -> (r: Result<Identifier, GatewayError>)
        ensures
            r is Ok <==> valid_identifier(raw@),
            r matches Ok(id) ==> id@ == raw@ && id.wf(),
            r matches Err(e) ==> e is InvalidIdentifier,
    {
        if is_valid_ident(raw) {
            Ok(Identifier { text: raw.to_owned() })
        } else {
            Err(GatewayError::InvalidIdentifier)
        }
    }

    /// The validated text.
    pub fn as_str(&self) -> (r: &str)
        ensures
            r@ == self@,
    {
        self.text.as_str()
    }
}

/// Whether the addressed resource is a table or a database function.
#[derive(Clone, Copy, Debug, PartialEq, Eq, Structural)]
pub enum ResourceKind {
    Table,
    Function,
}

/// A validated resource address: schema, object name, and kind. Created
/// once per request from the path segments and immutable afterwards.
#[derive(Clone, Debug)]
pub struct ResourceAddress {
    pub schema: Identifier,
    pub name: Identifier,
    pub kind: ResourceKind,
}

impl ResourceAddress {
    /// Both identifiers satisfy the grammar.
    pub open spec fn wf(&self) -> bool {
        self.schema.wf() && self.name.wf()
    }
}

/// Resolves raw path segments into a `ResourceAddress`. Succeeds exactly
/// when both segments satisfy the identifier grammar; otherwise fails with
/// `InvalidIdentifier` and performs no other work.
pub fn resolve(raw_schema: &str, raw_name: &str, kind: ResourceKind) -> (r: Result<
    ResourceAddress,
    GatewayError,
>)
    ensures
        r is Ok <==> valid_identifier(raw_schema@) && valid_identifier(raw_name@),
        r matches Ok(a) ==> a.schema@ == raw_schema@ && a.name@ == raw_name@ && a.kind == kind
            && a.wf(),
        r matches Err(e) ==> e is InvalidIdentifier,
{
    let schema = Identifier::new(raw_schema)?;
    let name = Identifier::new(raw_name)?;
    Ok(ResourceAddress { schema, name, kind })
}

/// Law: a string containing a semicolon, a single quote, or whitespace —
/// the characters that could terminate or extend a SQL statement — never
/// satisfies the identifier grammar, so `resolve` rejects it.
pub proof fn lemma_unsafe_chars_rejected(s: Seq<char>, i: int)
    requires
        0 <= i < s.len(),
        s[i] == ';' || s[i] == '\'' || s[i] == ' ' || s[i] == '\t' || s[i] == '\n' || s[i] == '\r'
            || s[i] == ',' || s[i] == '(' || s[i] == ')' || s[i] == '"',
    ensures
        !valid_identifier(s),
{
    assert(!is_ident_char(s[i]));
}

} // verus!
