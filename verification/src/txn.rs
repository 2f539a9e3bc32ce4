//! The execution coordinator's decision logic, as a pure state machine:
//! `Idle → TransactionOpen → {Committed, RolledBack}`. The surrounding
//! runtime performs each decided action (begin, execute, commit,
//! rollback) against the backend and reports the outcome back; every
//! decision about what happens next is taken here.
use vstd::prelude::*;

use crate::GatewayError;
use crate::compile::CompiledStatement;

verus! {

/// The lifecycle of one transaction scope. `Committed` and `RolledBack`
/// are terminal.
#[derive(Clone, Copy, Debug, PartialEq, Eq, Structural)]
pub enum TxState {
    Idle,
    TransactionOpen,
    Committed,
    RolledBack,
}

/// The action the runtime must perform next.
#[derive(Clone, Copy, Debug, PartialEq, Eq, Structural)]
pub enum TxAction {
    ExecuteNext,
    Commit,
    Rollback,
}

impl TxState {
    /// A scope is terminal once committed or rolled back.
    pub open spec fn is_terminal(&self) -> bool {
        *self is Committed || *self is RolledBack
    }
}

/// The coordinator's entry decision for a mutating request: a payload
/// that failed to compile opens no transaction — and therefore issues no
/// backend call; a compiled statement opens one.
pub fn begin_mutation(compiled: &Result<CompiledStatement, GatewayError>) -> (r: TxState)
    ensures
        compiled is Err ==> r is Idle,
        compiled is Ok ==> r is TransactionOpen,
{
    match compiled {
        Ok(_) => TxState::TransactionOpen,
        Err(_) => TxState::Idle,
    }
}

/// The decision after one statement of an open transaction has run:
/// a failure decides rollback at once; a success either moves to the next
/// statement or, when none remain, decides commit. A mutating statement
/// is never retried.
pub fn on_statement_result(state: TxState, ok: bool, more: bool) -> (r: (TxState, TxAction))
    requires
        state is TransactionOpen,
    ensures
        !ok ==> r.0 is RolledBack && r.1 is Rollback,
        ok && more ==> r.0 is TransactionOpen && r.1 is ExecuteNext,
        ok && !more ==> r.0 is Committed && r.1 is Commit,
{
    if !ok {
        (TxState::RolledBack, TxAction::Rollback)
    } else if more {
        (TxState::TransactionOpen, TxAction::ExecuteNext)
    } else {
        (TxState::Committed, TxAction::Commit)
    }
}

/// The decision on cancellation (client disconnect or request abort)
/// while a transaction is open: roll back, never commit.
pub fn on_cancel(state: TxState) -> (r: (TxState, TxAction))
    requires
        state is TransactionOpen,
    ensures
        r.0 is RolledBack,
        r.1 is Rollback,
{
    (TxState::RolledBack, TxAction::Rollback)
}

/// The decision on deadline expiry while a transaction is open: the same
/// rollback as for cancellation — state is never left ambiguous.
pub fn on_deadline(state: TxState) -> (r: (TxState, TxAction))
    requires
        state is TransactionOpen,
    ensures
        r.0 is RolledBack,
        r.1 is Rollback,
{
    (TxState::RolledBack, TxAction::Rollback)
}

/// Whether the pooled connection may be returned: only once the scope is
/// terminal (or never left `Idle`) — never while a transaction is open,
/// so rollback always completes before connection release.
pub fn connection_may_release(state: TxState) -> (r: bool)
    ensures
        r == (state is Idle || state.is_terminal()),
        state is TransactionOpen ==> !r,
{
    match state {
        TxState::Idle => true,
        TxState::TransactionOpen => false,
        TxState::Committed => true,
        TxState::RolledBack => true,
    }
}

/// Replays the coordinator's decisions over the outcomes of a composite
/// operation's statements, in order. One failed statement anywhere rolls
/// the whole scope back; the scope commits only when every statement
/// succeeded — all succeed or none persist.
pub fn run_statements(outcomes: &Vec<bool>) -> (r: TxState)
    ensures
        r.is_terminal(),
        (exists|i: int| 0 <= i < outcomes@.len() && !outcomes@[i]) ==> r is RolledBack,
        (forall|i: int| 0 <= i < outcomes@.len() ==> outcomes@[i]) ==> r is Committed,
{
    let n = outcomes.len();
    let mut state = TxState::TransactionOpen;
    let mut i: usize = 0;
    while i < n
        invariant
            0 <= i <= n,
            n == outcomes@.len(),
            state is TransactionOpen,
            forall|j: int| 0 <= j < i ==> outcomes@[j],
        decreases n - i,
    {
        let (next_state, _action) = on_statement_result(state, outcomes[i], i + 1 < n);
        if !outcomes[i] {
            return next_state;
        }
        if i + 1 == n {
            return next_state;
        }
        state = next_state;
        i = i + 1;
    }
    TxState::Committed
}

} // verus!
