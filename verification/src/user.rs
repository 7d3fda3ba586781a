//! Virtual user: one simulated client running the scenario loop.
//!
//! At the top of every loop iteration the user observes the cancellation
//! flag; only when it is down does it select a transaction by weighted draw.
//! Its context is owned exclusively by the user — state is never shared
//! between users.

use vstd::prelude::*;
use crate::selection::SelectionTable;
use crate::selection::selects;

verus! {

/// Per-user mutable state: owned by its virtual user alone.
pub struct VirtualUserContext {
    pub user_id: u64,
    /// Transactions this user has completed.
    pub completed_transactions: u64,
    /// Set once the user has observed the stop signal; never cleared.
    pub halted: bool,
}

/// What a virtual user decides to do at the top of its loop.
#[derive(Clone, Copy, Debug, PartialEq, Eq, Structural)]
pub enum UserAction {
    /// Run the transaction with this index in the scenario.
    Run(usize),
    /// Exit the loop without issuing anything further.
    Halt,
}

/// Whether the user would start a new transaction, given its halted flag and
/// the observed stop signal. This is the whole decision: a raised signal or a
/// halted user never yields a request.
pub open spec fn starts_transaction(halted: bool, stop_requested: bool) -> bool {
    !halted && !stop_requested
}

/// Graceful stop: once the stop signal is raised no user starts another
/// request, and a user that has once halted stays halted whatever the signal
/// says — each user therefore halts within one loop decision of observing
/// the signal, finishing at most the transaction already in flight.
pub proof fn lemma_no_request_after_stop(halted: bool, stop_requested: bool)
    ensures
        stop_requested ==> !starts_transaction(halted, stop_requested),
        halted ==> !starts_transaction(halted, stop_requested),
{
}

/// Halted state of a user after it has observed each signal of `stops` in
/// turn at the top of its loop: the same evolution `next_action` ensures,
/// decision by decision.
pub open spec fn halted_after(h0: bool, stops: Seq<bool>) -> bool
    decreases stops.len(),
{
    if stops.len() == 0 {
        h0
    } else {
        halted_after(h0, stops.drop_last()) || stops.last()
    }
}

/// Halting latches: a user halted after some prefix of the observed signals
/// stays halted after every longer prefix. Together with
/// `lemma_no_request_after_stop` this gives the graceful-stop guarantee: from
/// the first observed stop signal on, a user issues no request ever again —
/// it finishes at most the transaction already in flight and exits.
pub proof fn lemma_halt_is_permanent(h0: bool, stops: Seq<bool>, j: int, l: int)
    requires
        0 <= j <= l <= stops.len(),
        halted_after(h0, stops.take(j)),
    ensures
        halted_after(h0, stops.take(l)),
    decreases l - j,
{
    if j < l {
        lemma_halt_is_permanent(h0, stops, j, l - 1);
        assert(stops.take(l).drop_last() =~= stops.take(l - 1));
    }
}

impl VirtualUserContext {
    pub fn new(user_id: u64) -> (u: VirtualUserContext)
        ensures
            u.user_id == user_id,
            u.completed_transactions == 0,
            !u.halted,
    {
        VirtualUserContext { user_id, completed_transactions: 0, halted: false }
    }

    /// Top-of-loop decision of the user: observe the stop flag first, and
    /// only when it is down pick the next transaction by weighted draw.
    pub fn next_action(&mut self, stop_requested: bool, table: &SelectionTable, draw: u64) -> (a:
        UserAction)
        requires
            table.wf(),
        ensures
            final(self).user_id == old(self).user_id,
            final(self).completed_transactions == old(self).completed_transactions,
            !starts_transaction(old(self).halted, stop_requested) ==> a == UserAction::Halt
                && final(self).halted,
            starts_transaction(old(self).halted, stop_requested) ==> *final(self) == *old(self) && (
            a matches UserAction::Run(i) && selects(
                table.weights@,
                (draw as int) % table.total_spec(),
                i as int,
            )),
    {
        if stop_requested || self.halted {
            self.halted = true;
            UserAction::Halt
        } else {
            let total = table.total();
            let i = table.select(draw % total);
            UserAction::Run(i)
        }
    }

    /// Bookkeeping once a selected transaction (and its think-time pause) has
    /// finished.
    pub fn complete_transaction(&mut self)
        requires
            old(self).completed_transactions < u64::MAX,
        ensures
            final(self).user_id == old(self).user_id,
            final(self).halted == old(self).halted,
            final(self).completed_transactions == old(self).completed_transactions + 1,
    {
        self.completed_transactions = self.completed_transactions + 1;
    }
}

} // verus!
