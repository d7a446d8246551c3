//! The preparation task: its key, its four-state machine, and the two pure
//! transition functions — the worker's entry and the consumer's step. Every
//! status change of a task goes through one of these two functions.

use vstd::prelude::*;
use crate::gas::{GasCounter, VMConfig};
use crate::prepare::{contract_matches, ContractCache, ContractStorage, PreparedContract};
use crate::types::{AccountId, CryptoHash};

verus! {

/// The key of a preparation task: the receipt's hash and the index of the
/// function-call action within it.
#[derive(Clone, Copy, PartialEq, Eq, Structural, Debug)]
pub struct PrepareTaskKey {
    pub receipt_id: CryptoHash,
    pub action_index: usize,
}

/// The task state machine:
/// `Pending` (enqueued, nobody holds it) → `Working` (one party has committed
/// to preparing) → `Prepared` (result available, not yet consumed) →
/// `Finished` (consumed or abandoned). A consumer that steals a `Pending`
/// task sets it `Finished` directly, as a marker that nobody else should
/// deliver.
pub enum PrepareTaskStatus {
    Pending,
    Working,
    Prepared(PreparedContract),
    Finished,
}

/// A preparation task: its status, and everything its worker needs, as
/// cloned handles and plain values, so that a worker never reaches back
/// into the pipeline. The ghost `preps` field counts the preparations
/// performed under this key.
pub struct PrepareTask {
    pub status: PrepareTaskStatus,
    pub storage: ContractStorage,
    pub cache: Option<ContractCache>,
    pub config: VMConfig,
    pub gas_counter: GasCounter,
    pub code_hash: CryptoHash,
    pub account_id: AccountId,
    pub method_name: String,
    pub preps: Ghost<nat>,
}

/// Well-formedness of a task at rest (between pipeline operations): the
/// builder ran at most once, never before the task left `Pending`, no party
/// is mid-preparation, and a `Prepared` value is exactly what the builder
/// returns for the task's own inputs.
pub open spec fn task_wf(t: PrepareTask) -> bool {
    &&& t.preps@ <= 1
    &&& (t.status is Pending ==> t.preps@ == 0)
    &&& !(t.status is Working)
    &&& (t.status matches PrepareTaskStatus::Prepared(c) ==> t.preps@ == 1 && contract_matches(
        c,
        t.storage,
        t.cache,
        t.config,
        t.gas_counter,
        t.code_hash,
        t.account_id,
        t.method_name@,
    ))
}

/// What the consumer's step decided.
pub enum ConsumerOutcome {
    /// The task was still `Pending`: the consumer took it over and prepares
    /// inline; the worker, when it arrives, sees non-`Pending` and exits.
    PrepareInline,
    /// A worker is preparing: the consumer must wait and re-examine.
    Wait,
    /// The prepared contract, consumed here.
    Take(PreparedContract),
    /// The task was already consumed: a double consumption, which is a
    /// contract violation of the caller.
    Misuse,
}

/// The consumer's step of the state machine: performed atomically under the
/// task's own lock.
pub fn consumer_transition(status: PrepareTaskStatus) -> (r: (PrepareTaskStatus, ConsumerOutcome))
    ensures
        status is Pending ==> r.0 is Finished && r.1 is PrepareInline,
        status is Working ==> r.0 is Working && r.1 is Wait,
        (status matches PrepareTaskStatus::Prepared(c) ==> r.0 is Finished && r.1
            == ConsumerOutcome::Take(c)),
        status is Finished ==> r.0 is Finished && r.1 is Misuse,
{
    match status {
        PrepareTaskStatus::Pending => (PrepareTaskStatus::Finished, ConsumerOutcome::PrepareInline),
        PrepareTaskStatus::Working => (PrepareTaskStatus::Working, ConsumerOutcome::Wait),
        PrepareTaskStatus::Prepared(c) => (PrepareTaskStatus::Finished, ConsumerOutcome::Take(c)),
        PrepareTaskStatus::Finished => (PrepareTaskStatus::Finished, ConsumerOutcome::Misuse),
    }
}

/// The worker's entry: an atomic swap that commits to preparing exactly when
/// the status was still `Pending`. On any other status the worker exits
/// without work and without changing the status — in particular it must not
/// end up `Working` alongside another party.
pub fn worker_entry(status: PrepareTaskStatus) -> (r: (PrepareTaskStatus, bool))
    ensures
        status is Pending ==> r.0 is Working && r.1,
        !(status is Pending) ==> r.0 == status && !r.1,
{
    match status {
        PrepareTaskStatus::Pending => (PrepareTaskStatus::Working, true),
        other => (other, false),
    }
}

} // verus!
