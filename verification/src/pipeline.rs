//! The pipeline facade: the task table keyed by `(receipt hash, action
//! index)`, the two blocker sets, the FIFO work queue, and the `submit` /
//! `get_contract` operations, together with the worker step that drains the
//! queue.
//!
//! The pipeline lives for one chunk application and holds no cross-chunk
//! state. One party drives it at a time; each task's status changes are the
//! atomic transitions of `crate::task`, so the well-formedness invariant
//! holds whenever the pipeline is at rest between operations.

use vstd::prelude::*;
use vstd::pervasive::unreached;
use crate::gas::{gas_counter_spec, new_gas_counter, GasCounter, RuntimeConfig};
use crate::prepare::{
    contract_matches, prepare_function_call, ContractCache, ContractStorage, PreparedContract,
};
use crate::resolve::{
    account_in, contains_account, contains_gid, gid_in, resolve_code_hash, resolve_code_hash_spec,
};
use crate::state::StateSnapshot;
use crate::task::{
    consumer_transition, task_wf, worker_entry, ConsumerOutcome, PrepareTask, PrepareTaskKey,
    PrepareTaskStatus,
};
use crate::types::{
    action_cuts, cut_index, fc_of, lemma_cut_index, lemma_cut_index_unique, AccountId, Action,
    CryptoHash, GlobalContractIdentifier, Receipt, ReceiptEnum, ViewConfig,
};

verus! {

/// One entry of the task table.
pub struct PrepareTaskEntry {
    pub key: PrepareTaskKey,
    pub task: PrepareTask,
}

/// The pipeline's monotonically increasing counters: receipts' actions
/// submitted for preparation, consumed without a prior submission, found
/// already prepared, and prepared on the consumer's own thread after a steal.
#[derive(Clone, Copy, PartialEq, Eq, Structural, Debug)]
pub struct PipelineMetrics {
    pub submitted: u64,
    pub not_submitted: u64,
    pub found_prepared: u64,
    pub prepared_in_main_thread: u64,
}

/// `a + b`, saturating at the counter's maximum.
pub open spec fn sat_add_u64(a: u64, b: nat) -> u64 {
    if a + b > u64::MAX {
        u64::MAX
    } else {
        (a + b) as u64
    }
}

/// The sequence of actions of an `Action` or `PromiseYield` receipt.
pub open spec fn actions_of(r: ReceiptEnum) -> Seq<Action> {
    match r {
        ReceiptEnum::Action(a) => a.actions@,
        ReceiptEnum::PromiseYield(a) => a.actions@,
        _ => Seq::empty(),
    }
}

/// Whether the receipt carries actions at all.
pub open spec fn is_action_receipt(r: ReceiptEnum) -> bool {
    r is Action || r is PromiseYield
}

/// Where `get_contract` found the requested task.
#[derive(Clone, Copy, PartialEq, Eq, Structural, Debug)]
pub enum TaskPhase {
    Absent,
    Pending,
    Working,
    Prepared,
    Finished,
}

/// What one worker step did: the queue was empty, a task was prepared, or
/// the dequeued task had already been taken over and the worker exited
/// without work.
#[derive(Clone, Copy, PartialEq, Eq, Structural, Debug)]
pub enum WorkerStep {
    Idle,
    Prepared,
    Skipped,
}

/// The receipt preparation pipeline for one chunk.
pub struct ReceiptPreparationPipeline {
    /// The task table: at most one entry per key, in insertion order.
    pub map: Vec<PrepareTaskEntry>,
    /// Receiver accounts for which preparation is disabled in this chunk: a
    /// deployment in the chunk would make their committed code hash stale.
    pub block_accounts: Vec<AccountId>,
    /// Global contract ids for which preparation is disabled in this chunk.
    pub block_global_contracts: Vec<GlobalContractIdentifier>,
    /// The runtime configuration shared by all requests of the chunk.
    pub config: RuntimeConfig,
    /// The compile cache handle, if any.
    pub contract_cache: Option<ContractCache>,
    /// The storage of WASM code.
    pub storage: ContractStorage,
    /// The FIFO queue of submitted work, drained by `run_next_worker`.
    pub queue: Vec<PrepareTaskKey>,
    /// The pipeline's counters.
    pub metrics: PipelineMetrics,
}

impl ReceiptPreparationPipeline {
    /// Whether the table holds an entry for `key`.
    pub open spec fn has_key(self, key: PrepareTaskKey) -> bool {
        exists|i: int| 0 <= i < self.map@.len() && self.map@[i].key == key
    }

    /// The position of `key` in the table.
    pub open spec fn key_index(self, key: PrepareTaskKey) -> int {
        choose|i: int| 0 <= i < self.map@.len() && self.map@[i].key == key
    }

    /// The task stored under `key`.
    pub open spec fn task_at(self, key: PrepareTaskKey) -> PrepareTask {
        self.map@[self.key_index(key)].task
    }

    /// Whether preparation for `a` is blocked in this chunk.
    pub open spec fn account_blocked(self, a: AccountId) -> bool {
        account_in(self.block_accounts@, a)
    }

    /// Whether preparation against global contract `g` is blocked in this
    /// chunk.
    pub open spec fn global_blocked(self, g: GlobalContractIdentifier) -> bool {
        gid_in(self.block_global_contracts@, g)
    }

    /// The pipeline at rest: table keys are unique, every task is
    /// well-formed, and every queued key is in the table.
    pub open spec fn wf(self) -> bool {
        &&& (forall|i: int, j: int|
            0 <= i < j < self.map@.len() ==> self.map@[i].key != self.map@[j].key)
        &&& (forall|i: int| 0 <= i < self.map@.len() ==> task_wf(#[trigger] self.map@[i].task))
        &&& (forall|i: int| 0 <= i < self.queue@.len() ==> self.has_key(#[trigger] self.queue@[i]))
    }

    /// The handles and the configuration never change after construction.
    pub open spec fn unchanged_core(pre: Self, post: Self) -> bool {
        &&& post.config == pre.config
        &&& post.contract_cache == pre.contract_cache
        &&& post.storage == pre.storage
    }

    /// Nothing observable changed.
    pub open spec fn unchanged_all(pre: Self, post: Self) -> bool {
        &&& Self::unchanged_core(pre, post)
        &&& post.map@ == pre.map@
        &&& post.block_accounts@ == pre.block_accounts@
        &&& post.block_global_contracts@ == pre.block_global_contracts@
        &&& post.queue@ == pre.queue@
        &&& post.metrics == pre.metrics
    }

    /// An entry at a fixed position determines the table's index for its
    /// key.
    pub proof fn lemma_key_index_is(self, key: PrepareTaskKey, i: int)
        requires
            self.wf(),
            0 <= i < self.map@.len(),
            self.map@[i].key == key,
        ensures
            self.has_key(key),
            self.key_index(key) == i,
            self.task_at(key) == self.map@[i].task,
    {
        assert(self.has_key(key));
        let j = self.key_index(key);
        assert(0 <= j < self.map@.len() && self.map@[j].key == key);
    }

    /// A fresh pipeline for one chunk: an empty table, empty blocker sets,
    /// an empty queue, zeroed counters, and the given handles.
    pub fn new(
        config: RuntimeConfig,
        contract_cache: Option<ContractCache>,
        storage: ContractStorage,
    ) -> (r: Self)
        ensures
            r.wf(),
            r.map@.len() == 0,
            r.block_accounts@.len() == 0,
            r.block_global_contracts@.len() == 0,
            r.queue@.len() == 0,
            r.metrics == (PipelineMetrics {
                submitted: 0,
                not_submitted: 0,
                found_prepared: 0,
                prepared_in_main_thread: 0,
            }),
            r.config == config,
            r.contract_cache == contract_cache,
            r.storage == storage,
    {
        ReceiptPreparationPipeline {
            map: Vec::new(),
            block_accounts: Vec::new(),
            block_global_contracts: Vec::new(),
            config,
            contract_cache,
            storage,
            queue: Vec::new(),
            metrics: PipelineMetrics {
                submitted: 0,
                not_submitted: 0,
                found_prepared: 0,
                prepared_in_main_thread: 0,
            },
        }
    }

    /// The gas counter for a call with `gas` attached, under this pipeline's
    /// configuration.
    pub fn gas_counter(&self, view_config: Option<ViewConfig>, gas: u64) -> (r: GasCounter)
        ensures
            r == gas_counter_spec(self.config, view_config, gas),
    {
        new_gas_counter(&self.config, view_config, gas)
    }

    /// The position of `key` in the table, if present.
    fn find_task_index(&self, key: PrepareTaskKey) -> (r: Option<usize>)
        ensures
            match r {
                Option::Some(i) => 0 <= i < self.map@.len() && self.map@[i as int].key == key,
                Option::None => !self.has_key(key),
            },
    {
        let n = self.map.len();
        let mut i: usize = 0;
        while i < n
            invariant
                n == self.map@.len(),
                0 <= i <= n,
                forall|j: int| 0 <= j < i ==> self.map@[j].key != key,
            decreases n - i,
        {
            if self.map[i].key == key {
                return Option::Some(i);
            }
            i += 1;
        }
        Option::None
    }

    /// Whether `e` is a preparation task that `submit(receipt, ...)` creates
    /// on top of `pre`: keyed by the receipt's hash and a function-call index
    /// below the first cutting action, fresh, `Pending`, and carrying the
    /// resolved code hash, the receiver, the method name, a fresh gas
    /// counter, and clones of the pipeline's handles.
    pub open spec fn new_task_for(
        pre: Self,
        receipt: Receipt,
        state: StateSnapshot,
        view_config: Option<ViewConfig>,
        actions: Seq<Action>,
        e: PrepareTaskEntry,
    ) -> bool {
        &&& e.key.receipt_id == receipt.hash
        &&& 0 <= e.key.action_index < actions.len()
        &&& (e.key.action_index as int) < cut_index(actions)
        &&& !pre.has_key(e.key)
        &&& actions[e.key.action_index as int] is FunctionCall
        &&& ({
            let fc = fc_of(actions[e.key.action_index as int]);
            &&& Option::Some(e.task.code_hash) == resolve_code_hash_spec(
                state,
                pre.block_global_contracts@,
                receipt.receiver_id,
            )
            &&& e.task.status is Pending
            &&& e.task.preps@ == 0
            &&& e.task.storage == pre.storage
            &&& e.task.cache == pre.contract_cache
            &&& e.task.config == pre.config.wasm_config
            &&& e.task.gas_counter == gas_counter_spec(pre.config, view_config, fc.gas)
            &&& e.task.account_id == receipt.receiver_id
            &&& e.task.method_name@ == fc_of(actions[e.key.action_index as int]).method_name@
        })
    }

    /// What submitting an `Action` or `PromiseYield` receipt (whose receiver
    /// is not blocked) does: walk `actions` up to the first `DeployContract`
    /// or `UseGlobalContract`, append one fresh `Pending` task per resolvable
    /// function call whose key is new, enqueue the new keys in order, and —
    /// when a cutting action was hit — block the receiver. The result is
    /// `true` when the receiver was newly blocked or at least one task was
    /// scheduled.
    pub open spec fn submit_actions_post(
        pre: Self,
        post: Self,
        receipt: Receipt,
        state: StateSnapshot,
        view_config: Option<ViewConfig>,
        actions: Seq<Action>,
        r: bool,
    ) -> bool {
        let cut = cut_index(actions);
        let n0 = pre.map@.len() as int;
        let rr = resolve_code_hash_spec(state, pre.block_global_contracts@, receipt.receiver_id);
        &&& Self::unchanged_core(pre, post)
        &&& post.block_global_contracts@ == pre.block_global_contracts@
        &&& n0 <= post.map@.len()
        &&& (forall|j: int| 0 <= j < n0 ==> post.map@[j] == pre.map@[j])
        &&& (forall|j: int|
            n0 <= j < post.map@.len() ==> Self::new_task_for(
                pre,
                receipt,
                state,
                view_config,
                actions,
                #[trigger] post.map@[j],
            ))
        &&& (forall|j1: int, j2: int|
            n0 <= j1 < j2 < post.map@.len() ==> post.map@[j1].key.action_index
                < post.map@[j2].key.action_index)
        &&& (forall|i: int|
            0 <= i < cut && actions[i] is FunctionCall && rr is Some && !pre.has_key(
                (PrepareTaskKey { receipt_id: receipt.hash, action_index: i as usize }),
            ) ==> post.has_key(
                (PrepareTaskKey { receipt_id: receipt.hash, action_index: i as usize }),
            ))
        &&& post.queue@ == pre.queue@ + post.map@.subrange(n0, post.map@.len() as int).map_values(
            |e: PrepareTaskEntry| e.key,
        )
        &&& (cut < actions.len() ==> post.block_accounts@ == pre.block_accounts@.push(
            receipt.receiver_id,
        ) && r == true)
        &&& (cut == actions.len() ==> post.block_accounts@ == pre.block_accounts@ && r == (
        post.map@.len() > n0))
        &&& post.metrics.submitted == sat_add_u64(
            pre.metrics.submitted,
            (post.map@.len() - n0) as nat,
        )
        &&& post.metrics.not_submitted == pre.metrics.not_submitted
        &&& post.metrics.found_prepared == pre.metrics.found_prepared
        &&& post.metrics.prepared_in_main_thread == pre.metrics.prepared_in_main_thread
    }

    /// Submit a receipt for preparation of likely eventual execution.
    ///
    /// A receipt whose receiver is blocked is declined. A
    /// `GlobalContractDistribution` blocks its global id and is otherwise
    /// declined; `Data` and `PromiseResume` receipts are declined. For an
    /// `Action` or `PromiseYield` receipt the actions are walked in order:
    /// the first `DeployContract` or `UseGlobalContract` blocks the receiver
    /// and ends the walk (the deployed code would shadow what committed
    /// state shows), and each function call that resolves to a code hash and
    /// whose key is not yet in the table schedules a `Pending` task on the
    /// FIFO queue.
    ///
    /// Returns `true` when the pipeline acted on the receipt: it blocked the
    /// receiver, or scheduled at least one function call.
    #[verifier::loop_isolation(false)]
    pub fn submit(
        &mut self,
        receipt: &Receipt,
        state: &StateSnapshot,
        view_config: Option<ViewConfig>,
    ) -> (r: bool)
        requires
            old(self).wf(),
        ensures
            final(self).wf(),
            forall|a: AccountId|
                old(self).account_blocked(a) ==> final(self).account_blocked(a),
            forall|g: GlobalContractIdentifier|
                old(self).global_blocked(g) ==> final(self).global_blocked(g),
            old(self).map@.len() <= final(self).map@.len(),
            forall|j: int| 0 <= j < old(self).map@.len() ==> final(self).map@[j] == old(
                self,
            ).map@[j],
            old(self).account_blocked(receipt.receiver_id) ==> r == false && Self::unchanged_all(
                *old(self),
                *final(self),
            ),
            !old(self).account_blocked(receipt.receiver_id) ==> match receipt.receipt {
                ReceiptEnum::Action(ar) => Self::submit_actions_post(
                    *old(self),
                    *final(self),
                    *receipt,
                    *state,
                    view_config,
                    ar.actions@,
                    r,
                ),
                ReceiptEnum::PromiseYield(ar) => Self::submit_actions_post(
                    *old(self),
                    *final(self),
                    *receipt,
                    *state,
                    view_config,
                    ar.actions@,
                    r,
                ),
                ReceiptEnum::GlobalContractDistribution(g) => {
                    &&& r == false
                    &&& Self::unchanged_core(*old(self), *final(self))
                    &&& final(self).block_global_contracts@ == (if old(self).global_blocked(g) {
                        old(self).block_global_contracts@
                    } else {
                        old(self).block_global_contracts@.push(g)
                    })
                    &&& final(self).global_blocked(g)
                    &&& final(self).map@ == old(self).map@
                    &&& final(self).queue@ == old(self).queue@
                    &&& final(self).block_accounts@ == old(self).block_accounts@
                    &&& final(self).metrics == old(self).metrics
                },
                ReceiptEnum::Data => r == false && Self::unchanged_all(*old(self), *final(self)),
                ReceiptEnum::PromiseResume => r == false && Self::unchanged_all(
                    *old(self),
                    *final(self),
                ),
            },
    {
        let ghost pre = *self;
        let account_id = receipt.receiver_id;
        if contains_account(&self.block_accounts, account_id) {
            return false;
        }
        let actions = match &receipt.receipt {
            ReceiptEnum::Action(a) => &a.actions,
            ReceiptEnum::PromiseYield(a) => &a.actions,
            ReceiptEnum::GlobalContractDistribution(g) => {
                if !contains_gid(&self.block_global_contracts, *g) {
                    self.block_global_contracts.push(*g);
                    proof {
                        assert forall|g0: GlobalContractIdentifier|
                            pre.global_blocked(g0) implies self.global_blocked(g0) by {
                            let w = choose|w: int|
                                0 <= w < pre.block_global_contracts@.len()
                                    && pre.block_global_contracts@[w] == g0;
                            assert(self.block_global_contracts@[w] == g0);
                        }
                        assert(self.block_global_contracts@[pre.block_global_contracts@.len()
                            as int] == *g);
                    }
                }
                return false;
            },
            ReceiptEnum::Data => {
                return false;
            },
            ReceiptEnum::PromiseResume => {
                return false;
            },
        };
        let ghost acts = actions@;
        let ghost rr = resolve_code_hash_spec(*state, pre.block_global_contracts@, account_id);
        let ghost n0 = pre.map@.len() as int;
        let n = actions.len();
        let mut any_function_calls = false;
        let mut idx: usize = 0;
        while idx < n
            invariant
                0 <= idx <= n,
                forall|j: int| 0 <= j < idx ==> !action_cuts(acts[j]),
                self.block_accounts@ == pre.block_accounts@,
                self.block_global_contracts@ == pre.block_global_contracts@,
                self.config == pre.config,
                self.contract_cache == pre.contract_cache,
                self.storage == pre.storage,
                self.metrics.not_submitted == pre.metrics.not_submitted,
                self.metrics.found_prepared == pre.metrics.found_prepared,
                self.metrics.prepared_in_main_thread == pre.metrics.prepared_in_main_thread,
                self.metrics.submitted == sat_add_u64(
                    pre.metrics.submitted,
                    (self.map@.len() - n0) as nat,
                ),
                n0 <= self.map@.len(),
                forall|j: int| 0 <= j < n0 ==> self.map@[j] == pre.map@[j],
                forall|j: int|
                    n0 <= j < self.map@.len() ==> Self::new_task_for(
                        pre,
                        *receipt,
                        *state,
                        view_config,
                        acts,
                        #[trigger] self.map@[j],
                    ) && self.map@[j].key.action_index < idx,
                forall|j1: int, j2: int|
                    n0 <= j1 < j2 < self.map@.len() ==> self.map@[j1].key.action_index
                        < self.map@[j2].key.action_index,
                self.queue@ == pre.queue@ + self.map@.subrange(
                    n0,
                    self.map@.len() as int,
                ).map_values(|e: PrepareTaskEntry| e.key),
                forall|i: int|
                    0 <= i < idx && acts[i] is FunctionCall && rr is Some && !pre.has_key(
                        (PrepareTaskKey { receipt_id: receipt.hash, action_index: i as usize }),
                    ) ==> self.has_key(
                        (PrepareTaskKey { receipt_id: receipt.hash, action_index: i as usize }),
                    ),
                any_function_calls == (self.map@.len() > n0),
                self.wf(),
            decreases n - idx,
        {
            match &actions[idx] {
                Action::DeployContract | Action::UseGlobalContract => {
                    // the receiver was not blocked at entry and nothing
                    // below the first cutting action blocks it, so this
                    // insertion is always new here
                    self.block_accounts.push(account_id);
                    proof {
                        lemma_cut_index_unique(acts, idx as int);
                        assert forall|a0: AccountId|
                            pre.account_blocked(a0) implies self.account_blocked(a0) by {
                            let w = choose|w: int|
                                0 <= w < pre.block_accounts@.len() && pre.block_accounts@[w] == a0;
                            assert(self.block_accounts@[w] == a0);
                        }
                    }
                    return true;
                },
                Action::FunctionCall(fc) => {
                    let code_hash_opt = resolve_code_hash(
                        state,
                        &self.block_global_contracts,
                        account_id,
                    );
                    proof {
                        assert(code_hash_opt == rr);
                    }
                    match code_hash_opt {
                        Option::None => {},
                        Option::Some(code_hash) => {
                            let key = PrepareTaskKey {
                                receipt_id: receipt.get_hash(),
                                action_index: idx,
                            };
                            match self.find_task_index(key) {
                                Option::Some(_) => {
                                    // already submitted: keep the existing
                                    // task
                                    proof {
                                        assert(self.has_key(key));
                                    }
                                },
                                Option::None => {
                                    let ghost before = *self;
                                    let gc = self.gas_counter(view_config, fc.gas);
                                    let task = PrepareTask {
                                        status: PrepareTaskStatus::Pending,
                                        storage: self.storage,
                                        cache: self.contract_cache,
                                        config: self.config.wasm_config,
                                        gas_counter: gc,
                                        code_hash,
                                        account_id,
                                        method_name: fc.method_name.clone(),
                                        preps: Ghost(0),
                                    };
                                    let entry = PrepareTaskEntry { key, task };
                                    self.map.push(entry);
                                    self.queue.push(key);
                                    let s = self.metrics.submitted;
                                    self.metrics.submitted = if s == u64::MAX {
                                        s
                                    } else {
                                        s + 1
                                    };
                                    any_function_calls = true;
                                    proof {
                                        lemma_cut_index(acts);
                                        if cut_index(acts) <= idx {
                                            assert(action_cuts(acts[cut_index(acts)]));
                                            assert(false);
                                        }
                                        assert(!before.has_key(key));
                                        assert(!pre.has_key(key)) by {
                                            if pre.has_key(key) {
                                                let w = choose|w: int|
                                                    0 <= w < pre.map@.len() && pre.map@[w].key
                                                        == key;
                                                assert(before.map@[w].key == key);
                                            }
                                        }
                                        assert(self.queue@ =~= pre.queue@ + self.map@.subrange(
                                            n0,
                                            self.map@.len() as int,
                                        ).map_values(|e: PrepareTaskEntry| e.key));
                                        assert forall|j: int|
                                            0 <= j < self.queue@.len() implies self.has_key(
                                            #[trigger] self.queue@[j]) by {
                                            if j < before.queue@.len() {
                                                assert(before.has_key(before.queue@[j]));
                                                let w = choose|w: int|
                                                    0 <= w < before.map@.len()
                                                        && before.map@[w].key
                                                        == before.queue@[j];
                                                assert(self.map@[w].key == self.queue@[j]);
                                            } else {
                                                assert(self.map@[self.map@.len() - 1].key
                                                    == key);
                                            }
                                        }
                                        assert(self.has_key(key)) by {
                                            assert(self.map@[self.map@.len() - 1].key == key);
                                        }
                                        assert(self.metrics.submitted == sat_add_u64(
                                            pre.metrics.submitted,
                                            (self.map@.len() - n0) as nat,
                                        ));
                                        assert forall|i: int|
                                            0 <= i < idx + 1 && acts[i] is FunctionCall && rr
                                                is Some && !pre.has_key(
                                                (PrepareTaskKey {
                                                    receipt_id: receipt.hash,
                                                    action_index: i as usize,
                                                }),
                                            ) implies self.has_key(
                                            (PrepareTaskKey {
                                                receipt_id: receipt.hash,
                                                action_index: i as usize,
                                            }),
                                        ) by {
                                            let ki = PrepareTaskKey {
                                                receipt_id: receipt.hash,
                                                action_index: i as usize,
                                            };
                                            if i == idx {
                                                assert(self.map@[self.map@.len() - 1].key == ki);
                                            } else {
                                                assert(before.has_key(ki));
                                                let w = choose|w: int|
                                                    0 <= w < before.map@.len()
                                                        && before.map@[w].key == ki;
                                                assert(self.map@[w].key == ki);
                                            }
                                        }
                                        assert forall|p: int, q: int|
                                            0 <= p < q < self.map@.len() implies self.map@[p].key
                                            != self.map@[q].key by {
                                            if q < self.map@.len() - 1 {
                                            } else {
                                                assert(self.map@[q].key == key);
                                                if p < n0 {
                                                    assert(!pre.has_key(key));
                                                    assert(self.map@[p] == pre.map@[p]);
                                                } else {
                                                    assert(self.map@[p].key.action_index < idx);
                                                }
                                            }
                                        }
                                    }
                                },
                            }
                        },
                    }
                },
                _ => {},
            }
            idx += 1;
        }
        proof {
            lemma_cut_index_unique(acts, n as int);
        }
        any_function_calls
    }

    /// What `get_contract` and `run_next_worker` leave untouched: the
    /// handles, the blocker sets, and the table's keys and order.
    pub open spec fn consume_frame(pre: Self, post: Self) -> bool {
        &&& Self::unchanged_core(pre, post)
        &&& post.block_accounts@ == pre.block_accounts@
        &&& post.block_global_contracts@ == pre.block_global_contracts@
        &&& post.map@.len() == pre.map@.len()
        &&& (forall|j: int| 0 <= j < pre.map@.len() ==> post.map@[j].key == pre.map@[j].key)
    }

    /// The non-status fields of the task under `key` are those of `t`.
    pub open spec fn task_fields_except_status(self, key: PrepareTaskKey, t: PrepareTask) -> bool {
        let u = self.task_at(key);
        &&& u.storage == t.storage
        &&& u.cache == t.cache
        &&& u.config == t.config
        &&& u.gas_counter == t.gas_counter
        &&& u.code_hash == t.code_hash
        &&& u.account_id == t.account_id
        &&& u.method_name@ == t.method_name@
    }

    /// Obtain the prepared contract for `action_index` of `receipt`.
    ///
    /// When no task was submitted for the key — never scheduled, or the
    /// account is blocked — the contract is prepared inline. When the task is
    /// still `Pending` the consumer steals it, marks it `Finished` and
    /// prepares inline; the worker, arriving later, exits without work. When
    /// it is `Prepared` the stored contract is consumed. Consuming a
    /// `Finished` task is a contract violation of the caller and is excluded
    /// here; so is a receipt without a function call at `action_index`.
    ///
    /// Whatever the path, the returned contract was built for the `code_hash`
    /// argument (the caller hands in the hash the task was resolved for).
    pub fn get_contract(
        &mut self,
        receipt: &Receipt,
        code_hash: CryptoHash,
        action_index: usize,
        view_config: Option<ViewConfig>,
    ) -> (r: PreparedContract)
        requires
            old(self).wf(),
            is_action_receipt(receipt.receipt),
            action_index < actions_of(receipt.receipt).len(),
            actions_of(receipt.receipt)[action_index as int] is FunctionCall,
            ({
                let key = (PrepareTaskKey { receipt_id: receipt.hash, action_index });
                &&& (old(self).has_key(key) ==> !(old(self).task_at(key).status is Finished))
                &&& (old(self).has_key(key) ==> old(self).task_at(key).code_hash == code_hash)
            }),
        ensures
            final(self).wf(),
            Self::consume_frame(*old(self), *final(self)),
            final(self).queue@ == old(self).queue@,
            r.code_hash == code_hash,
            ({
                let key = (PrepareTaskKey { receipt_id: receipt.hash, action_index });
                let fc = fc_of(actions_of(receipt.receipt)[action_index as int]);
                let gc = gas_counter_spec(old(self).config, view_config, fc.gas);
                let m = old(self).metrics;
                &&& (!old(self).has_key(key) ==> {
                    &&& final(self).map@ == old(self).map@
                    &&& contract_matches(r, old(self).storage, old(self).contract_cache,
                        old(self).config.wasm_config, gc, code_hash, receipt.receiver_id,
                        fc.method_name@)
                    &&& final(self).metrics == (PipelineMetrics {
                        submitted: m.submitted,
                        not_submitted: sat_add_u64(m.not_submitted, 1),
                        found_prepared: m.found_prepared,
                        prepared_in_main_thread: m.prepared_in_main_thread,
                    })
                })
                &&& (old(self).has_key(key) ==> {
                    let i = old(self).key_index(key);
                    let t = old(self).task_at(key);
                    &&& (forall|j: int|
                        0 <= j < old(self).map@.len() && j != i ==> final(self).map@[j] == old(
                            self,
                        ).map@[j])
                    &&& final(self).task_at(key).status is Finished
                    &&& final(self).task_fields_except_status(key, t)
                    &&& (t.status is Pending ==> {
                        &&& contract_matches(r, old(self).storage, old(self).contract_cache,
                            old(self).config.wasm_config, gc, code_hash, receipt.receiver_id,
                            fc.method_name@)
                        &&& final(self).task_at(key).preps@ == t.preps@ + 1
                        &&& final(self).metrics == (PipelineMetrics {
                            submitted: m.submitted,
                            not_submitted: m.not_submitted,
                            found_prepared: m.found_prepared,
                            prepared_in_main_thread: sat_add_u64(m.prepared_in_main_thread, 1),
                        })
                    })
                    &&& (t.status matches PrepareTaskStatus::Prepared(c) ==> {
                        &&& r == c
                        &&& final(self).task_at(key).preps@ == t.preps@
                        &&& final(self).metrics == (PipelineMetrics {
                            submitted: m.submitted,
                            not_submitted: m.not_submitted,
                            found_prepared: sat_add_u64(m.found_prepared, 1),
                            prepared_in_main_thread: m.prepared_in_main_thread,
                        })
                    })
                })
            }),
    {
        let ghost pre = *self;
        let key = PrepareTaskKey { receipt_id: receipt.get_hash(), action_index };
        let actions = match &receipt.receipt {
            ReceiptEnum::Action(a) => &a.actions,
            ReceiptEnum::PromiseYield(a) => &a.actions,
            ReceiptEnum::GlobalContractDistribution(_) => unreached(),
            ReceiptEnum::Data => unreached(),
            ReceiptEnum::PromiseResume => unreached(),
        };
        let fc = match &actions[action_index] {
            Action::FunctionCall(f) => f,
            _ => unreached(),
        };
        match self.find_task_index(key) {
            Option::None => {
                let gc = self.gas_counter(view_config, fc.gas);
                let result = prepare_function_call(
                    self.storage,
                    self.contract_cache,
                    self.config.wasm_config,
                    gc,
                    code_hash,
                    receipt.receiver_id,
                    &fc.method_name,
                );
                let n = self.metrics.not_submitted;
                self.metrics.not_submitted = if n == u64::MAX {
                    n
                } else {
                    n + 1
                };
                result
            },
            Option::Some(i) => {
                proof {
                    pre.lemma_key_index_is(key, i as int);
                }
                let entry = self.map.remove(i);
                let PrepareTaskEntry { key: entry_key, task } = entry;
                let PrepareTask {
                    status,
                    storage,
                    cache,
                    config,
                    gas_counter,
                    code_hash: task_code_hash,
                    account_id,
                    method_name,
                    preps,
                } = task;
                let (new_status, outcome) = consumer_transition(status);
                let ghost new_preps: nat = if outcome is PrepareInline {
                    preps@ + 1
                } else {
                    preps@
                };
                let new_task = PrepareTask {
                    status: new_status,
                    storage,
                    cache,
                    config,
                    gas_counter,
                    code_hash: task_code_hash,
                    account_id,
                    method_name,
                    preps: Ghost(new_preps),
                };
                let new_entry = PrepareTaskEntry { key: entry_key, task: new_task };
                self.map.insert(i, new_entry);
                proof {
                    assert(self.map@ =~= pre.map@.update(i as int, new_entry));
                    assert forall|p: int, q: int|
                        0 <= p < q < self.map@.len() implies self.map@[p].key
                        != self.map@[q].key by {
                        assert(self.map@[p].key == pre.map@[p].key);
                        assert(self.map@[q].key == pre.map@[q].key);
                    }
                    assert forall|j: int|
                        0 <= j < self.queue@.len() implies self.has_key(
                        #[trigger] self.queue@[j]) by {
                        let w = choose|w: int|
                            0 <= w < pre.map@.len() && pre.map@[w].key == pre.queue@[j];
                        assert(self.map@[w].key == pre.queue@[j]);
                    }
                    self.lemma_key_index_is(key, i as int);
                }
                match outcome {
                    ConsumerOutcome::PrepareInline => {
                        let gc = self.gas_counter(view_config, fc.gas);
                        let result = prepare_function_call(
                            self.storage,
                            self.contract_cache,
                            self.config.wasm_config,
                            gc,
                            code_hash,
                            receipt.receiver_id,
                            &fc.method_name,
                        );
                        let n = self.metrics.prepared_in_main_thread;
                        self.metrics.prepared_in_main_thread = if n == u64::MAX {
                            n
                        } else {
                            n + 1
                        };
                        result
                    },
                    ConsumerOutcome::Take(c) => {
                        let n = self.metrics.found_prepared;
                        self.metrics.found_prepared = if n == u64::MAX {
                            n
                        } else {
                            n + 1
                        };
                        c
                    },
                    // between operations no task is `Working`: there is no
                    // party to wait for
                    ConsumerOutcome::Wait => unreached(),
                    // double consumption is excluded by the precondition
                    ConsumerOutcome::Misuse => unreached(),
                }
            },
        }
    }

    /// Run one worker step: dequeue the oldest submitted job and, when its
    /// task is still `Pending`, prepare the contract from the task's own
    /// cloned handles and values. A task that a consumer has already taken
    /// over is left untouched and the worker exits without work. Jobs are
    /// taken strictly in submission (FIFO) order.
    pub fn run_next_worker(&mut self) -> (r: WorkerStep)
        requires
            old(self).wf(),
        ensures
            final(self).wf(),
            Self::consume_frame(*old(self), *final(self)),
            final(self).metrics == old(self).metrics,
            old(self).queue@.len() == 0 ==> r is Idle && final(self).map@ == old(self).map@
                && final(self).queue@ == old(self).queue@,
            old(self).queue@.len() > 0 ==> {
                let key = old(self).queue@[0];
                let i = old(self).key_index(key);
                let t = old(self).task_at(key);
                &&& final(self).queue@ == old(self).queue@.skip(1)
                &&& (forall|j: int|
                    0 <= j < old(self).map@.len() && j != i ==> final(self).map@[j] == old(
                        self,
                    ).map@[j])
                &&& (t.status is Pending ==> {
                    &&& r is Prepared
                    &&& final(self).task_fields_except_status(key, t)
                    &&& final(self).task_at(key).preps@ == t.preps@ + 1
                    &&& (final(self).task_at(key).status matches PrepareTaskStatus::Prepared(c)
                        && contract_matches(c, t.storage, t.cache, t.config, t.gas_counter,
                            t.code_hash, t.account_id, t.method_name@))
                })
                &&& (!(t.status is Pending) ==> r is Skipped && final(self).map@ == old(
                    self,
                ).map@)
            },
    {
        let ghost pre = *self;
        if self.queue.len() == 0 {
            return WorkerStep::Idle;
        }
        let key = self.queue.remove(0);
        let i = match self.find_task_index(key) {
            Option::Some(i) => i,
            // every queued key is in the table
            Option::None => unreached(),
        };
        proof {
            pre.lemma_key_index_is(key, i as int);
        }
        let entry = self.map.remove(i);
        let PrepareTaskEntry { key: entry_key, task } = entry;
        let PrepareTask {
            status,
            storage,
            cache,
            config,
            gas_counter,
            code_hash,
            account_id,
            method_name,
            preps,
        } = task;
        let (swapped, do_prepare) = worker_entry(status);
        if do_prepare {
            let contract = prepare_function_call(
                storage,
                cache,
                config,
                gas_counter,
                code_hash,
                account_id,
                &method_name,
            );
            let new_task = PrepareTask {
                status: PrepareTaskStatus::Prepared(contract),
                storage,
                cache,
                config,
                gas_counter,
                code_hash,
                account_id,
                method_name,
                preps: Ghost(preps@ + 1),
            };
            let new_entry = PrepareTaskEntry { key: entry_key, task: new_task };
            self.map.insert(i, new_entry);
            proof {
                self.lemma_worker_reinsert(pre, key, i as int, new_entry);
            }
            WorkerStep::Prepared
        } else {
            let new_task = PrepareTask {
                status: swapped,
                storage,
                cache,
                config,
                gas_counter,
                code_hash,
                account_id,
                method_name,
                preps,
            };
            let new_entry = PrepareTaskEntry { key: entry_key, task: new_task };
            self.map.insert(i, new_entry);
            proof {
                self.lemma_worker_reinsert(pre, key, i as int, new_entry);
                assert(self.map@ == pre.map@) by {
                    assert(self.map@ =~= pre.map@);
                }
            }
            WorkerStep::Skipped
        }
    }

    /// After removing the entry at `i` and re-inserting a well-formed entry
    /// with the same key there, the table's keys are as before and the
    /// pipeline is at rest again (the queue shrank, which only drops keys).
    proof fn lemma_worker_reinsert(
        self,
        pre: Self,
        key: PrepareTaskKey,
        i: int,
        new_entry: PrepareTaskEntry,
    )
        requires
            pre.wf(),
            0 <= i < pre.map@.len(),
            pre.map@[i].key == key,
            new_entry.key == key,
            task_wf(new_entry.task),
            self.map@ == pre.map@.remove(i).insert(i, new_entry),
            self.queue@ == pre.queue@.skip(1),
            pre.queue@.len() > 0,
        ensures
            self.wf(),
            self.map@ == pre.map@.update(i, new_entry),
            self.map@.len() == pre.map@.len(),
            forall|j: int| 0 <= j < pre.map@.len() ==> self.map@[j].key == pre.map@[j].key,
            forall|j: int| 0 <= j < pre.map@.len() && j != i ==> self.map@[j] == pre.map@[j],
            self.key_index(key) == i,
            self.task_at(key) == new_entry.task,
    {
        assert(self.map@ =~= pre.map@.update(i, new_entry));
        assert forall|p: int, q: int|
            0 <= p < q < self.map@.len() implies self.map@[p].key != self.map@[q].key by {
            assert(self.map@[p].key == pre.map@[p].key);
            assert(self.map@[q].key == pre.map@[q].key);
        }
        assert forall|j: int|
            0 <= j < self.queue@.len() implies self.has_key(#[trigger] self.queue@[j]) by {
            assert(self.queue@[j] == pre.queue@[j + 1]);
            assert(pre.has_key(pre.queue@[j + 1]));
            let w = choose|w: int|
                0 <= w < pre.map@.len() && pre.map@[w].key == pre.queue@[j + 1];
            assert(self.map@[w].key == self.queue@[j]);
        }
        self.lemma_key_index_is(key, i);
    }

    /// Uniqueness: however `submit` was called, the task table holds at most
    /// one entry per `(receipt hash, action index)` key — two distinct
    /// positions never carry the same key.
    pub proof fn lemma_task_key_uniqueness(p: Self)
        requires
            p.wf(),
        ensures
            forall|i: int, j: int| 0 <= i < j < p.map@.len() ==> p.map@[i].key != p.map@[j].key,
    {
    }

    /// At most one preparation: for every key in the table, the builder ran
    /// at most once — by the worker that swapped the task out of `Pending`,
    /// or by the consumer that stole it; the loser of that race exits
    /// without preparing.
    pub proof fn lemma_at_most_one_preparation(p: Self)
        requires
            p.wf(),
        ensures
            forall|i: int| 0 <= i < p.map@.len() ==> (#[trigger] p.map@[i].task).preps@ <= 1,
    {
    }

    /// Deploy shadowing: when a submitted receipt carries a cutting action
    /// (`DeployContract` or `UseGlobalContract`) at index `k`, no task of
    /// that submission sits at index `k` or later, and the receiver leaves
    /// the submission blocked — so a later submission for it changes
    /// nothing.
    pub proof fn lemma_deploy_shadowing(
        pre: Self,
        post: Self,
        receipt: Receipt,
        state: StateSnapshot,
        view_config: Option<ViewConfig>,
        actions: Seq<Action>,
        r: bool,
        k: int,
    )
        requires
            Self::submit_actions_post(pre, post, receipt, state, view_config, actions, r),
            0 <= k < actions.len(),
            action_cuts(actions[k]),
        ensures
            forall|j: int|
                pre.map@.len() <= j < post.map@.len() ==> post.map@[j].key.action_index < k,
            post.account_blocked(receipt.receiver_id),
            r == true,
    {
        lemma_cut_index(actions);
        if cut_index(actions) > k {
            assert(!action_cuts(actions[k]));
        }
        assert(cut_index(actions) <= k);
        assert(cut_index(actions) < actions.len());
        assert(post.block_accounts@ == pre.block_accounts@.push(receipt.receiver_id));
        assert(post.block_accounts@[post.block_accounts@.len() - 1] == receipt.receiver_id);
    }

    /// The number of entries in the task table.
    pub fn task_count(&self) -> (r: usize)
        ensures
            r == self.map@.len(),
    {
        self.map.len()
    }

    /// The number of submitted jobs not yet taken by a worker step.
    pub fn queue_len(&self) -> (r: usize)
        ensures
            r == self.queue@.len(),
    {
        self.queue.len()
    }

    /// Whether preparation for `a` is blocked.
    pub fn is_account_blocked(&self, a: AccountId) -> (r: bool)
        ensures
            r == self.account_blocked(a),
    {
        contains_account(&self.block_accounts, a)
    }

    /// Whether preparation against `g` is blocked.
    pub fn is_global_blocked(&self, g: GlobalContractIdentifier) -> (r: bool)
        ensures
            r == self.global_blocked(g),
    {
        contains_gid(&self.block_global_contracts, g)
    }

    /// The phase of the task under `(receipt_hash, action_index)`.
    pub fn task_phase(&self, receipt_hash: CryptoHash, action_index: usize) -> (r: TaskPhase)
        requires
            self.wf(),
        ensures
            ({
                let key = (PrepareTaskKey { receipt_id: receipt_hash, action_index });
                if !self.has_key(key) {
                    r is Absent
                } else {
                    match self.map@[self.key_index(key)].task.status {
                        PrepareTaskStatus::Pending => r is Pending,
                        PrepareTaskStatus::Working => r is Working,
                        PrepareTaskStatus::Prepared(_) => r is Prepared,
                        PrepareTaskStatus::Finished => r is Finished,
                    }
                }
            }),
    {
        let key = PrepareTaskKey { receipt_id: receipt_hash, action_index };
        match self.find_task_index(key) {
            Option::None => TaskPhase::Absent,
            Option::Some(i) => {
                proof {
                    self.lemma_key_index_is(key, i as int);
                }
                match &self.map[i].task.status {
                    PrepareTaskStatus::Pending => TaskPhase::Pending,
                    PrepareTaskStatus::Working => TaskPhase::Working,
                    PrepareTaskStatus::Prepared(_) => TaskPhase::Prepared,
                    PrepareTaskStatus::Finished => TaskPhase::Finished,
                }
            },
        }
    }
}

} // verus!
