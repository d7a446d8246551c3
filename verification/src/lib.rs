//! A receipt preparation pipeline: a keyed-work scheduler that speculatively
//! prepares smart-contract code ahead of execution within a chunk of receipts.
//!
//! `submit` walks a receipt's actions, resolves each function call to a
//! contract code hash against a read-only state snapshot, and enqueues a
//! preparation task per `(receipt hash, action index)` key. A worker drains
//! the queue in FIFO order. `get_contract` hands the prepared contract to the
//! consumer: taken from the table when a worker got there first, prepared
//! inline otherwise. Deployments and global-contract distributions block
//! further preparation for the affected account or global id for the rest of
//! the chunk, since the committed state the pipeline reads would go stale.

mod gas;
mod pipeline;
mod prepare;
mod resolve;
mod sample;
mod state;
mod task;
mod types;

pub use gas::{ExtCostsConfig, GasCounter, RuntimeConfig, VMConfig};
pub use pipeline::{
    PipelineMetrics, PrepareTaskEntry, ReceiptPreparationPipeline, TaskPhase, WorkerStep,
};
pub use task::{
    consumer_transition, worker_entry, ConsumerOutcome, PrepareTask, PrepareTaskKey,
    PrepareTaskStatus,
};
pub use prepare::{ContractCache, ContractStorage, PreparedContract};
pub use resolve::resolve_code_hash;
pub use sample::{first_running_from, pick_two_distinct, sample_queryable_node, sample_two_nodes};
pub use state::StateSnapshot;
pub use types::{
    AccountContract, AccountId, Action, ActionReceipt, CryptoHash, FunctionCallAction,
    GlobalContractIdentifier, Receipt, ReceiptEnum, ViewConfig,
};
