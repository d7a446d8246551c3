//! The prepared-contract builder: a pure function of storage, cache, config,
//! gas counter, code hash, account and method name. Compilation itself is an
//! external concern; the pipeline's guarantee is about which inputs reach the
//! builder, so the prepared contract records exactly those inputs.

use vstd::prelude::*;
use crate::gas::{GasCounter, VMConfig};
use crate::types::{AccountId, CryptoHash};

verus! {

/// A cloneable, thread-safe handle to the storage of WASM blobs.
#[derive(Clone, Copy, PartialEq, Eq, Structural, Debug)]
pub struct ContractStorage {
    pub id: u64,
}

/// A cloneable handle to the compile cache.
#[derive(Clone, Copy, PartialEq, Eq, Structural, Debug)]
pub struct ContractCache {
    pub id: u64,
}

/// A contract ready for invocation: the builder's inputs, bound together.
/// Preparation failures are embedded here as well (they surface when the
/// contract is invoked), so the consumer receives every outcome uniformly.
pub struct PreparedContract {
    pub storage: ContractStorage,
    pub cache: Option<ContractCache>,
    pub config: VMConfig,
    pub gas_counter: GasCounter,
    pub code_hash: CryptoHash,
    pub account_id: AccountId,
    pub method_name: String,
}

/// Whether `c` is the contract the builder returns for these inputs.
pub open spec fn contract_matches(
    c: PreparedContract,
    storage: ContractStorage,
    cache: Option<ContractCache>,
    config: VMConfig,
    gas_counter: GasCounter,
    code_hash: CryptoHash,
    account_id: AccountId,
    method_name: Seq<char>,
) -> bool {
    &&& c.storage == storage
    &&& c.cache == cache
    &&& c.config == config
    &&& c.gas_counter == gas_counter
    &&& c.code_hash == code_hash
    &&& c.account_id == account_id
    &&& c.method_name@ == method_name
}

/// Builds the prepared contract for a function call: idempotent modulo the
/// cache, and total — it never fails loudly.
pub fn prepare_function_call(
    storage: ContractStorage,
    cache: Option<ContractCache>,
    config: VMConfig,
    gas_counter: GasCounter,
    code_hash: CryptoHash,
    account_id: AccountId,
    method_name: &String,
) -> (r: PreparedContract)
    ensures
        contract_matches(r, storage, cache, config, gas_counter, code_hash, account_id,
            method_name@),
{
    PreparedContract {
        storage,
        cache,
        config,
        gas_counter,
        code_hash,
        account_id,
        method_name: method_name.clone(),
    }
}

} // verus!
