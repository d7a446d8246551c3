//! The runtime configuration and the per-invocation gas counter, holding the
//! fields that counter construction reads. A fresh counter is built per task
//! and per consumer call; counters are never shared.

use vstd::prelude::*;
use crate::types::ViewConfig;

verus! {

/// The table of external operation costs. The pipeline only hands it through,
/// so a single opaque identifier stands for its contents.
#[derive(Clone, Copy, PartialEq, Eq, Structural, Debug)]
pub struct ExtCostsConfig {
    pub id: u64,
}

/// The WASM-engine part of the runtime configuration.
#[derive(Clone, Copy, PartialEq, Eq, Structural, Debug)]
pub struct VMConfig {
    pub ext_costs: ExtCostsConfig,
    pub regular_op_cost: u64,
    /// The configured gas-burnt limit, applied when no view config overrides
    /// it.
    pub max_gas_burnt: u64,
}

/// The runtime configuration shared by every request of one chunk.
#[derive(Clone, Copy, PartialEq, Eq, Structural, Debug)]
pub struct RuntimeConfig {
    pub wasm_config: VMConfig,
}

/// A per-invocation gas accounting object.
#[derive(Clone, Copy, PartialEq, Eq, Structural, Debug)]
pub struct GasCounter {
    pub ext_costs: ExtCostsConfig,
    pub max_gas_burnt: u64,
    pub regular_op_cost: u64,
    /// The gas the action attached to the call.
    pub prepaid_gas: u64,
    /// Whether this is a read-only view invocation.
    pub is_view: bool,
}

/// The gas counter built for a call with `gas` attached, under `config`: the
/// burn limit comes from the view config when one is given, from the runtime
/// config otherwise, and the counter is a view counter exactly when a view
/// config is given.
pub open spec fn gas_counter_spec(
    config: RuntimeConfig,
    view_config: Option<ViewConfig>,
    gas: u64,
) -> GasCounter {
    GasCounter {
        ext_costs: config.wasm_config.ext_costs,
        max_gas_burnt: match view_config {
            Option::Some(v) => v.max_gas_burnt,
            Option::None => config.wasm_config.max_gas_burnt,
        },
        regular_op_cost: config.wasm_config.regular_op_cost,
        prepaid_gas: gas,
        is_view: view_config is Some,
    }
}

/// Builds the gas counter of `gas_counter_spec`.
pub fn new_gas_counter(config: &RuntimeConfig, view_config: Option<ViewConfig>, gas: u64) -> (r:
    GasCounter)
    ensures
        r == gas_counter_spec(*config, view_config, gas),
{
    let max_gas_burnt: u64 = match view_config {
        Option::Some(v) => v.max_gas_burnt,
        Option::None => config.wasm_config.max_gas_burnt,
    };
    GasCounter {
        ext_costs: config.wasm_config.ext_costs,
        max_gas_burnt,
        regular_op_cost: config.wasm_config.regular_op_cost,
        prepaid_gas: gas,
        is_view: view_config.is_some(),
    }
}

} // verus!
