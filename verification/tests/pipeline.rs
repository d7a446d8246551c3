use pipelining::{
    AccountContract, AccountId, Action, ActionReceipt, ContractCache, ContractStorage,
    CryptoHash, ExtCostsConfig, FunctionCallAction, GlobalContractIdentifier, PrepareTaskStatus,
    Receipt, ReceiptEnum, ReceiptPreparationPipeline, RuntimeConfig, StateSnapshot, TaskPhase,
    VMConfig, ViewConfig, WorkerStep,
};

fn test_config() -> RuntimeConfig {
    RuntimeConfig {
        wasm_config: VMConfig {
            ext_costs: ExtCostsConfig { id: 7 },
            regular_op_cost: 3,
            max_gas_burnt: 300_000_000_000_000,
        },
    }
}

fn new_pipeline() -> ReceiptPreparationPipeline {
    ReceiptPreparationPipeline::new(
        test_config(),
        Some(ContractCache { id: 11 }),
        ContractStorage { id: 5 },
    )
}

fn function_call_receipt(hash: u64, receiver: u64, method: &str, gas: u64) -> Receipt {
    Receipt {
        hash: CryptoHash { value: hash },
        receiver_id: AccountId { id: receiver },
        receipt: ReceiptEnum::Action(ActionReceipt {
            actions: vec![Action::FunctionCall(FunctionCallAction {
                method_name: String::from(method),
                gas,
            })],
        }),
    }
}

fn state_with_local(account: u64, code_hash: u64) -> StateSnapshot {
    StateSnapshot {
        accounts: vec![(
            AccountId { id: account },
            AccountContract::Local(CryptoHash { value: code_hash }),
        )],
        global_code: vec![],
    }
}

#[test]
fn single_function_call_pre_prepared() {
    let mut p = new_pipeline();
    let state = state_with_local(1, 0xCAFE);
    let r = function_call_receipt(0x11, 1, "foo", 1_000_000_000_000);

    assert!(p.submit(&r, &state, None));
    assert_eq!(p.metrics.submitted, 1);
    assert_eq!(p.task_count(), 1);
    assert_eq!(p.queue_len(), 1);
    assert_eq!(p.task_phase(CryptoHash { value: 0x11 }, 0), TaskPhase::Pending);

    assert_eq!(p.run_next_worker(), WorkerStep::Prepared);
    assert_eq!(p.task_phase(CryptoHash { value: 0x11 }, 0), TaskPhase::Prepared);

    let contract = p.get_contract(&r, CryptoHash { value: 0xCAFE }, 0, None);
    assert_eq!(contract.code_hash.value, 0xCAFE);
    assert_eq!(contract.account_id.id, 1);
    assert_eq!(contract.method_name, "foo");
    assert_eq!(contract.gas_counter.prepaid_gas, 1_000_000_000_000);
    assert!(!contract.gas_counter.is_view);
    assert_eq!(p.metrics.found_prepared, 1);
    assert_eq!(p.metrics.prepared_in_main_thread, 0);
    assert_eq!(p.metrics.not_submitted, 0);
    assert_eq!(p.task_phase(CryptoHash { value: 0x11 }, 0), TaskPhase::Finished);
}

#[test]
fn pending_steal() {
    let mut p = new_pipeline();
    let state = state_with_local(1, 0xCAFE);
    let r1 = function_call_receipt(0x21, 1, "foo", 10);
    let r2 = function_call_receipt(0x22, 1, "bar", 20);

    assert!(p.submit(&r1, &state, None));
    assert!(p.submit(&r2, &state, None));
    assert_eq!(p.task_count(), 2);
    assert_eq!(p.queue_len(), 2);

    // the consumer arrives before any worker: it steals the pending task
    let contract = p.get_contract(&r1, CryptoHash { value: 0xCAFE }, 0, None);
    assert_eq!(contract.code_hash.value, 0xCAFE);
    assert_eq!(contract.method_name, "foo");
    assert_eq!(p.metrics.prepared_in_main_thread, 1);
    assert_eq!(p.task_phase(CryptoHash { value: 0x21 }, 0), TaskPhase::Finished);

    // the worker for the stolen task observes non-Pending and exits; the
    // next worker prepares the second receipt's task (FIFO order)
    assert_eq!(p.run_next_worker(), WorkerStep::Skipped);
    assert_eq!(p.run_next_worker(), WorkerStep::Prepared);
    assert_eq!(p.task_phase(CryptoHash { value: 0x22 }, 0), TaskPhase::Prepared);
    assert_eq!(p.run_next_worker(), WorkerStep::Idle);
    assert_eq!(p.metrics.prepared_in_main_thread, 1);
}

#[test]
fn deploy_blocks_subsequent_submit() {
    let mut p = new_pipeline();
    let state = state_with_local(1, 0xCAFE);
    let deploy = Receipt {
        hash: CryptoHash { value: 0x31 },
        receiver_id: AccountId { id: 1 },
        receipt: ReceiptEnum::Action(ActionReceipt { actions: vec![Action::DeployContract] }),
    };

    assert!(p.submit(&deploy, &state, None));
    assert!(p.is_account_blocked(AccountId { id: 1 }));
    assert_eq!(p.task_count(), 0);

    let later = function_call_receipt(0x32, 1, "foo", 10);
    assert!(!p.submit(&later, &state, None));
    assert_eq!(p.task_count(), 0);
    assert_eq!(p.metrics.submitted, 0);
}

#[test]
fn deploy_mid_receipt_truncates() {
    let mut p = new_pipeline();
    let state = state_with_local(1, 0xCAFE);
    let r = Receipt {
        hash: CryptoHash { value: 0x41 },
        receiver_id: AccountId { id: 1 },
        receipt: ReceiptEnum::Action(ActionReceipt {
            actions: vec![
                Action::FunctionCall(FunctionCallAction {
                    method_name: String::from("a"),
                    gas: 1,
                }),
                Action::DeployContract,
                Action::FunctionCall(FunctionCallAction {
                    method_name: String::from("b"),
                    gas: 2,
                }),
            ],
        }),
    };

    assert!(p.submit(&r, &state, None));
    // only the function call before the deployment got a task
    assert_eq!(p.task_count(), 1);
    assert_eq!(p.task_phase(CryptoHash { value: 0x41 }, 0), TaskPhase::Pending);
    assert_eq!(p.task_phase(CryptoHash { value: 0x41 }, 2), TaskPhase::Absent);
    assert!(p.is_account_blocked(AccountId { id: 1 }));
}

#[test]
fn missing_account() {
    let mut p = new_pipeline();
    let state = state_with_local(1, 0xCAFE);
    let ghost_receipt = function_call_receipt(0x51, 99, "foo", 10);

    assert!(!p.submit(&ghost_receipt, &state, None));
    assert_eq!(p.task_count(), 0);

    let contract = p.get_contract(&ghost_receipt, CryptoHash { value: 0xBEEF }, 0, None);
    assert_eq!(contract.code_hash.value, 0xBEEF);
    assert_eq!(p.metrics.not_submitted, 1);
    assert_eq!(p.metrics.found_prepared, 0);
}

#[test]
fn inline_view_call_gas_counter() {
    let mut p = new_pipeline();
    let state = state_with_local(1, 0xCAFE);
    let r = function_call_receipt(0x52, 99, "view_it", 10);
    let contract = p.get_contract(&r, CryptoHash { value: 0xCAFE }, 0, Some(ViewConfig {
        max_gas_burnt: 4_000,
    }));
    assert!(contract.gas_counter.is_view);
    assert_eq!(contract.gas_counter.max_gas_burnt, 4_000);
    assert_eq!(contract.gas_counter.prepaid_gas, 10);
}

#[test]
fn global_distribution_then_dependent_call() {
    let mut p = new_pipeline();
    let g = GlobalContractIdentifier::CodeHash(CryptoHash { value: 0x61 });
    let distribution = Receipt {
        hash: CryptoHash { value: 0x62 },
        receiver_id: AccountId { id: 3 },
        receipt: ReceiptEnum::GlobalContractDistribution(g),
    };
    assert!(!p.submit(&distribution, &StateSnapshot::empty(), None));
    assert!(p.is_global_blocked(g));

    // bob depends on the just-distributed global contract: no task
    let state = StateSnapshot {
        accounts: vec![(
            AccountId { id: 2 },
            AccountContract::Global(CryptoHash { value: 0x61 }),
        )],
        global_code: vec![],
    };
    let r1 = function_call_receipt(0x63, 2, "foo", 10);
    assert!(!p.submit(&r1, &state, None));
    assert_eq!(p.task_count(), 0);

    let contract = p.get_contract(&r1, CryptoHash { value: 0x61 }, 0, None);
    assert_eq!(contract.code_hash.value, 0x61);
    assert_eq!(p.metrics.not_submitted, 1);
}

#[test]
fn double_consume_refused() {
    let mut p = new_pipeline();
    let state = state_with_local(1, 0xCAFE);
    let r = function_call_receipt(0x71, 1, "foo", 10);
    assert!(p.submit(&r, &state, None));
    assert_eq!(p.run_next_worker(), WorkerStep::Prepared);

    let contract = p.get_contract(&r, CryptoHash { value: 0xCAFE }, 0, None);
    assert_eq!(contract.code_hash.value, 0xCAFE);
    assert_eq!(p.task_phase(CryptoHash { value: 0x71 }, 0), TaskPhase::Finished);

    // a second consumption of the same key is a caller error: the consumer
    // step refuses a finished task
    let (after, outcome) = pipelining::consumer_transition(PrepareTaskStatus::Finished);
    assert!(matches!(after, PrepareTaskStatus::Finished));
    assert!(matches!(outcome, pipelining::ConsumerOutcome::Misuse));
}

#[test]
fn duplicate_submit_is_noop() {
    let mut p = new_pipeline();
    let state = state_with_local(1, 0xCAFE);
    let r = function_call_receipt(0x81, 1, "foo", 10);
    assert!(p.submit(&r, &state, None));
    assert_eq!(p.task_count(), 1);
    // the same receipt again: the key is taken, nothing is scheduled
    assert!(!p.submit(&r, &state, None));
    assert_eq!(p.task_count(), 1);
    assert_eq!(p.metrics.submitted, 1);
    assert_eq!(p.queue_len(), 1);
}

#[test]
fn promise_yield_schedules_like_action() {
    let mut p = new_pipeline();
    let state = state_with_local(1, 0xCAFE);
    let r = Receipt {
        hash: CryptoHash { value: 0x91 },
        receiver_id: AccountId { id: 1 },
        receipt: ReceiptEnum::PromiseYield(ActionReceipt {
            actions: vec![Action::FunctionCall(FunctionCallAction {
                method_name: String::from("yielded"),
                gas: 10,
            })],
        }),
    };
    assert!(p.submit(&r, &state, None));
    assert_eq!(p.task_count(), 1);
}

#[test]
fn data_receipts_are_declined() {
    let mut p = new_pipeline();
    let r = Receipt {
        hash: CryptoHash { value: 0xA1 },
        receiver_id: AccountId { id: 1 },
        receipt: ReceiptEnum::Data,
    };
    assert!(!p.submit(&r, &StateSnapshot::empty(), None));
    assert_eq!(p.task_count(), 0);
    let r2 = Receipt {
        hash: CryptoHash { value: 0xA2 },
        receiver_id: AccountId { id: 1 },
        receipt: ReceiptEnum::PromiseResume,
    };
    assert!(!p.submit(&r2, &StateSnapshot::empty(), None));
    assert_eq!(p.task_count(), 0);
}

#[test]
fn use_global_contract_blocks_like_deploy() {
    let mut p = new_pipeline();
    let state = state_with_local(1, 0xCAFE);
    let r = Receipt {
        hash: CryptoHash { value: 0xB1 },
        receiver_id: AccountId { id: 1 },
        receipt: ReceiptEnum::Action(ActionReceipt { actions: vec![Action::UseGlobalContract] }),
    };
    assert!(p.submit(&r, &state, None));
    assert!(p.is_account_blocked(AccountId { id: 1 }));
    assert_eq!(p.task_count(), 0);
}

#[test]
fn blocked_receiver_declines_even_distribution() {
    let mut p = new_pipeline();
    let state = state_with_local(1, 0xCAFE);
    let deploy = Receipt {
        hash: CryptoHash { value: 0xC1 },
        receiver_id: AccountId { id: 1 },
        receipt: ReceiptEnum::Action(ActionReceipt { actions: vec![Action::DeployContract] }),
    };
    assert!(p.submit(&deploy, &state, None));

    // the receiver is blocked before the payload is even examined, so the
    // global id is not recorded
    let g = GlobalContractIdentifier::AccountId(AccountId { id: 8 });
    let distribution = Receipt {
        hash: CryptoHash { value: 0xC2 },
        receiver_id: AccountId { id: 1 },
        receipt: ReceiptEnum::GlobalContractDistribution(g),
    };
    assert!(!p.submit(&distribution, &state, None));
    assert!(!p.is_global_blocked(g));
}

#[test]
fn gas_counter_formula() {
    let p = new_pipeline();
    let gc = p.gas_counter(None, 42);
    assert_eq!(gc.ext_costs.id, 7);
    assert_eq!(gc.regular_op_cost, 3);
    assert_eq!(gc.max_gas_burnt, 300_000_000_000_000);
    assert_eq!(gc.prepaid_gas, 42);
    assert!(!gc.is_view);

    let gv = p.gas_counter(Some(ViewConfig { max_gas_burnt: 1_000 }), 42);
    assert_eq!(gv.max_gas_burnt, 1_000);
    assert!(gv.is_view);
}
