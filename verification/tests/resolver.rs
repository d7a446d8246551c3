use pipelining::{
    resolve_code_hash, AccountContract, AccountId, CryptoHash, GlobalContractIdentifier,
    StateSnapshot,
};

fn account(id: u64) -> AccountId {
    AccountId { id }
}

fn hash(value: u64) -> CryptoHash {
    CryptoHash { value }
}

#[test]
fn resolves_local_contract() {
    let state = StateSnapshot {
        accounts: vec![(account(1), AccountContract::Local(hash(0xCAFE)))],
        global_code: vec![],
    };
    let blocked = vec![];
    assert_eq!(resolve_code_hash(&state, &blocked, account(1)), Some(hash(0xCAFE)));
}

#[test]
fn missing_account_resolves_to_nothing() {
    let state = StateSnapshot::empty();
    let blocked = vec![];
    assert_eq!(resolve_code_hash(&state, &blocked, account(1)), None);
}

#[test]
fn no_code_resolves_to_nothing() {
    let state = StateSnapshot {
        accounts: vec![(account(1), AccountContract::NoCode)],
        global_code: vec![],
    };
    let blocked = vec![];
    assert_eq!(resolve_code_hash(&state, &blocked, account(1)), None);
}

#[test]
fn global_contract_resolves_unless_blocked() {
    let state = StateSnapshot {
        accounts: vec![(account(1), AccountContract::Global(hash(0x77)))],
        global_code: vec![],
    };
    let no_block = vec![];
    assert_eq!(resolve_code_hash(&state, &no_block, account(1)), Some(hash(0x77)));

    let blocked = vec![GlobalContractIdentifier::CodeHash(hash(0x77))];
    assert_eq!(resolve_code_hash(&state, &blocked, account(1)), None);
}

#[test]
fn global_by_account_follows_global_code_entry() {
    let state = StateSnapshot {
        accounts: vec![(account(1), AccountContract::GlobalByAccount(account(9)))],
        global_code: vec![(account(9), hash(0x55))],
    };
    let no_block = vec![];
    assert_eq!(resolve_code_hash(&state, &no_block, account(1)), Some(hash(0x55)));

    let blocked = vec![GlobalContractIdentifier::AccountId(account(9))];
    assert_eq!(resolve_code_hash(&state, &blocked, account(1)), None);
}

#[test]
fn global_by_account_without_entry_resolves_to_nothing() {
    let state = StateSnapshot {
        accounts: vec![(account(1), AccountContract::GlobalByAccount(account(9)))],
        global_code: vec![],
    };
    let no_block = vec![];
    assert_eq!(resolve_code_hash(&state, &no_block, account(1)), None);
}

#[test]
fn first_account_entry_wins() {
    let state = StateSnapshot {
        accounts: vec![
            (account(1), AccountContract::Local(hash(0x10))),
            (account(1), AccountContract::Local(hash(0x20))),
        ],
        global_code: vec![],
    };
    let blocked = vec![];
    assert_eq!(resolve_code_hash(&state, &blocked, account(1)), Some(hash(0x10)));
}
