//! The code resolver: from a receiver account and the state snapshot, derive
//! the contract code hash a function call would run, honouring the blocked
//! global contracts. A skipped resolution is silent: the receipt simply is
//! not pre-prepared.

use vstd::prelude::*;
use crate::state::{find_account, find_global_code, StateSnapshot};
use crate::types::{AccountContract, AccountId, CryptoHash, GlobalContractIdentifier};

verus! {

/// Whether `g` occurs in the sequence of blocked global contracts.
pub open spec fn gid_in(blocked: Seq<GlobalContractIdentifier>, g: GlobalContractIdentifier) -> bool {
    exists|i: int| 0 <= i < blocked.len() && blocked[i] == g
}

/// Whether `a` occurs in the sequence of blocked accounts.
pub open spec fn account_in(blocked: Seq<AccountId>, a: AccountId) -> bool {
    exists|i: int| 0 <= i < blocked.len() && blocked[i] == a
}

/// The code hash a function call on `account_id` resolves to, or nothing when
/// the account is missing, has no code, or depends on a blocked or missing
/// global contract.
pub open spec fn resolve_code_hash_spec(
    state: StateSnapshot,
    blocked_globals: Seq<GlobalContractIdentifier>,
    account_id: AccountId,
) -> Option<CryptoHash> {
    match find_account(state.accounts@, account_id) {
        Option::None => Option::None,
        Option::Some(binding) => match binding {
            AccountContract::NoCode => Option::None,
            AccountContract::Local(h) => Option::Some(h),
            AccountContract::Global(h) => {
                if gid_in(blocked_globals, GlobalContractIdentifier::CodeHash(h)) {
                    Option::None
                } else {
                    Option::Some(h)
                }
            },
            AccountContract::GlobalByAccount(gid) => {
                if gid_in(blocked_globals, GlobalContractIdentifier::AccountId(gid)) {
                    Option::None
                } else {
                    find_global_code(state.global_code@, gid)
                }
            },
        },
    }
}

/// Whether `g` is among the blocked global contracts.
pub fn contains_gid(blocked: &Vec<GlobalContractIdentifier>, g: GlobalContractIdentifier) -> (r:
    bool)
    ensures
        r == gid_in(blocked@, g),
{
    let n = blocked.len();
    let mut i: usize = 0;
    while i < n
        invariant
            n == blocked@.len(),
            0 <= i <= n,
            forall|j: int| 0 <= j < i ==> blocked@[j] != g,
        decreases n - i,
    {
        if blocked[i] == g {
            return true;
        }
        i += 1;
    }
    false
}

/// Whether `a` is among the blocked accounts.
pub fn contains_account(blocked: &Vec<AccountId>, a: AccountId) -> (r: bool)
    ensures
        r == account_in(blocked@, a),
{
    let n = blocked.len();
    let mut i: usize = 0;
    while i < n
        invariant
            n == blocked@.len(),
            0 <= i <= n,
            forall|j: int| 0 <= j < i ==> blocked@[j] != a,
        decreases n - i,
    {
        if blocked[i] == a {
            return true;
        }
        i += 1;
    }
    false
}

/// Resolves the code hash of `resolve_code_hash_spec`, reading the snapshot
/// with no side effects.
pub fn resolve_code_hash(
    state: &StateSnapshot,
    blocked_globals: &Vec<GlobalContractIdentifier>,
    account_id: AccountId,
) -> (r: Option<CryptoHash>)
    ensures
        r == resolve_code_hash_spec(*state, blocked_globals@, account_id),
{
    match state.get_account_contract(account_id) {
        Option::None => Option::None,
        Option::Some(binding) => match binding {
            AccountContract::NoCode => Option::None,
            AccountContract::Local(h) => Option::Some(h),
            AccountContract::Global(h) => {
                if contains_gid(blocked_globals, GlobalContractIdentifier::CodeHash(h)) {
                    Option::None
                } else {
                    Option::Some(h)
                }
            },
            AccountContract::GlobalByAccount(gid) => {
                if contains_gid(blocked_globals, GlobalContractIdentifier::AccountId(gid)) {
                    Option::None
                } else {
                    state.get_global_code_hash(gid)
                }
            },
        },
    }
}

} // verus!
