//! A read-only snapshot of committed state, holding what code-hash resolution
//! reads: each account's contract binding, and the code hash stored for each
//! distributed global contract. All reads are side-effect free; an entry that
//! is absent (or that the underlying storage failed to yield) simply resolves
//! to nothing.

use vstd::prelude::*;
use crate::types::{AccountContract, AccountId, CryptoHash};

verus! {

/// A read-only state snapshot for one chunk.
pub struct StateSnapshot {
    /// The contract binding of each existing account.
    pub accounts: Vec<(AccountId, AccountContract)>,
    /// The code hash stored under each global-contract-code entry that is
    /// keyed by a distributing account.
    pub global_code: Vec<(AccountId, CryptoHash)>,
}

/// The binding of the first entry for `id`, if any.
pub open spec fn find_account(entries: Seq<(AccountId, AccountContract)>, id: AccountId) -> Option<
    AccountContract,
>
    decreases entries.len(),
{
    if entries.len() == 0 {
        Option::None
    } else if entries[0].0 == id {
        Option::Some(entries[0].1)
    } else {
        find_account(entries.skip(1), id)
    }
}

/// The code hash of the first global-contract-code entry for `id`, if any.
pub open spec fn find_global_code(entries: Seq<(AccountId, CryptoHash)>, id: AccountId) -> Option<
    CryptoHash,
>
    decreases entries.len(),
{
    if entries.len() == 0 {
        Option::None
    } else if entries[0].0 == id {
        Option::Some(entries[0].1)
    } else {
        find_global_code(entries.skip(1), id)
    }
}

proof fn lemma_find_account_step(entries: Seq<(AccountId, AccountContract)>, id: AccountId, i: int)
    requires
        0 <= i <= entries.len(),
        forall|j: int| 0 <= j < i ==> entries[j].0 != id,
    ensures
        find_account(entries, id) == find_account(entries.skip(i), id),
    decreases i,
{
    if i > 0 {
        lemma_find_account_step(entries.skip(1), id, i - 1);
        assert(entries.skip(1).skip(i - 1) =~= entries.skip(i));
    } else {
        assert(entries.skip(0) =~= entries);
    }
}

proof fn lemma_find_global_code_step(entries: Seq<(AccountId, CryptoHash)>, id: AccountId, i: int)
    requires
        0 <= i <= entries.len(),
        forall|j: int| 0 <= j < i ==> entries[j].0 != id,
    ensures
        find_global_code(entries, id) == find_global_code(entries.skip(i), id),
    decreases i,
{
    if i > 0 {
        lemma_find_global_code_step(entries.skip(1), id, i - 1);
        assert(entries.skip(1).skip(i - 1) =~= entries.skip(i));
    } else {
        assert(entries.skip(0) =~= entries);
    }
}

impl StateSnapshot {
    /// A snapshot with no accounts and no global contract code.
    pub fn empty() -> (r: StateSnapshot)
        ensures
            r.accounts@.len() == 0,
            r.global_code@.len() == 0,
    {
        StateSnapshot { accounts: Vec::new(), global_code: Vec::new() }
    }

    /// The contract binding of account `id` in this snapshot, or nothing when
    /// the account does not exist.
    pub fn get_account_contract(&self, id: AccountId) -> (r: Option<AccountContract>)
        ensures
            r == find_account(self.accounts@, id),
    {
        let n = self.accounts.len();
        let mut i: usize = 0;
        while i < n
            invariant
                n == self.accounts@.len(),
                0 <= i <= n,
                forall|j: int| 0 <= j < i ==> self.accounts@[j].0 != id,
            decreases n - i,
        {
            if self.accounts[i].0 == id {
                proof {
                    lemma_find_account_step(self.accounts@, id, i as int);
                }
                return Option::Some(self.accounts[i].1);
            }
            i += 1;
        }
        proof {
            lemma_find_account_step(self.accounts@, id, n as int);
        }
        Option::None
    }

    /// The code hash stored for the global contract distributed by `id`, or
    /// nothing when no such entry exists.
    pub fn get_global_code_hash(&self, id: AccountId) -> (r: Option<CryptoHash>)
        ensures
            r == find_global_code(self.global_code@, id),
    {
        let n = self.global_code.len();
        let mut i: usize = 0;
        while i < n
            invariant
                n == self.global_code@.len(),
                0 <= i <= n,
                forall|j: int| 0 <= j < i ==> self.global_code@[j].0 != id,
            decreases n - i,
        {
            if self.global_code[i].0 == id {
                proof {
                    lemma_find_global_code_step(self.global_code@, id, i as int);
                }
                return Option::Some(self.global_code[i].1);
            }
            i += 1;
        }
        proof {
            lemma_find_global_code_step(self.global_code@, id, n as int);
        }
        Option::None
    }
}

} // verus!
