//! The data the pipeline reads from receipts and actions, modelled as plain
//! values: a hash, an account id, the variants of an action and of a receipt
//! payload that the scheduler distinguishes.

use vstd::prelude::*;

verus! {

/// A contract code hash (or a receipt hash).
#[derive(Clone, Copy, PartialEq, Eq, Structural, Debug)]
pub struct CryptoHash {
    pub value: u64,
}

/// An account identifier.
#[derive(Clone, Copy, PartialEq, Eq, Structural, Debug)]
pub struct AccountId {
    pub id: u64,
}

/// Identifies a global contract: by its code hash, or by the account that
/// distributed it.
#[derive(Clone, Copy, PartialEq, Eq, Structural, Debug)]
pub enum GlobalContractIdentifier {
    CodeHash(CryptoHash),
    AccountId(AccountId),
}

/// The contract binding of an account, as read from committed state.
#[derive(Clone, Copy, PartialEq, Eq, Structural, Debug)]
pub enum AccountContract {
    /// The account has no contract deployed.
    NoCode,
    /// The account has its own contract with the given code hash.
    Local(CryptoHash),
    /// The account uses a global contract, referenced by code hash.
    Global(CryptoHash),
    /// The account uses a global contract, referenced by the distributing
    /// account.
    GlobalByAccount(AccountId),
}

/// The payload of a function-call action that the pipeline reads.
pub struct FunctionCallAction {
    pub method_name: String,
    pub gas: u64,
}

/// One action of a receipt. The pipeline reacts to `FunctionCall`,
/// `DeployContract` and `UseGlobalContract`; the remaining variants are
/// inert.
pub enum Action {
    FunctionCall(FunctionCallAction),
    DeployContract,
    UseGlobalContract,
    Delegate,
    CreateAccount,
    Transfer,
    Stake,
    AddKey,
    DeleteKey,
    DeleteAccount,
    DeployGlobalContract,
}

/// An ordered list of actions, as carried by `Action` and `PromiseYield`
/// receipts.
pub struct ActionReceipt {
    pub actions: Vec<Action>,
}

/// A receipt payload.
pub enum ReceiptEnum {
    Action(ActionReceipt),
    PromiseYield(ActionReceipt),
    GlobalContractDistribution(GlobalContractIdentifier),
    Data,
    PromiseResume,
}

/// A receipt: a stable hash, a receiver account, and a payload.
pub struct Receipt {
    pub hash: CryptoHash,
    pub receiver_id: AccountId,
    pub receipt: ReceiptEnum,
}

/// A view call's own gas ceiling.
#[derive(Clone, Copy, PartialEq, Eq, Structural, Debug)]
pub struct ViewConfig {
    pub max_gas_burnt: u64,
}

impl Receipt {
    /// The receiver account of this receipt.
    pub fn receiver_id(&self) -> (r: AccountId)
        ensures
            r == self.receiver_id,
    {
        self.receiver_id
    }

    /// The stable hash of this receipt.
    pub fn get_hash(&self) -> (r: CryptoHash)
        ensures
            r == self.hash,
    {
        self.hash
    }
}

/// The function-call payload of an action known to be a `FunctionCall`.
pub open spec fn fc_of(a: Action) -> FunctionCallAction {
    match a {
        Action::FunctionCall(f) => f,
        _ => arbitrary(),
    }
}

/// Whether this action cuts off preparation for the rest of the receipt:
/// executing it changes which code hash the receiver resolves to.
pub open spec fn action_cuts(a: Action) -> bool {
    a is DeployContract || a is UseGlobalContract
}

/// The index of the first `DeployContract` or `UseGlobalContract` action, or
/// the length of the list when there is none: actions at and after this index
/// are never prepared.
pub open spec fn cut_index(actions: Seq<Action>) -> int
    decreases actions.len(),
{
    if actions.len() == 0 {
        0
    } else if action_cuts(actions[0]) {
        0
    } else {
        1 + cut_index(actions.skip(1))
    }
}

/// `cut_index` is the least index of a cutting action.
pub proof fn lemma_cut_index(actions: Seq<Action>)
    ensures
        0 <= cut_index(actions) <= actions.len(),
        forall|j: int| 0 <= j < cut_index(actions) ==> !action_cuts(actions[j]),
        cut_index(actions) < actions.len() ==> action_cuts(actions[cut_index(actions)]),
    decreases actions.len(),
{
    if actions.len() == 0 {
    } else if action_cuts(actions[0]) {
    } else {
        lemma_cut_index(actions.skip(1));
        assert forall|j: int| 0 <= j < cut_index(actions) implies !action_cuts(actions[j]) by {
            if j > 0 {
                assert(actions[j] == actions.skip(1)[j - 1]);
            }
        }
        if cut_index(actions) < actions.len() {
            assert(actions[cut_index(actions)] == actions.skip(1)[cut_index(actions) - 1]);
        }
    }
}

/// Any index below which no action cuts, and which either is the length or
/// holds a cutting action, is `cut_index`.
pub proof fn lemma_cut_index_unique(actions: Seq<Action>, k: int)
    requires
        0 <= k <= actions.len(),
        forall|j: int| 0 <= j < k ==> !action_cuts(actions[j]),
        k < actions.len() ==> action_cuts(actions[k]),
    ensures
        cut_index(actions) == k,
{
    lemma_cut_index(actions);
    if cut_index(actions) < k {
        assert(action_cuts(actions[cut_index(actions)]));
    } else if k < cut_index(actions) {
        assert(!action_cuts(actions[k]));
    }
}

} // verus!
