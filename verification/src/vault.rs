//! The vault: the pooled total and the ledger behind it, and the deposit
//! that changes both at once.

use vstd::prelude::*;
use crate::address::Address;
use crate::error::ErrorCode;
use crate::ledger::{
    all_positive, credited, distinct, first_at, has_entry, ledger_of, lemma_credited_total,
    lemma_position, lemma_position_is, position, recorded, total_weight, Contributor, Stake,
};

verus! {

/// The number of entries that a vault's ledger has room for.
pub const MAX_CONTRIBUTORS: usize = 100;

/// The stored vault. `total_sol` is what the pool holds now; the entries of
/// `contributors` keep what each party has put in over time and are not
/// reduced when the pool pays out.
#[derive(Clone, Debug, PartialEq, Eq)]
pub struct Vault {
    pub total_sol: u64,
    pub contributors: Vec<Contributor>,
}

/// The vault as a mathematical value.
pub struct VaultState {
    pub total: nat,
    pub ledger: Seq<Stake>,
}

impl View for Vault {
    type V = VaultState;

    open spec fn view(&self) -> VaultState {
        VaultState { total: self.total_sol as nat, ledger: ledger_of(self.contributors@) }
    }
}

impl VaultState {
    /// A vault that has seen no deposit.
    pub open spec fn empty() -> VaultState {
        VaultState { total: 0, ledger: Seq::empty() }
    }

    /// What every vault that was built by deposits and distributions
    /// satisfies: the ledger fits its storage, names each party once,
    /// holds no empty entry, and accounts for at least what is in the pool.
    pub open spec fn well_formed(self) -> bool {
        &&& self.ledger.len() <= MAX_CONTRIBUTORS
        &&& distinct(self.ledger)
        &&& all_positive(self.ledger)
        &&& self.total <= total_weight(self.ledger)
    }

    /// The pool holds exactly what the ledger records. True until the
    /// first payout.
    pub open spec fn balanced(self) -> bool {
        self.total == total_weight(self.ledger)
    }

    /// Whether a deposit of `amount` by `who` is taken, and if not, why.
    /// `transferred` says whether the host moved the funds into custody.
    pub open spec fn deposit_verdict(self, who: Address, amount: nat, transferred: bool) -> Result<
        (),
        ErrorCode,
    > {
        if amount == 0 {
            Err(ErrorCode::InvalidAmount)
        } else if !has_entry(self.ledger, who) && self.ledger.len() >= MAX_CONTRIBUTORS {
            Err(ErrorCode::CapacityExceeded)
        } else if !transferred {
            Err(ErrorCode::TransferFailed)
        } else {
            Ok(())
        }
    }

    /// The vault after a deposit of `amount` by `who` has been recorded.
    pub open spec fn deposit(self, who: Address, amount: nat) -> VaultState {
        VaultState { total: self.total + amount, ledger: credited(self.ledger, who, amount) }
    }

    /// The vault after a deposit request: changed as `deposit` says when
    /// the request is taken, untouched when it is rejected.
    pub open spec fn request_deposit(
        self,
        who: Address,
        amount: nat,
        transferred: bool,
    ) -> VaultState {
        if self.deposit_verdict(who, amount, transferred) is Ok {
            self.deposit(who, amount)
        } else {
            self
        }
    }

    /// Both counters that a deposit raises stay within 64 bits.
    pub open spec fn can_hold(self, who: Address, amount: nat) -> bool {
        &&& self.total + amount <= u64::MAX
        &&& recorded(self.ledger, who) + amount <= u64::MAX
    }
}

/// Puts the vault into its first state: nothing pooled, nobody recorded.
/// The host calls this once, when it has provisioned the vault's storage.
pub fn initialize(vault: &mut Vault) -> (result: Result<(), ErrorCode>)
    ensures
        result is Ok,
        final(vault)@ == VaultState::empty(),
{
    vault.total_sol = 0;
    vault.contributors = Vec::new();
    assert(vault@.ledger =~= Seq::empty());
    Ok(())
}

/// Finds where `who` stands in the stored ledger.
pub fn find_contributor(contributors: &Vec<Contributor>, who: &Address) -> (i: usize)
    ensures
        i == position(ledger_of(contributors@), *who),
        i <= contributors.len(),
{
    let ghost ledger = ledger_of(contributors@);
    let mut i: usize = 0;
    while i < contributors.len()
        invariant
            i <= contributors.len(),
            ledger == ledger_of(contributors@),
            forall|j: int| 0 <= j < i ==> (#[trigger] ledger[j]).address != *who,
        decreases contributors.len() - i,
    {
        if contributors[i].address == *who {
            proof {
                lemma_position_is(ledger, *who, i as int);
            }
            return i;
        }
        i += 1;
    }
    proof {
        lemma_position_is(ledger, *who, i as int);
    }
    i
}

/// Says whether a deposit would be taken once the funds have moved, so
/// that the host can refuse before it moves anything.
pub fn validate_deposit(vault: &Vault, user: &Address, amount: u64) -> (result: Result<
    (),
    ErrorCode,
>)
    ensures
        result == vault@.deposit_verdict(*user, amount as nat, true),
{
    if amount == 0 {
        return Err(ErrorCode::InvalidAmount);
    }
    let i = find_contributor(&vault.contributors, user);
    if i == vault.contributors.len() && i >= MAX_CONTRIBUTORS {
        return Err(ErrorCode::CapacityExceeded);
    }
    Ok(())
}

/// Whether the vault's counters can take a deposit of `amount` by `user`
/// without leaving 64 bits.
pub fn can_hold(vault: &Vault, user: &Address, amount: u64) -> (r: bool)
    ensures
        r == vault@.can_hold(*user, amount as nat),
{
    let i = find_contributor(&vault.contributors, user);
    let held: u64 = if i < vault.contributors.len() {
        vault.contributors[i].amount
    } else {
        0
    };
    amount <= u64::MAX - vault.total_sol && amount <= u64::MAX - held
}

/// Records a deposit of `amount` by `user`: adds it to the entry of `user`,
/// or opens a new last entry, and raises the pooled total by as much.
///
/// `transferred` is the host's word on whether the funds reached custody.
/// A deposit of zero, one from a new party into a full ledger, and one
/// whose funds did not move are rejected, in that order of precedence, and
/// a rejected deposit changes nothing.
pub fn deposit_sol(vault: &mut Vault, user: Address, amount: u64, transferred: bool) -> (result:
    Result<(), ErrorCode>)
    requires
        old(vault)@.deposit_verdict(user, amount as nat, transferred) is Ok
            ==> old(vault)@.can_hold(user, amount as nat),
    ensures
        result == old(vault)@.deposit_verdict(user, amount as nat, transferred),
        final(vault)@ == old(vault)@.request_deposit(user, amount as nat, transferred),
        result is Err ==> *final(vault) == *old(vault),
        !transferred ==> result is Err,
        old(vault)@.well_formed() ==> final(vault)@.well_formed(),
        old(vault)@.balanced() ==> final(vault)@.balanced(),
{
    if amount == 0 {
        return Err(ErrorCode::InvalidAmount);
    }
    let i = find_contributor(&vault.contributors, &user);
    if i == vault.contributors.len() && i >= MAX_CONTRIBUTORS {
        return Err(ErrorCode::CapacityExceeded);
    }
    if !transferred {
        return Err(ErrorCode::TransferFailed);
    }
    proof {
        if vault@.well_formed() {
            lemma_deposit_keeps_well_formed(vault@, user, amount as nat);
        }
        if vault@.balanced() {
            lemma_deposit_keeps_balance(vault@, user, amount as nat);
        }
    }
    let ghost before = vault@;
    vault.total_sol = vault.total_sol + amount;
    if i < vault.contributors.len() {
        let raised = Contributor { address: user, amount: vault.contributors[i].amount + amount };
        vault.contributors.set(i, raised);
        assert(vault@.ledger =~= credited(before.ledger, user, amount as nat));
    } else {
        vault.contributors.push(Contributor { address: user, amount });
        assert(vault@.ledger =~= credited(before.ledger, user, amount as nat));
    }
    Ok(())
}

/// A recorded deposit leaves the pool and the ledger in step.
pub proof fn lemma_deposit_keeps_balance(state: VaultState, who: Address, amount: nat)
    requires
        state.balanced(),
    ensures
        state.deposit(who, amount).balanced(),
{
    lemma_credited_total(state.ledger, who, amount);
}

/// A deposit that is taken leaves a well-formed vault well-formed.
pub proof fn lemma_deposit_keeps_well_formed(state: VaultState, who: Address, amount: nat)
    requires
        state.well_formed(),
        state.deposit_verdict(who, amount, true) is Ok,
    ensures
        state.deposit(who, amount).well_formed(),
{
    lemma_credited_total(state.ledger, who, amount);
    lemma_position(state.ledger, who);
}

/// Two deposits by one party come to one deposit of their sum: the party
/// has a single entry, which holds what it held before and both amounts,
/// and the second deposit adds no entry.
pub proof fn lemma_deposits_accumulate(state: VaultState, who: Address, a: nat, b: nat)
    ensures
        state.deposit(who, a).deposit(who, b) == state.deposit(who, a + b),
        state.deposit(who, a).deposit(who, b).ledger.len() == state.deposit(who, a).ledger.len(),
        recorded(state.deposit(who, a).deposit(who, b).ledger, who) == recorded(state.ledger, who)
            + a + b,
        !has_entry(state.ledger, who) ==> recorded(
            state.deposit(who, a).deposit(who, b).ledger,
            who,
        ) == a + b,
{
    let l0 = state.ledger;
    lemma_position(l0, who);
    let i = position(l0, who);
    let l1 = credited(l0, who, a);
    assert(first_at(l1, who, i));
    lemma_position_is(l1, who, i);
    let l2 = credited(l1, who, b);
    assert(first_at(l2, who, i));
    lemma_position_is(l2, who, i);
    let direct = credited(l0, who, a + b);
    assert(l2 =~= direct);
}

} // verus!
