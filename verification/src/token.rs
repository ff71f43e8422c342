use vstd::prelude::*;

use crate::amount::{
    amount_add, amount_clone, amount_is_zero, amount_le, amount_sub, amount_value, amount_zero,
    Amount,
};
use crate::bytes::{array32_eq, copy_bytes, Address};
use crate::keylist::KeyList;

verus! {

/// Where the issuance of the $ECT token stands.
#[derive(Clone, Debug)]
pub enum TokenState {
    /// Not issued yet.
    NotSet,
    /// Issuance requested; the system contract has not answered yet.
    Pending,
    /// Issued under this identifier.
    Issued(Vec<u8>),
}

/// Why a token-contract call is refused (the transaction reverts and nothing changes).
#[derive(Clone, Copy, Debug, PartialEq, Eq, Structural)]
pub enum TokenError {
    /// The endpoint is reserved to the contract owner.
    OnlyOwner,
    /// "Issue was already called"
    IssuePending,
    /// "Token ID already set"
    TokenAlreadySet,
    /// "ECT token not yet issued"
    TokenNotIssued,
    /// "Invalid token ID": the token is still pending.
    InvalidTokenId,
    /// "Amount must be > 0"
    ZeroAmount,
    /// "Caller is not an authorized distributor"
    NotDistributor,
    /// "Insufficient treasury balance"
    InsufficientTreasury,
    /// "No pending rewards"
    NoPendingRewards,
}

/// A request to the system contract to issue a fungible ESDT.
#[derive(Clone, Debug)]
pub struct FungibleIssue {
    pub issue_cost: u128,
    pub token_name: Vec<u8>,
    pub token_ticker: Vec<u8>,
    pub initial_supply: u128,
    pub num_decimals: u32,
}

/// What the system contract answered to an issuance request.
#[derive(Clone, Debug)]
pub enum IssueOutcome {
    /// The token was issued under this identifier.
    Issued(Vec<u8>),
    /// The issuance failed; this much EGLD came back with the answer.
    Failed(u128),
}

/// An EGLD payment sent back by a contract.
#[derive(Clone, Copy, Debug)]
pub struct EgldRefund {
    pub to: Address,
    pub amount: u128,
}

/// The identifier under which the token was issued, if it was.
pub open spec fn issued_id(state: TokenState) -> Option<Seq<u8>> {
    match state {
        TokenState::Issued(id) => Some(id@),
        _ => None,
    }
}

/// The token's storage is not empty (issued, or issuance pending).
pub open spec fn token_requested(state: TokenState) -> bool {
    !(state is NotSet)
}

/// A balance in a map of balances, zero where the map has no entry.
pub open spec fn balance_of(m: Map<Seq<u8>, nat>, a: Address) -> nat {
    if m.contains_key(a@) {
        m[a@]
    } else {
        0
    }
}

/// The numbers held in a map of amounts.
pub open spec fn balances(m: Map<Seq<u8>, Amount>) -> Map<Seq<u8>, nat> {
    m.map_values(|v: Amount| amount_value(v))
}

/// Sum of the balances in a list of (account, balance) entries.
pub open spec fn values_total(s: Seq<([u8; 32], Amount)>) -> int
    decreases s.len(),
{
    if s.len() == 0 {
        0
    } else {
        values_total(s.drop_last()) + amount_value(s.last().1)
    }
}

proof fn lemma_values_total_push(s: Seq<([u8; 32], Amount)>, x: ([u8; 32], Amount))
    ensures
        values_total(s.push(x)) == values_total(s) + amount_value(x.1),
{
    assert(s.push(x).drop_last() =~= s);
}

proof fn lemma_values_total_update(s: Seq<([u8; 32], Amount)>, i: int, x: ([u8; 32], Amount))
    requires
        0 <= i < s.len(),
    ensures
        values_total(s.update(i, x)) == values_total(s) - amount_value(s[i].1) + amount_value(x.1),
    decreases s.len(),
{
    if i == s.len() - 1 {
        assert(s.update(i, x).drop_last() =~= s.drop_last());
    } else {
        lemma_values_total_update(s.drop_last(), i, x);
        assert(s.update(i, x).drop_last() =~= s.drop_last().update(i, x));
    }
}

proof fn lemma_values_total_swap_remove(s: Seq<([u8; 32], Amount)>, i: int)
    requires
        0 <= i < s.len(),
    ensures
        values_total(s.update(i, s.last()).drop_last()) == values_total(s) - amount_value(s[i].1),
{
    let t = s.update(i, s.last());
    lemma_values_total_update(s, i, s.last());
    assert(t.last() == s.last());
}

proof fn lemma_values_total_entry(s: Seq<([u8; 32], Amount)>, i: int)
    requires
        0 <= i < s.len(),
    ensures
        values_total(s) >= amount_value(s[i].1),
    decreases s.len(),
{
    lemma_values_total_nonneg(s.drop_last());
    if i < s.len() - 1 {
        lemma_values_total_entry(s.drop_last(), i);
    }
}

proof fn lemma_values_total_nonneg(s: Seq<([u8; 32], Amount)>)
    ensures
        values_total(s) >= 0,
    decreases s.len(),
{
    if s.len() > 0 {
        lemma_values_total_nonneg(s.drop_last());
    }
}

/// What the token contract logs on the chain when a call succeeds.
#[derive(Debug)]
pub enum TokenEvent {
    /// `reward_added`
    RewardAdded { beneficiary: Address, amount: Amount, reason: Vec<u8> },
    /// `reward_claimed`
    RewardClaimed { beneficiary: Address, amount: Amount },
    /// `transfer_made`
    TransferMade { receiver: Address, amount: Amount },
}

/// An $ECT transfer sent by the contract: `amount` of `token_id` to `to`.
#[derive(Debug)]
pub struct TokenTransfer {
    pub to: Address,
    pub token_id: Vec<u8>,
    pub nonce: u64,
    pub amount: Amount,
}

/// The $ECT reward treasury: the owner mints into an internal pool, authorized
/// distributors allocate rewards from it to beneficiaries, who claim them.
pub struct EctToken {
    owner: Address,
    token: TokenState,
    distributors: KeyList<[u8; 32], ()>,
    pending: KeyList<[u8; 32], Amount>,
    total_distributed: Amount,
    treasury: Amount,
    issue_payer: Address,
}

impl EctToken {
    pub closed spec fn owner_spec(&self) -> Address {
        self.owner
    }

    pub closed spec fn token_spec(&self) -> TokenState {
        self.token
    }

    /// The authorized distributors.
    pub closed spec fn distributors_spec(&self) -> Set<Seq<u8>> {
        self.distributors@.dom()
    }

    /// Pending (claimable) balances.
    pub closed spec fn pending_spec(&self) -> Map<Seq<u8>, nat> {
        balances(self.pending@)
    }

    pub closed spec fn treasury_spec(&self) -> nat {
        amount_value(self.treasury)
    }

    pub closed spec fn total_distributed_spec(&self) -> nat {
        amount_value(self.total_distributed)
    }

    /// Sum of the pending balances.
    pub closed spec fn pending_total(&self) -> int {
        values_total(self.pending.entries())
    }

    proof fn lemma_pending_total_bounds(&self, a: Address)
        requires
            self.wf(),
        ensures
            0 <= balance_of(self.pending_spec(), a) <= self.pending_total(),
    {
        lemma_values_total_nonneg(self.pending.entries());
        if self.pending@.contains_key(a@) {
            let i = self.pending.entry_of(a@);
            lemma_values_total_entry(self.pending.entries(), i);
        }
    }

    /// The $ECT the contract accounts for: in the treasury, pending, or claimed.
    pub open spec fn accounted(&self) -> int {
        self.treasury_spec() + self.pending_total() + self.total_distributed_spec()
    }

    /// The account that paid for the last issuance request.
    pub closed spec fn issue_payer_spec(&self) -> Address {
        self.issue_payer
    }

    /// The lists are well formed.
    pub closed spec fn wf(&self) -> bool {
        &&& self.distributors.wf()
        &&& self.pending.wf()
    }

    /// The rest of the state is as in `old`.
    pub open spec fn same_except_balances(&self, old: &Self) -> bool {
        &&& self.wf()
        &&& self.owner_spec() == old.owner_spec()
        &&& self.token_spec() == old.token_spec()
        &&& self.distributors_spec() == old.distributors_spec()
        &&& self.issue_payer_spec() == old.issue_payer_spec()
    }

    /// A fresh contract deployed by `owner`.
    pub fn init(owner: Address) -> (r: Self)
        ensures
            r.wf(),
            r.owner_spec() == owner,
            r.token_spec() is NotSet,
            r.distributors_spec() == Set::<Seq<u8>>::empty(),
            r.pending_spec() == Map::<Seq<u8>, nat>::empty(),
            r.treasury_spec() == 0,
            r.total_distributed_spec() == 0,
            r.accounted() == 0,
            r.issue_payer_spec() == owner,
    {
        let r = EctToken {
            owner,
            token: TokenState::NotSet,
            distributors: KeyList::new(),
            pending: KeyList::new(),
            total_distributed: amount_zero(),
            treasury: amount_zero(),
            issue_payer: owner,
        };
        assert(r.distributors@.dom() =~= Set::<Seq<u8>>::empty());
        assert(balances(r.pending@) =~= Map::<Seq<u8>, nat>::empty());
        r
    }

    fn is_owner(&self, caller: &Address) -> (r: bool)
        ensures
            r == (caller@ == self.owner@),
    {
        array32_eq(caller, &self.owner)
    }

    /// `issueToken`: the owner asks the system contract to issue $ECT, paying
    /// `egld_payment`; the answer comes back through `issue_callback`.
    pub fn issue_token(
        &mut self,
        caller: Address,
        egld_payment: u128,
        token_name: Vec<u8>,
        token_ticker: Vec<u8>,
        decimals: u32,
        initial_supply: u128,
    ) -> (r: Result<FungibleIssue, TokenError>)
        requires
            old(self).wf(),
        ensures
            final(self).wf(),
            final(self).accounted() == old(self).accounted(),
            caller@ != old(self).owner_spec()@ ==> r == Err::<FungibleIssue, TokenError>(
                TokenError::OnlyOwner,
            ) && *final(self) == *old(self),
            caller@ == old(self).owner_spec()@ && old(self).token_spec() is Pending ==> r == Err::<
                FungibleIssue,
                TokenError,
            >(TokenError::IssuePending) && *final(self) == *old(self),
            caller@ == old(self).owner_spec()@ && old(self).token_spec() is Issued ==> r == Err::<
                FungibleIssue,
                TokenError,
            >(TokenError::TokenAlreadySet) && *final(self) == *old(self),
            caller@ == old(self).owner_spec()@ && old(self).token_spec() is NotSet ==> (r matches Ok(
                req,
            ) && req.issue_cost == egld_payment && req.token_name@ == token_name@
                && req.token_ticker@ == token_ticker@ && req.initial_supply == initial_supply
                && req.num_decimals == decimals && final(self).token_spec() is Pending
                && final(self).distributors_spec() == old(self).distributors_spec()
                && final(self).pending_spec() == old(self).pending_spec()
                && final(self).treasury_spec() == old(self).treasury_spec()
                && final(self).total_distributed_spec() == old(self).total_distributed_spec()
                && final(self).owner_spec() == old(self).owner_spec()
                && final(self).issue_payer_spec() == caller),
    {
        if !self.is_owner(&caller) {
            return Err(TokenError::OnlyOwner);
        }
        match self.token {
            TokenState::Pending => {
                return Err(TokenError::IssuePending);
            },
            TokenState::Issued(_) => {
                return Err(TokenError::TokenAlreadySet);
            },
            TokenState::NotSet => {},
        }
        self.token = TokenState::Pending;
        self.issue_payer = caller;
        Ok(
            FungibleIssue {
                issue_cost: egld_payment,
                token_name,
                token_ticker,
                initial_supply,
                num_decimals: decimals,
            },
        )
    }

    /// The callback of the issuance: on success the identifier is stored; on failure
    /// the token storage is cleared and any EGLD that came back goes to
    /// the account that paid for the issuance.
    pub fn issue_callback(&mut self, outcome: IssueOutcome) -> (r: Option<
        EgldRefund,
    >)
        requires
            old(self).wf(),
        ensures
            final(self).wf(),
            final(self).accounted() == old(self).accounted(),
            final(self).owner_spec() == old(self).owner_spec(),
            final(self).issue_payer_spec() == old(self).issue_payer_spec(),
            final(self).distributors_spec() == old(self).distributors_spec(),
            final(self).pending_spec() == old(self).pending_spec(),
            final(self).treasury_spec() == old(self).treasury_spec(),
            final(self).total_distributed_spec() == old(self).total_distributed_spec(),
            outcome matches IssueOutcome::Issued(id) ==> issued_id(final(self).token_spec())
                == Some(id@) && r is None,
            outcome matches IssueOutcome::Failed(back) ==> final(self).token_spec() is NotSet && (
            if back > 0 {
                r == Some(EgldRefund { to: old(self).issue_payer_spec(), amount: back })
            } else {
                r is None
            }),
    {
        match outcome {
            IssueOutcome::Issued(id) => {
                self.token = TokenState::Issued(id);
                None
            },
            IssueOutcome::Failed(back) => {
                self.token = TokenState::NotSet;
                if back > 0 {
                    Some(EgldRefund { to: self.issue_payer, amount: back })
                } else {
                    None
                }
            },
        }
    }

    /// `setLocalRoles`: the owner grants the contract the local mint and burn roles;
    /// returns the token the roles are asked for.
    pub fn set_local_roles(&self, caller: Address) -> (r: Result<Vec<u8>, TokenError>)
        ensures
            caller@ != self.owner_spec()@ ==> r == Err::<Vec<u8>, TokenError>(
                TokenError::OnlyOwner,
            ),
            caller@ == self.owner_spec()@ && self.token_spec() is NotSet ==> r == Err::<
                Vec<u8>,
                TokenError,
            >(TokenError::TokenNotIssued),
            caller@ == self.owner_spec()@ && self.token_spec() is Pending ==> r == Err::<
                Vec<u8>,
                TokenError,
            >(TokenError::InvalidTokenId),
            caller@ == self.owner_spec()@ && self.token_spec() is Issued ==> (r matches Ok(id)
                && issued_id(self.token_spec()) == Some(id@)),
    {
        if !self.is_owner(&caller) {
            return Err(TokenError::OnlyOwner);
        }
        match &self.token {
            TokenState::NotSet => Err(TokenError::TokenNotIssued),
            TokenState::Pending => Err(TokenError::InvalidTokenId),
            TokenState::Issued(id) => Ok(copy_bytes(id.as_slice())),
        }
    }

    /// `addDistributor` (owner only).
    pub fn add_distributor(&mut self, caller: Address, addr: Address) -> (r: Result<(), TokenError>)
        requires
            old(self).wf(),
        ensures
            final(self).wf(),
            final(self).accounted() == old(self).accounted(),
            caller@ != old(self).owner_spec()@ ==> r == Err::<(), TokenError>(TokenError::OnlyOwner)
                && *final(self) == *old(self),
            caller@ == old(self).owner_spec()@ ==> r is Ok && final(self).distributors_spec()
                == old(self).distributors_spec().insert(addr@) && final(self).pending_spec()
                == old(self).pending_spec() && final(self).treasury_spec()
                == old(self).treasury_spec() && final(self).total_distributed_spec()
                == old(self).total_distributed_spec() && final(self).token_spec()
                == old(self).token_spec() && final(self).owner_spec() == old(self).owner_spec(),
    {
        if !self.is_owner(&caller) {
            return Err(TokenError::OnlyOwner);
        }
        self.distributors.insert(addr, ());
        assert(self.distributors@.dom() =~= old(self).distributors@.dom().insert(addr@));
        Ok(())
    }

    /// `removeDistributor` (owner only).
    pub fn remove_distributor(&mut self, caller: Address, addr: Address) -> (r: Result<
        (),
        TokenError,
    >)
        requires
            old(self).wf(),
        ensures
            final(self).wf(),
            final(self).accounted() == old(self).accounted(),
            caller@ != old(self).owner_spec()@ ==> r == Err::<(), TokenError>(TokenError::OnlyOwner)
                && *final(self) == *old(self),
            caller@ == old(self).owner_spec()@ ==> r is Ok && final(self).distributors_spec()
                == old(self).distributors_spec().remove(addr@) && final(self).pending_spec()
                == old(self).pending_spec() && final(self).treasury_spec()
                == old(self).treasury_spec() && final(self).total_distributed_spec()
                == old(self).total_distributed_spec() && final(self).token_spec()
                == old(self).token_spec() && final(self).owner_spec() == old(self).owner_spec(),
    {
        if !self.is_owner(&caller) {
            return Err(TokenError::OnlyOwner);
        }
        self.distributors.remove(&addr);
        assert(self.distributors@.dom() =~= old(self).distributors@.dom().remove(addr@));
        Ok(())
    }

    /// `isDistributor`.
    pub fn is_distributor(&self, addr: Address) -> (r: bool)
        requires
            self.wf(),
        ensures
            r == self.distributors_spec().contains(addr@),
    {
        self.distributors.contains(&addr)
    }

    /// `mintRewards`: the owner mints `amount` new $ECT into the treasury; returns the
    /// token and amount of the local mint.
    pub fn mint_rewards(&mut self, caller: Address, amount: Amount) -> (r: Result<
        (Vec<u8>, Amount),
        TokenError,
    >)
        requires
            old(self).wf(),
        ensures
            final(self).wf(),
            final(self).accounted() == old(self).accounted() + (if r is Ok {
                amount_value(amount) as int
            } else {
                0
            }),
            caller@ != old(self).owner_spec()@ ==> (r matches Err(e) && e == TokenError::OnlyOwner
                && *final(self) == *old(self)),
            caller@ == old(self).owner_spec()@ && old(self).token_spec() is NotSet ==> (r matches Err(
                e,
            ) && e == TokenError::TokenNotIssued && *final(self) == *old(self)),
            caller@ == old(self).owner_spec()@ && token_requested(old(self).token_spec())
                && amount_value(amount) == 0 ==> (r matches Err(e) && e == TokenError::ZeroAmount
                && *final(self) == *old(self)),
            caller@ == old(self).owner_spec()@ && old(self).token_spec() is Pending && amount_value(
                amount,
            ) > 0 ==> (r matches Err(e) && e == TokenError::InvalidTokenId && *final(self)
                == *old(self)),
            caller@ == old(self).owner_spec()@ && old(self).token_spec() is Issued && amount_value(
                amount,
            ) > 0 ==> (r matches Ok(m) && Some(m.0@) == issued_id(old(self).token_spec())
                && amount_value(m.1) == amount_value(amount) && final(self).treasury_spec()
                == old(self).treasury_spec() + amount_value(amount) && final(self).same_except_balances(
                old(self),
            ) && final(self).pending_spec() == old(self).pending_spec()
                && final(self).total_distributed_spec() == old(self).total_distributed_spec()),
    {
        if !self.is_owner(&caller) {
            return Err(TokenError::OnlyOwner);
        }
        if let TokenState::NotSet = self.token {
            return Err(TokenError::TokenNotIssued);
        }
        if amount_is_zero(&amount) {
            return Err(TokenError::ZeroAmount);
        }
        let id = match &self.token {
            TokenState::Issued(id) => copy_bytes(id.as_slice()),
            _ => {
                return Err(TokenError::InvalidTokenId);
            },
        };
        self.treasury = amount_add(&self.treasury, &amount);
        Ok((id, amount))
    }

    /// `addReward`: an authorized distributor moves `amount` from the treasury to the
    /// pending balance of `beneficiary`.
    pub fn add_reward(
        &mut self,
        caller: Address,
        beneficiary: Address,
        amount: Amount,
        reason: &[u8],
    ) -> (r: Result<TokenEvent, TokenError>)
        requires
            old(self).wf(),
        ensures
            final(self).wf(),
            final(self).accounted() == old(self).accounted(),
            !old(self).distributors_spec().contains(caller@) ==> (r matches Err(e) && e
                == TokenError::NotDistributor && *final(self) == *old(self)),
            old(self).distributors_spec().contains(caller@) && amount_value(amount) == 0 ==> (r matches Err(
                e,
            ) && e == TokenError::ZeroAmount && *final(self) == *old(self)),
            old(self).distributors_spec().contains(caller@) && amount_value(amount) > 0
                && amount_value(amount) > old(self).treasury_spec() ==> (r matches Err(e) && e
                == TokenError::InsufficientTreasury && *final(self) == *old(self)),
            old(self).distributors_spec().contains(caller@) && 0 < amount_value(amount)
                <= old(self).treasury_spec() ==> {
                &&& r matches Ok(TokenEvent::RewardAdded { beneficiary: b, amount: a, reason: why })
                    && b == beneficiary && amount_value(a) == amount_value(amount) && why@ == reason@
                &&& final(self).pending_spec() == rewarded(
                    old(self).pending_spec(),
                    beneficiary,
                    amount_value(amount),
                )
                &&& final(self).treasury_spec() == old(self).treasury_spec() - amount_value(amount)
                &&& final(self).total_distributed_spec() == old(self).total_distributed_spec()
                &&& final(self).same_except_balances(old(self))
            },
    {
        if !self.distributors.contains(&caller) {
            return Err(TokenError::NotDistributor);
        }
        if amount_is_zero(&amount) {
            return Err(TokenError::ZeroAmount);
        }
        if !amount_le(&amount, &self.treasury) {
            return Err(TokenError::InsufficientTreasury);
        }
        let current = match self.pending.get(&beneficiary) {
            Some(b) => amount_clone(b),
            None => amount_zero(),
        };
        let ghost old_map = self.pending@;
        let ghost old_entries = self.pending.entries();
        let ghost present = self.pending@.contains_key(beneficiary@);
        let ghost at: int = if present {
            self.pending.entry_of(beneficiary@)
        } else {
            0
        };
        let updated = amount_add(&current, &amount);
        let ghost updated_copy = updated;
        self.pending.insert(beneficiary, updated);
        proof {
            if present {
                lemma_values_total_update(old_entries, at, (beneficiary, updated_copy));
            } else {
                lemma_values_total_push(old_entries, (beneficiary, updated_copy));
            }
            assert(balances(self.pending@) =~= balances(old_map).insert(
                beneficiary@,
                amount_value(updated_copy),
            ));
        }
        self.treasury = amount_sub(&self.treasury, &amount);
        Ok(TokenEvent::RewardAdded { beneficiary, amount, reason: copy_bytes(reason) })
    }

    /// `claimRewards`: the caller receives its whole pending balance.
    pub fn claim_rewards(&mut self, caller: Address) -> (r: Result<
        (TokenTransfer, TokenEvent),
        TokenError,
    >)
        requires
            old(self).wf(),
        ensures
            final(self).wf(),
            final(self).accounted() == old(self).accounted(),
            balance_of(old(self).pending_spec(), caller) == 0 ==> r == Err::<(TokenTransfer, TokenEvent), TokenError>(
                TokenError::NoPendingRewards,
            ) && *final(self) == *old(self),
            balance_of(old(self).pending_spec(), caller) > 0 && issued_id(old(self).token_spec())
                is None ==> r == Err::<(TokenTransfer, TokenEvent), TokenError>(TokenError::InvalidTokenId)
                && *final(self) == *old(self),
            balance_of(old(self).pending_spec(), caller) > 0 && issued_id(old(self).token_spec())
                is Some ==> (r matches Ok((t, ev)) && {
                &&& ev matches TokenEvent::RewardClaimed { beneficiary: b, amount: a } && b == caller
                    && amount_value(a) == amount_value(t.amount)
                &&& t.to == caller
                &&& amount_value(t.amount) == balance_of(old(self).pending_spec(), caller)
                &&& t.nonce == 0
                &&& Some(t.token_id@) == issued_id(old(self).token_spec())
                &&& final(self).pending_spec() == old(self).pending_spec().remove(caller@)
                &&& final(self).total_distributed_spec() == old(self).total_distributed_spec()
                    + amount_value(t.amount)
                &&& final(self).treasury_spec() == old(self).treasury_spec()
                &&& final(self).same_except_balances(old(self))
            }),
    {
        let amount = match self.pending.get(&caller) {
            Some(b) => amount_clone(b),
            None => amount_zero(),
        };
        if amount_is_zero(&amount) {
            return Err(TokenError::NoPendingRewards);
        }
        let id = match &self.token {
            TokenState::Issued(id) => copy_bytes(id.as_slice()),
            _ => {
                return Err(TokenError::InvalidTokenId);
            },
        };
        let ghost old_map = self.pending@;
        let ghost old_entries = self.pending.entries();
        let ghost at = self.pending.entry_of(caller@);
        self.pending.remove(&caller);
        proof {
            lemma_values_total_swap_remove(old_entries, at);
            assert(balances(self.pending@) =~= balances(old_map).remove(caller@));
        }
        self.total_distributed = amount_add(&self.total_distributed, &amount);
        let event_amount = amount_clone(&amount);
        Ok(
            (
                TokenTransfer { to: caller, token_id: id, nonce: 0, amount },
                TokenEvent::RewardClaimed { beneficiary: caller, amount: event_amount },
            ),
        )
    }

    /// Who may pay from the treasury directly: the owner and the authorized
    /// distributors.
    pub open spec fn may_pay(&self, caller: Address) -> bool {
        caller@ == self.owner_spec()@ || self.distributors_spec().contains(caller@)
    }

    /// `payP2P`: the owner or an authorized distributor pays `amount` from the treasury
    /// to `receiver`.
    pub fn pay_p2p(&mut self, caller: Address, receiver: Address, amount: Amount) -> (r: Result<
        (TokenTransfer, TokenEvent),
        TokenError,
    >)
        requires
            old(self).wf(),
        ensures
            final(self).wf(),
            final(self).accounted() == old(self).accounted() - (if r is Ok {
                amount_value(amount) as int
            } else {
                0
            }),
            !old(self).may_pay(caller) ==> (r matches Err(e) && e == TokenError::NotDistributor
                && *final(self) == *old(self)),
            old(self).may_pay(caller) && amount_value(amount) == 0 ==> (r matches Err(e) && e
                == TokenError::ZeroAmount && *final(self) == *old(self)),
            old(self).may_pay(caller) && amount_value(amount) > 0 && amount_value(amount)
                > old(self).treasury_spec() ==> (r matches Err(e) && e
                == TokenError::InsufficientTreasury && *final(self) == *old(self)),
            old(self).may_pay(caller) && 0 < amount_value(amount) <= old(self).treasury_spec()
                && issued_id(old(self).token_spec()) is None ==> (r matches Err(e) && e
                == TokenError::InvalidTokenId && *final(self) == *old(self)),
            old(self).may_pay(caller) && 0 < amount_value(amount) <= old(self).treasury_spec()
                && issued_id(old(self).token_spec()) is Some ==> (r matches Ok((t, ev)) && {
                &&& ev matches TokenEvent::TransferMade { receiver: to, amount: a } && to == receiver
                    && amount_value(a) == amount_value(amount)
                &&& t.to == receiver
                &&& amount_value(t.amount) == amount_value(amount)
                &&& t.nonce == 0
                &&& Some(t.token_id@) == issued_id(old(self).token_spec())
                &&& final(self).treasury_spec() == old(self).treasury_spec() - amount_value(amount)
                &&& final(self).pending_spec() == old(self).pending_spec()
                &&& final(self).total_distributed_spec() == old(self).total_distributed_spec()
                &&& final(self).same_except_balances(old(self))
            }),
    {
        if !self.is_owner(&caller) && !self.distributors.contains(&caller) {
            return Err(TokenError::NotDistributor);
        }
        if amount_is_zero(&amount) {
            return Err(TokenError::ZeroAmount);
        }
        if !amount_le(&amount, &self.treasury) {
            return Err(TokenError::InsufficientTreasury);
        }
        let id = match &self.token {
            TokenState::Issued(id) => copy_bytes(id.as_slice()),
            _ => {
                return Err(TokenError::InvalidTokenId);
            },
        };
        self.treasury = amount_sub(&self.treasury, &amount);
        let event_amount = amount_clone(&amount);
        Ok(
            (
                TokenTransfer { to: receiver, token_id: id, nonce: 0, amount },
                TokenEvent::TransferMade { receiver, amount: event_amount },
            ),
        )
    }

    /// `getPendingBalance`.
    pub fn get_pending_balance(&self, addr: Address) -> (r: Amount)
        requires
            self.wf(),
        ensures
            amount_value(r) == balance_of(self.pending_spec(), addr),
    {
        match self.pending.get(&addr) {
            Some(b) => amount_clone(b),
            None => amount_zero(),
        }
    }

    /// `getTreasuryBalance`.
    pub fn get_treasury_balance_view(&self) -> (r: Amount)
        ensures
            amount_value(r) == self.treasury_spec(),
    {
        amount_clone(&self.treasury)
    }

    /// `getTotalDistributed`.
    pub fn get_total_distributed(&self) -> (r: Amount)
        ensures
            amount_value(r) == self.total_distributed_spec(),
    {
        amount_clone(&self.total_distributed)
    }

    /// `getTokenId`: the issued identifier (`None` while not issued, where the view fails).
    pub fn get_token_id(&self) -> (r: Option<Vec<u8>>)
        ensures
            issued_id(self.token_spec()) is None ==> r is None,
            issued_id(self.token_spec()) is Some ==> (r matches Some(id) && Some(id@) == issued_id(
                self.token_spec(),
            )),
    {
        match &self.token {
            TokenState::Issued(id) => Some(copy_bytes(id.as_slice())),
            _ => None,
        }
    }
}

/// The pending balances after `addReward` of `amount` to `b`.
pub open spec fn rewarded(pending: Map<Seq<u8>, nat>, b: Address, amount: nat) -> Map<
    Seq<u8>,
    nat,
> {
    pending.insert(b@, balance_of(pending, b) + amount)
}

/// Rewards accumulate and a claim pays them all: after rewards of `x` and then `y` to
/// `b`, `b` holds its earlier balance plus `x + y`; claiming pays exactly that and
/// leaves `b` with nothing, while every other balance is as before.
pub proof fn law_rewards_accumulate_then_claim(
    pending: Map<Seq<u8>, nat>,
    b: Address,
    x: nat,
    y: nat,
    other: Address,
)
    requires
        other@ != b@,
    ensures
        balance_of(rewarded(rewarded(pending, b, x), b, y), b) == balance_of(pending, b) + x + y,
        balance_of(rewarded(rewarded(pending, b, x), b, y).remove(b@), b) == 0,
        balance_of(rewarded(rewarded(pending, b, x), b, y).remove(b@), other) == balance_of(
            pending,
            other,
        ),
{
}

/// Every pending balance is part of the pending total, so of the $ECT the contract
/// accounts for: a beneficiary never holds more than the contract has set aside.
pub proof fn law_balance_within_accounted(token: &EctToken, a: Address)
    requires
        token.wf(),
    ensures
        0 <= balance_of(token.pending_spec(), a) <= token.pending_total(),
        token.pending_total() <= token.accounted(),
{
    token.lemma_pending_total_bounds(a);
}

} // verus!
