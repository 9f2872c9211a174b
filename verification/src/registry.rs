//! The registry of escrow contracts: creation, party linkage, lookup by id
//! and by account, and the owner's settings.

use crate::amounts::{lemma_sum_first_monotonic, sum_all, sum_first};
use crate::attestation::{bytes_equal, is_trusted};
use crate::laws::{lemma_registry_wf_after_creation, lemma_registry_wf_after_joining};
use crate::model::{
    first_index, is_first, lemma_first_index_is, lemma_first_index_none, same_index, DisputeFilter,
};
use crate::text::{
    contract_id, contract_id_text, invite_token, invite_token_text, milestone_id, milestone_id_text,
};
use crate::types::{
    byte_rows, clone_bytes, clone_text, input_models, milestone_models, text_of, text_rows,
    CallContext, CallModel, ContractStatus, Dispute, DisputeModel, DisputeWindow, EscrowContract,
    EscrowError, EscrowModel, Milestone, MilestoneInput, MilestoneInputModel, MilestoneModel,
    MilestoneStatus, Policy,
};
use vstd::prelude::*;

verus! {

/// The contracts that one account is a party to, in the order it became one.
#[derive(Debug)]
pub struct AccountLinks {
    pub account: String,
    pub contract_ids: Vec<String>,
}

/// Model of [`AccountLinks`].
pub struct AccountLinksModel {
    pub account: Seq<char>,
    pub contract_ids: Seq<Seq<char>>,
}

impl View for AccountLinks {
    type V = AccountLinksModel;

    open spec fn view(&self) -> AccountLinksModel {
        AccountLinksModel { account: self.account@, contract_ids: text_rows(self.contract_ids@) }
    }
}

/// The registry: every escrow contract, the index from accounts to their
/// contracts, the allow-list of attestors and the owner's settings.
#[derive(Debug)]
pub struct Contract {
    pub contracts: Vec<EscrowContract>,
    pub account_contracts: Vec<AccountLinks>,
    pub trusted_tee_addresses: Vec<Vec<u8>>,
    pub owner: String,
    pub next_id: u64,
    pub ai_processing_fee: u128,
    pub policy: Policy,
}

/// Model of the registry.
pub struct RegistryModel {
    pub contracts: Seq<EscrowModel>,
    pub account_contracts: Seq<AccountLinksModel>,
    pub trusted_tee_addresses: Seq<Seq<u8>>,
    pub owner: Seq<char>,
    pub next_id: u64,
    pub ai_processing_fee: u128,
    pub policy: Policy,
}

/// The models of a sequence of contracts, in order.
pub open spec fn contract_models(contracts: Seq<EscrowContract>) -> Seq<EscrowModel> {
    Seq::new(contracts.len(), |i: int| contracts[i]@)
}

/// The models of a sequence of account links, in order.
pub open spec fn link_models(links: Seq<AccountLinks>) -> Seq<AccountLinksModel> {
    Seq::new(links.len(), |i: int| links[i]@)
}

impl View for Contract {
    type V = RegistryModel;

    open spec fn view(&self) -> RegistryModel {
        RegistryModel {
            contracts: contract_models(self.contracts@),
            account_contracts: link_models(self.account_contracts@),
            trusted_tee_addresses: byte_rows(self.trusted_tee_addresses@),
            owner: self.owner@,
            next_id: self.next_id,
            ai_processing_fee: self.ai_processing_fee,
            policy: self.policy,
        }
    }
}

/// The policy of a registry that is made without one: funding promotes to
/// `Funded`, only the client raises disputes, only over milestones under
/// review, both parties must accept, and an override blocks payment requests
/// for 48 hours.
pub open spec fn default_policy() -> Policy {
    Policy {
        funding_starts_work: false,
        either_party_may_dispute: false,
        dispute_window: DisputeWindow::UnderReview,
        single_acceptance: false,
        override_cooldown_ns: 172_800_000_000_000,
    }
}

impl Default for Policy {
    fn default() -> (r: Policy)
        ensures
            r == default_policy(),
    {
        Policy {
            funding_starts_work: false,
            either_party_may_dispute: false,
            dispute_window: DisputeWindow::UnderReview,
            single_acceptance: false,
            override_cooldown_ns: 172_800_000_000_000,
        }
    }
}

/// The milestones that a new contract has for these inputs: numbered from
/// one, unfunded, with no deadline and no cooldown.
pub open spec fn new_milestones(inputs: Seq<MilestoneInputModel>) -> Seq<MilestoneModel> {
    Seq::new(
        inputs.len(),
        |i: int|
            MilestoneModel {
                id: milestone_id_text((i + 1) as nat),
                title: inputs[i].title,
                description: inputs[i].description,
                amount: inputs[i].amount,
                status: MilestoneStatus::NotFunded,
                payment_request_deadline_ns: None,
                payment_request_blocked_until_ns: None,
            },
    )
}

/// The amounts of a sequence of milestone inputs, in order.
pub open spec fn input_amounts(inputs: Seq<MilestoneInputModel>) -> Seq<u128> {
    Seq::new(inputs.len(), |i: int| inputs[i].amount)
}

/// The byte sequences of `rows` that differ from `address`, in order.
pub open spec fn without(rows: Seq<Seq<u8>>, address: Seq<u8>) -> Seq<Seq<u8>> {
    rows.filter(|row: Seq<u8>| row != address)
}

/// How an operation on the registry ends: on success the result and the new
/// state are those of `step`; on failure the error is that of `step` and the
/// state is as it was.
pub open spec fn registry_outcome<T>(
    pre: RegistryModel,
    post: RegistryModel,
    r: Result<T, EscrowError>,
    step: Result<(RegistryModel, T), EscrowError>,
) -> bool {
    match step {
        Ok((next, out)) => r == Ok::<T, EscrowError>(out) && post == next,
        Err(e) => r == Err::<T, EscrowError>(e) && post == pre,
    }
}

/// How an operation on one contract of the registry ends: `ContractNotFound`
/// where no contract has the id; else as `step` says of the first contract
/// with the id, which alone changes.
pub open spec fn routed<T>(
    pre: RegistryModel,
    post: RegistryModel,
    r: Result<T, EscrowError>,
    contract_id: Seq<char>,
    step: spec_fn(EscrowModel) -> Result<(EscrowModel, T), EscrowError>,
) -> bool {
    match pre.contract_index(contract_id) {
        None => r == Err::<T, EscrowError>(EscrowError::ContractNotFound) && post == pre,
        Some(i) => match step(pre.contracts[i]) {
            Ok((next, out)) => r == Ok::<T, EscrowError>(out) && post == (RegistryModel {
                contracts: pre.contracts.update(i, next),
                ..pre
            }),
            Err(e) => r == Err::<T, EscrowError>(e) && post == pre,
        },
    }
}

impl RegistryModel {
    /// The registry that `owner` starts with.
    pub open spec fn initial(owner: Seq<char>, policy: Policy) -> RegistryModel {
        RegistryModel {
            contracts: Seq::empty(),
            account_contracts: Seq::empty(),
            trusted_tee_addresses: Seq::empty(),
            owner,
            next_id: 0,
            ai_processing_fee: 0,
            policy,
        }
    }

    /// The invariant of the registry: the contracts are numbered from one
    /// in the order they were created, the next number follows the last,
    /// and every contract is well formed.
    pub open spec fn wf(self) -> bool {
        &&& self.next_id == self.contracts.len()
        &&& forall|i: int|
            0 <= i < self.contracts.len() ==> (#[trigger] self.contracts[i]).wf()
                && self.contracts[i].id == contract_id_text((i + 1) as nat)
    }

    /// The position of the first contract with this id.
    pub open spec fn contract_index(self, id: Seq<char>) -> Option<int> {
        first_index(self.contracts, |c: EscrowModel| c.id == id)
    }

    /// The position of the links of this account.
    pub open spec fn account_index(self, account: Seq<char>) -> Option<int> {
        first_index(self.account_contracts, |l: AccountLinksModel| l.account == account)
    }

    /// The registry once `account` is linked to the contract `id`: the id is
    /// added behind those the account has, or the account gets its first.
    pub open spec fn linked(self, account: Seq<char>, id: Seq<char>) -> RegistryModel {
        match self.account_index(account) {
            Some(i) => RegistryModel {
                account_contracts: self.account_contracts.update(
                    i,
                    AccountLinksModel {
                        contract_ids: self.account_contracts[i].contract_ids.push(id),
                        ..self.account_contracts[i]
                    },
                ),
                ..self
            },
            None => RegistryModel {
                account_contracts: self.account_contracts.push(
                    AccountLinksModel { account, contract_ids: seq![id] },
                ),
                ..self
            },
        }
    }

    /// The registry once an optional account is linked to the contract `id`.
    pub open spec fn linked_if(self, account: Option<Seq<char>>, id: Seq<char>) -> RegistryModel {
        match account {
            Some(a) => self.linked(a, id),
            None => self,
        }
    }

    /// The contracts that the ids name, in the order of the ids; an id that
    /// names none is passed over.
    pub open spec fn resolved(self, ids: Seq<Seq<char>>) -> Seq<EscrowModel>
        decreases ids.len(),
    {
        if ids.len() == 0 {
            Seq::empty()
        } else {
            let rest = self.resolved(ids.drop_last());
            match self.contract_index(ids.last()) {
                Some(i) => rest.push(self.contracts[i]),
                None => rest,
            }
        }
    }

    /// The first dispute over a milestone of the contract with this id.
    pub open spec fn first_dispute(self, contract_id: Seq<char>, milestone_id: Seq<char>) -> Option<
        DisputeModel,
    > {
        match self.contract_index(contract_id) {
            Some(i) => match self.contracts[i].dispute_index(milestone_id, DisputeFilter::Any) {
                Some(d) => Some(self.contracts[i].disputes[d]),
                None => None,
            },
            None => None,
        }
    }

    /// The contracts of an account, in the order it became a party to them.
    pub open spec fn contracts_of(self, account: Seq<char>) -> Seq<EscrowModel> {
        match self.account_index(account) {
            Some(i) => self.resolved(self.account_contracts[i].contract_ids),
            None => Seq::empty(),
        }
    }

    /// Whether `caller` may change the settings: the owner alone may.
    pub open spec fn owner_only(self, caller: Seq<char>) -> Result<(), EscrowError> {
        if caller != self.owner {
            Err(EscrowError::NotOwner)
        } else {
            Ok(())
        }
    }

    /// The owner puts a key on the allow-list, unless it is there.
    pub open spec fn register_tee_address(self, caller: Seq<char>, address: Seq<u8>) -> Result<
        (RegistryModel, ()),
        EscrowError,
    > {
        if caller != self.owner {
            Err(EscrowError::NotOwner)
        } else if self.trusted_tee_addresses.contains(address) {
            Ok((self, ()))
        } else {
            Ok(
                (
                    RegistryModel {
                        trusted_tee_addresses: self.trusted_tee_addresses.push(address),
                        ..self
                    },
                    (),
                ),
            )
        }
    }

    /// The owner takes a key off the allow-list.
    pub open spec fn remove_tee_address(self, caller: Seq<char>, address: Seq<u8>) -> Result<
        (RegistryModel, ()),
        EscrowError,
    > {
        if caller != self.owner {
            Err(EscrowError::NotOwner)
        } else {
            Ok(
                (
                    RegistryModel {
                        trusted_tee_addresses: without(self.trusted_tee_addresses, address),
                        ..self
                    },
                    (),
                ),
            )
        }
    }

    /// The owner sets the processing fee.
    pub open spec fn set_ai_processing_fee(self, caller: Seq<char>, fee: u128) -> Result<
        (RegistryModel, ()),
        EscrowError,
    > {
        if caller != self.owner {
            Err(EscrowError::NotOwner)
        } else {
            Ok((RegistryModel { ai_processing_fee: fee, ..self }, ()))
        }
    }

    /// The contract that `create_contract` makes for the caller of `ctx`.
    pub open spec fn new_contract(
        self,
        ctx: CallModel,
        title: Seq<char>,
        description: Seq<char>,
        milestones: Seq<MilestoneInputModel>,
        freelancer: Option<Seq<char>>,
        security_deposit_pct: u8,
        prompt_hash: Seq<char>,
        model_id: Seq<char>,
    ) -> EscrowModel {
        EscrowModel {
            id: contract_id_text((self.next_id + 1) as nat),
            title,
            description,
            client: ctx.predecessor,
            freelancer,
            total_amount: sum_all(input_amounts(milestones)) as u128,
            funded_amount: 0,
            security_deposit_pct,
            milestones: new_milestones(milestones),
            status: if freelancer is Some {
                ContractStatus::Active
            } else {
                ContractStatus::Draft
            },
            created_at: ctx.block_timestamp,
            invite_token: if freelancer is None {
                Some(invite_token_text(ctx.random_seed))
            } else {
                None
            },
            prompt_hash,
            disputes: Seq::empty(),
            model_id,
            security_pool: 0,
        }
    }

    /// The caller of `ctx` creates a contract as its client. The security
    /// percentage must lie between 5 and 30, there must be a milestone, the
    /// freelancer must be another account, and the amounts must sum to a
    /// positive total. The result is the id of the new contract.
    pub open spec fn create_contract(
        self,
        ctx: CallModel,
        title: Seq<char>,
        description: Seq<char>,
        milestones: Seq<MilestoneInputModel>,
        freelancer: Option<Seq<char>>,
        security_deposit_pct: u8,
        prompt_hash: Seq<char>,
        model_id: Seq<char>,
    ) -> Result<(RegistryModel, Seq<char>), EscrowError> {
        if !(5 <= security_deposit_pct <= 30) {
            Err(EscrowError::InvalidSecurityPct)
        } else if milestones.len() == 0 {
            Err(EscrowError::NoMilestones)
        } else if freelancer == Some(ctx.predecessor) {
            Err(EscrowError::SelfHire)
        } else if self.next_id == u64::MAX || sum_all(input_amounts(milestones)) > u128::MAX {
            Err(EscrowError::Overflow)
        } else if sum_all(input_amounts(milestones)) == 0 {
            Err(EscrowError::ZeroTotal)
        } else {
            let id = contract_id_text((self.next_id + 1) as nat);
            Ok(
                (
                    (RegistryModel {
                        contracts: self.contracts.push(
                            self.new_contract(
                                ctx,
                                title,
                                description,
                                milestones,
                                freelancer,
                                security_deposit_pct,
                                prompt_hash,
                                model_id,
                            ),
                        ),
                        next_id: (self.next_id + 1) as u64,
                        ..self
                    }).linked(ctx.predecessor, id).linked_if(freelancer, id),
                    id,
                ),
            )
        }
    }

    /// The caller of `ctx` joins a contract as its freelancer with the
    /// invite token, and is linked to it.
    pub open spec fn join_contract(
        self,
        ctx: CallModel,
        contract_id: Seq<char>,
        invite_token: Seq<char>,
    ) -> Result<(RegistryModel, ()), EscrowError> {
        match self.contract_index(contract_id) {
            None => Err(EscrowError::ContractNotFound),
            Some(i) => match self.contracts[i].join(ctx.predecessor, invite_token) {
                Err(e) => Err(e),
                Ok((joined, _)) => Ok(
                    (
                        (RegistryModel {
                            contracts: self.contracts.update(i, joined),
                            ..self
                        }).linked(ctx.predecessor, contract_id),
                        (),
                    ),
                ),
            },
        }
    }
}

/// Where one contract of the registry changed and nothing else did, the
/// model changed at that contract alone; where that contract's model is as
/// it was, the registry's model is as it was.
pub proof fn lemma_one_contract_changed(pre: &Contract, post: &Contract, i: int)
    requires
        0 <= i < pre.contracts@.len(),
        post.contracts@ == pre.contracts@.update(i, post.contracts@[i]),
        post.account_contracts == pre.account_contracts,
        post.trusted_tee_addresses == pre.trusted_tee_addresses,
        post.owner == pre.owner,
        post.next_id == pre.next_id,
        post.ai_processing_fee == pre.ai_processing_fee,
        post.policy == pre.policy,
    ensures
        post@ == (RegistryModel {
            contracts: pre@.contracts.update(i, post.contracts@[i]@),
            ..pre@
        }),
        post.contracts@[i]@ == pre@.contracts[i] ==> post@ == pre@,
{
    assert(post@.contracts =~= pre@.contracts.update(i, post.contracts@[i]@));
    if post.contracts@[i]@ == pre@.contracts[i] {
        assert(post@.contracts =~= pre@.contracts);
    }
}

/// The sum of the amounts of the inputs; `None` when it does not fit.
pub fn sum_inputs(inputs: &Vec<MilestoneInput>) -> (r: Option<u128>)
    ensures
        match r {
            Some(total) => total == sum_all(input_amounts(input_models(inputs@))),
            None => sum_all(input_amounts(input_models(inputs@))) > u128::MAX,
        },
{
    let ghost amounts = input_amounts(input_models(inputs@));
    let mut total: u128 = 0;
    let mut i: usize = 0;
    while i < inputs.len()
        invariant
            i <= inputs@.len(),
            amounts == input_amounts(input_models(inputs@)),
            total == sum_first(amounts, i as int),
        decreases inputs@.len() - i,
    {
        assert(amounts[i as int] == inputs@[i as int].amount);
        total =
        match total.checked_add(inputs[i].amount) {
            Some(t) => t,
            None => {
                proof {
                    lemma_sum_first_monotonic(amounts, i + 1, amounts.len() as int);
                }
                return None;
            },
        };
        i += 1;
    }
    Some(total)
}

/// The milestones of a new contract for these inputs.
pub fn build_milestones(inputs: &Vec<MilestoneInput>) -> (r: Vec<Milestone>)
    ensures
        milestone_models(r@) == new_milestones(input_models(inputs@)),
{
    let mut out: Vec<Milestone> = Vec::new();
    let mut i: usize = 0;
    while i < inputs.len()
        invariant
            i <= inputs@.len(),
            out@.len() == i,
            forall|j: int|
                0 <= j < i ==> (#[trigger] out@[j])@ == new_milestones(input_models(inputs@))[j],
        decreases inputs@.len() - i,
    {
        let milestone = Milestone {
            id: milestone_id((i + 1) as u64),
            title: inputs[i].title.clone(),
            description: inputs[i].description.clone(),
            amount: inputs[i].amount,
            status: MilestoneStatus::NotFunded,
            payment_request_deadline_ns: None,
            payment_request_blocked_until_ns: None,
        };
        out.push(milestone);
        i += 1;
    }
    assert(milestone_models(out@) =~= new_milestones(input_models(inputs@)));
    out
}

impl Contract {
    /// A registry with no contract, owned by `owner`, under the default policy.
    pub fn new(owner: String) -> (r: Contract)
        ensures
            r@ == RegistryModel::initial(owner@, default_policy()),
            r@.wf(),
    {
        Contract::with_policy(owner, Policy::default())
    }

    /// A registry with no contract, owned by `owner`, under `policy`.
    pub fn with_policy(owner: String, policy: Policy) -> (r: Contract)
        ensures
            r@ == RegistryModel::initial(owner@, policy),
            r@.wf(),
    {
        let r = Contract {
            contracts: Vec::new(),
            account_contracts: Vec::new(),
            trusted_tee_addresses: Vec::new(),
            owner,
            next_id: 0,
            ai_processing_fee: 0,
            policy,
        };
        assert(r@.contracts =~= Seq::empty());
        assert(r@.account_contracts =~= Seq::empty());
        assert(r@.trusted_tee_addresses =~= Seq::empty());
        r
    }

    /// Passes for the owner alone: `NotOwner` for any other caller.
    pub fn require_owner(&self, ctx: &CallContext) -> (r: Result<(), EscrowError>)
        ensures
            r == self@.owner_only(ctx@.predecessor),
    {
        if ctx.predecessor != self.owner {
            Err(EscrowError::NotOwner)
        } else {
            Ok(())
        }
    }

    /// The position of the first contract with this id.
    pub fn find_contract(&self, contract_id: &String) -> (r: Option<usize>)
        ensures
            same_index(r, self@.contract_index(contract_id@)),
            r is Some ==> r->0 < self.contracts@.len(),
    {
        let ghost p = |c: EscrowModel| c.id == contract_id@;
        let mut i: usize = 0;
        while i < self.contracts.len()
            invariant
                i <= self.contracts@.len(),
                p == (|c: EscrowModel| c.id == contract_id@),
                forall|j: int| 0 <= j < i ==> !p(#[trigger] self@.contracts[j]),
            decreases self.contracts@.len() - i,
        {
            if self.contracts[i].id == *contract_id {
                proof {
                    assert(p(self@.contracts[i as int]));
                    assert(is_first(self@.contracts, p, i as int));
                    lemma_first_index_is(self@.contracts, p, i as int);
                }
                return Some(i);
            }
            assert(!p(self@.contracts[i as int]));
            i += 1;
        }
        proof {
            lemma_first_index_none(self@.contracts, p);
        }
        None
    }

    /// The position of the links of this account.
    fn find_account(&self, account: &String) -> (r: Option<usize>)
        ensures
            same_index(r, self@.account_index(account@)),
            r is Some ==> r->0 < self.account_contracts@.len(),
    {
        let ghost p = |l: AccountLinksModel| l.account == account@;
        let mut i: usize = 0;
        while i < self.account_contracts.len()
            invariant
                i <= self.account_contracts@.len(),
                p == (|l: AccountLinksModel| l.account == account@),
                forall|j: int| 0 <= j < i ==> !p(#[trigger] self@.account_contracts[j]),
            decreases self.account_contracts@.len() - i,
        {
            if self.account_contracts[i].account == *account {
                proof {
                    assert(p(self@.account_contracts[i as int]));
                    assert(is_first(self@.account_contracts, p, i as int));
                    lemma_first_index_is(self@.account_contracts, p, i as int);
                }
                return Some(i);
            }
            assert(!p(self@.account_contracts[i as int]));
            i += 1;
        }
        proof {
            lemma_first_index_none(self@.account_contracts, p);
        }
        None
    }

    /// Links `account` to the contract `contract_id`.
    fn link_account(&mut self, account: &String, contract_id: &String)
        ensures
            final(self)@ == old(self)@.linked(account@, contract_id@),
    {
        match self.find_account(account) {
            Some(i) => {
                self.account_contracts[i].contract_ids.push(contract_id.clone());
                assert(self.account_contracts@[i as int]@.contract_ids =~= old(
                    self,
                )@.account_contracts[i as int].contract_ids.push(contract_id@));
                assert(self@.account_contracts =~= old(self)@.account_contracts.update(
                    i as int,
                    AccountLinksModel {
                        contract_ids: old(self)@.account_contracts[i as int].contract_ids.push(
                            contract_id@,
                        ),
                        ..old(self)@.account_contracts[i as int]
                    },
                ));
            },
            None => {
                let mut ids: Vec<String> = Vec::new();
                ids.push(contract_id.clone());
                let links = AccountLinks { account: account.clone(), contract_ids: ids };
                assert(links@.contract_ids =~= seq![contract_id@]);
                self.account_contracts.push(links);
                assert(self@.account_contracts =~= old(self)@.account_contracts.push(
                    AccountLinksModel { account: account@, contract_ids: seq![contract_id@] },
                ));
            },
        }
        assert(self@.contracts =~= old(self)@.contracts);
        assert(self@.trusted_tee_addresses =~= old(self)@.trusted_tee_addresses);
    }

    /// Creates, for the caller of `ctx` as client, a contract with these
    /// milestones; the result is its id.
    pub fn create_contract(
        &mut self,
        ctx: &CallContext,
        title: String,
        description: String,
        milestones: Vec<MilestoneInput>,
        freelancer: Option<String>,
        security_deposit_pct: u8,
        prompt_hash: String,
        model_id: String,
    ) -> (r: Result<String, EscrowError>)
        ensures
            match old(self)@.create_contract(
                ctx@,
                title@,
                description@,
                input_models(milestones@),
                text_of(freelancer),
                security_deposit_pct,
                prompt_hash@,
                model_id@,
            ) {
                Ok((next, id)) => r is Ok && r->Ok_0@ == id && final(self)@ == next,
                Err(e) => r == Err::<String, EscrowError>(e) && final(self)@ == old(self)@,
            },
            old(self)@.wf() ==> final(self)@.wf(),
    {
        proof {
            lemma_registry_wf_after_creation(
                self@,
                ctx@,
                title@,
                description@,
                input_models(milestones@),
                text_of(freelancer),
                security_deposit_pct,
                prompt_hash@,
                model_id@,
            );
        }
        if security_deposit_pct < 5 || security_deposit_pct > 30 {
            return Err(EscrowError::InvalidSecurityPct);
        }
        if milestones.len() == 0 {
            return Err(EscrowError::NoMilestones);
        }
        match &freelancer {
            Some(f) => {
                if *f == ctx.predecessor {
                    return Err(EscrowError::SelfHire);
                }
            },
            None => {},
        }
        if self.next_id == u64::MAX {
            return Err(EscrowError::Overflow);
        }
        let total = match sum_inputs(&milestones) {
            Some(total) => total,
            None => {
                return Err(EscrowError::Overflow);
            },
        };
        if total == 0 {
            return Err(EscrowError::ZeroTotal);
        }
        let number = self.next_id + 1;
        let id = contract_id(number);
        let hired = freelancer.is_some();
        let invite = if hired {
            None
        } else {
            Some(invite_token(&ctx.random_seed))
        };
        let partner = clone_text(&freelancer);
        let escrow = EscrowContract {
            id: id.clone(),
            title,
            description,
            client: ctx.predecessor.clone(),
            freelancer,
            total_amount: total,
            funded_amount: 0,
            security_deposit_pct,
            milestones: build_milestones(&milestones),
            status: if hired {
                ContractStatus::Active
            } else {
                ContractStatus::Draft
            },
            created_at: ctx.block_timestamp,
            invite_token: invite,
            prompt_hash,
            disputes: Vec::new(),
            model_id,
            security_pool: 0,
        };
        proof {
            assert(escrow@.disputes =~= Seq::empty());
            assert(escrow@ == old(self)@.new_contract(
                ctx@,
                title@,
                description@,
                input_models(milestones@),
                text_of(freelancer),
                security_deposit_pct,
                prompt_hash@,
                model_id@,
            ));
        }
        self.contracts.push(escrow);
        self.next_id = number;
        proof {
            assert(self@.contracts =~= old(self)@.contracts.push(
                old(self)@.new_contract(
                    ctx@,
                    title@,
                    description@,
                    input_models(milestones@),
                    text_of(freelancer),
                    security_deposit_pct,
                    prompt_hash@,
                    model_id@,
                ),
            ));
            assert(self@.account_contracts =~= old(self)@.account_contracts);
            assert(self@.trusted_tee_addresses =~= old(self)@.trusted_tee_addresses);
        }
        self.link_account(&ctx.predecessor, &id);
        match &partner {
            Some(f) => {
                self.link_account(f, &id);
            },
            None => {},
        }
        Ok(id)
    }

    /// Joins, as the caller of `ctx`, a contract as its freelancer.
    pub fn join_contract(&mut self, ctx: &CallContext, contract_id: String, invite_token: String)
        -> (r: Result<(), EscrowError>)
        ensures
            registry_outcome(
                old(self)@,
                final(self)@,
                r,
                old(self)@.join_contract(ctx@, contract_id@, invite_token@),
            ),
            old(self)@.wf() ==> final(self)@.wf(),
    {
        proof {
            lemma_registry_wf_after_joining(
                self@,
                ctx@,
                contract_id@,
                invite_token@,
            );
        }
        let i = match self.find_contract(&contract_id) {
            Some(i) => i,
            None => {
                return Err(EscrowError::ContractNotFound);
            },
        };
        let joined = self.contracts[i].join(&ctx.predecessor, &invite_token);
        proof {
            lemma_one_contract_changed(old(self), self, i as int);
        }
        match joined {
            Ok(()) => {
                self.link_account(&ctx.predecessor, &contract_id);
                Ok(())
            },
            Err(e) => Err(e),
        }
    }

    /// A copy of the contract with this id.
    pub fn get_contract(&self, contract_id: String) -> (r: Option<EscrowContract>)
        ensures
            match self@.contract_index(contract_id@) {
                Some(i) => r is Some && r->0@ == self@.contracts[i],
                None => r is None,
            },
    {
        match self.find_contract(&contract_id) {
            Some(i) => Some(self.contracts[i].clone()),
            None => None,
        }
    }

    /// Copies of the contracts of an account, in the order it became a party to them.
    pub fn get_contracts_by_account(&self, account_id: String) -> (r: Vec<EscrowContract>)
        ensures
            contract_models(r@) == self@.contracts_of(account_id@),
    {
        let mut out: Vec<EscrowContract> = Vec::new();
        match self.find_account(&account_id) {
            Some(a) => {
                let ids = &self.account_contracts[a].contract_ids;
                let ghost names = self@.account_contracts[a as int].contract_ids;
                assert(contract_models(out@) =~= self@.resolved(names.subrange(0, 0)));
                let mut i: usize = 0;
                while i < ids.len()
                    invariant
                        i <= ids@.len(),
                        names == text_rows(ids@),
                        contract_models(out@) == self@.resolved(names.subrange(0, i as int)),
                    decreases ids@.len() - i,
                {
                    proof {
                        let next = names.subrange(0, i + 1);
                        assert(next.drop_last() =~= names.subrange(0, i as int));
                        assert(next.last() == ids@[i as int]@);
                    }
                    match self.find_contract(&ids[i]) {
                        Some(c) => {
                            out.push(self.contracts[c].clone());
                            assert(contract_models(out@) =~= self@.resolved(
                                names.subrange(0, i + 1),
                            ));
                        },
                        None => {},
                    }
                    i += 1;
                }
                assert(names.subrange(0, i as int) =~= names);
            },
            None => {
                assert(contract_models(out@) =~= Seq::empty());
            },
        }
        out
    }

    /// A copy of the first dispute over a milestone of a contract.
    pub fn get_dispute(&self, contract_id: String, milestone_id: String) -> (r: Option<Dispute>)
        ensures
            match self@.first_dispute(contract_id@, milestone_id@) {
                Some(d) => r is Some && r->0@ == d,
                None => r is None,
            },
    {
        match self.find_contract(&contract_id) {
            Some(i) => match self.contracts[i].find_dispute_where(
                &milestone_id,
                DisputeFilter::Any,
            ) {
                Some(d) => Some(self.contracts[i].disputes[d].clone()),
                None => None,
            },
            None => None,
        }
    }

    /// The prompt hash of the contract with this id.
    pub fn get_prompt_hash(&self, contract_id: String) -> (r: Option<String>)
        ensures
            match self@.contract_index(contract_id@) {
                Some(i) => r is Some && r->0@ == self@.contracts[i].prompt_hash,
                None => r is None,
            },
    {
        match self.find_contract(&contract_id) {
            Some(i) => Some(self.contracts[i].prompt_hash.clone()),
            None => None,
        }
    }

    /// Puts, as the caller of `ctx`, a key on the allow-list of attestors.
    pub fn register_tee_address(&mut self, ctx: &CallContext, address: Vec<u8>) -> (r: Result<
        (),
        EscrowError,
    >)
        ensures
            registry_outcome(
                old(self)@,
                final(self)@,
                r,
                old(self)@.register_tee_address(ctx@.predecessor, address@),
            ),
            old(self)@.wf() ==> final(self)@.wf(),
    {
        match self.require_owner(ctx) {
            Err(e) => {
                return Err(e);
            },
            Ok(()) => {},
        }
        if !is_trusted(&self.trusted_tee_addresses, &address) {
            self.trusted_tee_addresses.push(address);
            assert(self@.trusted_tee_addresses =~= old(self)@.trusted_tee_addresses.push(
                address@,
            ));
            assert(self@.contracts =~= old(self)@.contracts);
            assert(self@.account_contracts =~= old(self)@.account_contracts);
        }
        Ok(())
    }

    /// Takes, as the caller of `ctx`, a key off the allow-list of attestors.
    pub fn remove_tee_address(&mut self, ctx: &CallContext, address: Vec<u8>) -> (r: Result<
        (),
        EscrowError,
    >)
        ensures
            registry_outcome(
                old(self)@,
                final(self)@,
                r,
                old(self)@.remove_tee_address(ctx@.predecessor, address@),
            ),
            old(self)@.wf() ==> final(self)@.wf(),
    {
        match self.require_owner(ctx) {
            Err(e) => {
                return Err(e);
            },
            Ok(()) => {},
        }
        let ghost rows = byte_rows(self.trusted_tee_addresses@);
        let ghost keep = |row: Seq<u8>| row != address@;
        let mut kept: Vec<Vec<u8>> = Vec::new();
        let mut i: usize = 0;
        proof {
            reveal(Seq::filter);
            assert(byte_rows(kept@) =~= rows.subrange(0, 0).filter(keep));
        }
        while i < self.trusted_tee_addresses.len()
            invariant
                i <= self.trusted_tee_addresses@.len(),
                rows == byte_rows(self.trusted_tee_addresses@),
                keep == (|row: Seq<u8>| row != address@),
                byte_rows(kept@) == rows.subrange(0, i as int).filter(keep),
            decreases self.trusted_tee_addresses@.len() - i,
        {
            proof {
                reveal(Seq::filter);
                let next = rows.subrange(0, i + 1);
                assert(next.drop_last() =~= rows.subrange(0, i as int));
                assert(next.last() == self.trusted_tee_addresses@[i as int]@);
            }
            if !bytes_equal(&self.trusted_tee_addresses[i], &address) {
                kept.push(clone_bytes(&self.trusted_tee_addresses[i]));
                assert(byte_rows(kept@) =~= rows.subrange(0, i + 1).filter(keep));
            }
            i += 1;
        }
        assert(rows.subrange(0, i as int) =~= rows);
        self.trusted_tee_addresses = kept;
        assert(self@.contracts =~= old(self)@.contracts);
        assert(self@.account_contracts =~= old(self)@.account_contracts);
        Ok(())
    }

    /// The allow-list of attestors.
    pub fn get_trusted_tee_addresses(&self) -> (r: &[Vec<u8>])
        ensures
            byte_rows(r@) == self@.trusted_tee_addresses,
    {
        self.trusted_tee_addresses.as_slice()
    }

    /// Sets, as the caller of `ctx`, the processing fee.
    pub fn set_ai_processing_fee(&mut self, ctx: &CallContext, fee_yoctonear: u128) -> (r: Result<
        (),
        EscrowError,
    >)
        ensures
            registry_outcome(
                old(self)@,
                final(self)@,
                r,
                old(self)@.set_ai_processing_fee(ctx@.predecessor, fee_yoctonear),
            ),
            old(self)@.wf() ==> final(self)@.wf(),
    {
        match self.require_owner(ctx) {
            Err(e) => {
                return Err(e);
            },
            Ok(()) => {},
        }
        self.ai_processing_fee = fee_yoctonear;
        Ok(())
    }

    /// The processing fee.
    pub fn get_ai_processing_fee(&self) -> (r: u128)
        ensures
            r == self@.ai_processing_fee,
    {
        self.ai_processing_fee
    }
}

} // verus!
