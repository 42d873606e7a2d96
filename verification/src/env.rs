//! One invocation of the contract: the state it works on, what it knows of the ledger,
//! and what it asks the ledger host to do.

use vstd::prelude::*;

use crate::campaign::{Campaign, CampaignView};
use crate::contract_state_size::StateLimits;
use crate::types::{Address, DataKey, Text, WasmHash};
use crate::withdraw_event_emission::Event;

verus! {

/// Minimum remaining lifetime (in ledgers) below which a storage entry is extended.
pub const LEDGER_THRESHOLD: u32 = 100_000;

/// Number of ledgers for which an extended storage entry lives on.
pub const LEDGER_BUMP_AMOUNT: u32 = 535_000;

/// Something that the ledger host has to carry out. Should one of these fail (other
/// than `TryTransfer`), the host drops the whole invocation.
#[derive(Clone, Debug, PartialEq, Eq)]
pub enum Effect<S> {
    /// Extend the lifetime of instance storage.
    ExtendInstanceTtl { threshold: u32, extend_to: u32 },
    /// Extend the lifetime of one persistent entry.
    ExtendPersistentTtl { key: DataKey, threshold: u32, extend_to: u32 },
    /// Move tokens.
    Transfer { token: Address, from: Address, to: Address, amount: i128 },
    /// Try to move tokens and report whether it worked.
    TryTransfer { token: Address, from: Address, to: Address, amount: i128 },
    /// Mint one reward NFT.
    Mint { nft_contract: Address, to: Address },
    /// Replace the contract's code.
    UpdateWasm { hash: WasmHash },
    /// Publish an event.
    Publish { event: Event<S> },
}

impl View for Effect<Text> {
    type V = Effect<Seq<u8>>;

    open spec fn view(&self) -> Effect<Seq<u8>> {
        match *self {
            Effect::ExtendInstanceTtl { threshold, extend_to } => Effect::ExtendInstanceTtl {
                threshold,
                extend_to,
            },
            Effect::ExtendPersistentTtl { key, threshold, extend_to } =>
            Effect::ExtendPersistentTtl { key, threshold, extend_to },
            Effect::Transfer { token, from, to, amount } => Effect::Transfer {
                token,
                from,
                to,
                amount,
            },
            Effect::TryTransfer { token, from, to, amount } => Effect::TryTransfer {
                token,
                from,
                to,
                amount,
            },
            Effect::Mint { nft_contract, to } => Effect::Mint { nft_contract, to },
            Effect::UpdateWasm { hash } => Effect::UpdateWasm { hash },
            Effect::Publish { event } => Effect::Publish { event: event@ },
        }
    }
}

/// One invocation of the contract.
pub struct Env {
    /// The stored state.
    pub campaign: Campaign,
    /// The bounds that this deployment is built with.
    pub limits: StateLimits,
    /// The ledger's timestamp.
    pub now: u64,
    /// The contract's own address.
    pub contract: Address,
    /// Who must have signed the invocation, in the order in which this came up. The
    /// host drops the invocation if one of them has not, also one that is refused.
    pub auths: Vec<Address>,
    /// What the host has to carry out, in this order.
    pub outbox: Vec<Effect<Text>>,
}

/// What an invocation holds.
#[verifier::ext_equal]
pub struct EnvView {
    pub campaign: CampaignView,
    pub limits: StateLimits,
    pub now: u64,
    pub contract: Address,
    pub auths: Seq<Address>,
    pub outbox: Seq<Effect<Seq<u8>>>,
}

impl View for Env {
    type V = EnvView;

    open spec fn view(&self) -> EnvView {
        EnvView {
            campaign: self.campaign@,
            limits: self.limits,
            now: self.now,
            contract: self.contract,
            auths: self.auths@,
            outbox: self.outbox@.map_values(|e: Effect<Text>| e@),
        }
    }
}

/// The extension of instance storage.
pub open spec fn instance_bump() -> Effect<Seq<u8>> {
    Effect::ExtendInstanceTtl { threshold: LEDGER_THRESHOLD, extend_to: LEDGER_BUMP_AMOUNT }
}

/// The extension of the persistent entry under `key`.
pub open spec fn persistent_bump(key: DataKey) -> Effect<Seq<u8>> {
    Effect::ExtendPersistentTtl {
        key,
        threshold: LEDGER_THRESHOLD,
        extend_to: LEDGER_BUMP_AMOUNT,
    }
}

/// The publication of an event.
pub open spec fn publication(event: Event<Seq<u8>>) -> Effect<Seq<u8>> {
    Effect::Publish { event }
}

impl EnvView {
    /// The invocation with `effect` added to the outbox.
    pub open spec fn send(self, effect: Effect<Seq<u8>>) -> EnvView {
        EnvView { outbox: self.outbox.push(effect), ..self }
    }

    /// The invocation with several effects added to the outbox.
    pub open spec fn send_all(self, effects: Seq<Effect<Seq<u8>>>) -> EnvView {
        EnvView { outbox: self.outbox + effects, ..self }
    }

    /// The invocation once instance storage is extended.
    pub open spec fn extended(self) -> EnvView {
        self.send(instance_bump())
    }

    /// The invocation once `who` must have signed it.
    pub open spec fn demand(self, who: Address) -> EnvView {
        EnvView { auths: self.auths.push(who), ..self }
    }

    /// The invocation with the stored state replaced.
    pub open spec fn with_campaign(self, campaign: CampaignView) -> EnvView {
        EnvView { campaign, ..self }
    }
}

impl Env {
    /// An invocation at time `now` of the contract at `contract`.
    pub fn new(campaign: Campaign, limits: StateLimits, now: u64, contract: Address) -> (env: Env)
        ensures
            env@ == (EnvView {
                campaign: campaign@,
                limits,
                now,
                contract,
                auths: Seq::empty(),
                outbox: Seq::empty(),
            }),
    {
        let env = Env { campaign, limits, now, contract, auths: Vec::new(), outbox: Vec::new() };
        assert(env@.outbox =~= Seq::empty());
        env
    }

    /// Adds an effect to the outbox.
    pub fn record(&mut self, effect: Effect<Text>)
        ensures
            final(self)@ == old(self)@.send(effect@),
    {
        self.outbox.push(effect);
        assert(self@.outbox =~= old(self)@.outbox.push(effect@));
    }

    /// Demands that `who` has signed the invocation.
    pub fn require_auth(&mut self, who: Address)
        ensures
            final(self)@ == old(self)@.demand(who),
    {
        self.auths.push(who);
    }
}

/// Extends the lifetime of the contract's instance storage.
pub fn extend_instance_ttl(env: &mut Env)
    ensures
        final(env)@ == old(env)@.extended(),
{
    env.record(
        Effect::ExtendInstanceTtl { threshold: LEDGER_THRESHOLD, extend_to: LEDGER_BUMP_AMOUNT },
    );
}

/// Extends the lifetime of a single persistent entry.
pub fn bump_persistent(env: &mut Env, key: DataKey)
    ensures
        final(env)@ == old(env)@.send(persistent_bump(key)),
{
    env.record(
        Effect::ExtendPersistentTtl {
            key,
            threshold: LEDGER_THRESHOLD,
            extend_to: LEDGER_BUMP_AMOUNT,
        },
    );
}

} // verus!
