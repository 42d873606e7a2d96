//! The payout of a successful campaign.

use vstd::prelude::*;

use crate::campaign::CampaignView;
use crate::env::{extend_instance_ttl, instance_bump, publication, Effect, Env, EnvView};
use crate::types::{outcome, ContractError, CrowdfundContract, PlatformConfig, Status};
use crate::withdraw_event_emission::{
    emit_fee_transferred, emit_withdrawn, mint_nfts_in_batch, nft_effects, Event,
};

verus! {

/// The platform's share of `total`: `fee_bps` basis points, rounded down.
pub open spec fn fee_on(total: int, fee_bps: u32) -> int {
    total * fee_bps / 10_000
}

/// The fee that paying `amount` out costs.
pub open spec fn fee_for(c: CampaignView, amount: int) -> int {
    match c.platform_config {
        Some(config) => fee_on(amount, config.fee_bps),
        None => 0,
    }
}

/// The fee that a payout of the whole campaign costs.
pub open spec fn platform_fee(c: CampaignView) -> int {
    fee_for(c, c.total_raised)
}

/// Whether it comes to the point at which the creator must have signed.
pub open spec fn withdrawal_open(c: CampaignView) -> bool {
    c.status is Active && c.milestones.len() == 0
}

/// Why a payout is refused, if it is.
pub open spec fn withdraw_refusal(e: EnvView) -> Option<ContractError> {
    let c = e.campaign;
    if c.status !is Active {
        Some(ContractError::CampaignNotActive)
    } else if c.milestones.len() > 0 {
        Some(ContractError::MilestoneModeActive)
    } else if e.now <= c.deadline {
        Some(ContractError::CampaignStillActive)
    } else if c.total_raised < c.goal {
        Some(ContractError::GoalNotReached)
    } else {
        None
    }
}

/// Whether working out the fee on `amount` stays within its type.
pub open spec fn fee_in_range(c: CampaignView, amount: int) -> bool {
    c.platform_config matches Some(config) ==> amount * config.fee_bps <= i128::MAX
}

/// Whether working out the fee on an accepted payout stays within its type.
pub open spec fn withdrawal_in_range(e: EnvView) -> bool {
    withdraw_refusal(e) is None ==> fee_in_range(e.campaign, e.campaign.total_raised)
}

/// What paying the platform `fee` asks of the host; nothing where no fee falls due.
pub open spec fn fee_effects(e: EnvView, fee: int) -> Seq<Effect<Seq<u8>>> {
    match e.campaign.platform_config {
        Some(config) => if fee > 0 {
            seq![
                Effect::Transfer {
                    token: e.campaign.token,
                    from: e.contract,
                    to: config.address,
                    amount: fee as i128,
                },
                publication(Event::FeeTransferred { platform: config.address, fee: fee as i128 }),
            ]
        } else {
            Seq::empty()
        },
        None => Seq::empty(),
    }
}

/// What a payout asks of the host, in order: the fee, the creator's share, the reward
/// NFTs.
pub open spec fn withdrawal_effects(e: EnvView) -> Seq<Effect<Seq<u8>>> {
    let c = e.campaign;
    let fee = platform_fee(c);
    let payout = (c.total_raised - fee) as i128;
    seq![instance_bump()] + fee_effects(e, fee) + seq![
        Effect::Transfer { token: c.token, from: e.contract, to: c.creator, amount: payout },
    ] + nft_effects(c.nft_contract, c.contributions) + seq![
        publication(
            Event::Withdrawn { creator: c.creator, amount: payout, platform_fee: fee as i128 },
        ),
    ]
}

/// The stored state after a payout.
pub open spec fn after_withdrawal(c: CampaignView) -> CampaignView {
    CampaignView { total_raised: 0, status: Status::Successful, ..c }
}

/// The invocation after a call that asks for a payout.
pub open spec fn withdrawn(e: EnvView) -> EnvView {
    if withdraw_refusal(e) is None {
        e.with_campaign(after_withdrawal(e.campaign)).demand(e.campaign.creator).send_all(
            withdrawal_effects(e),
        )
    } else if withdrawal_open(e.campaign) {
        e.demand(e.campaign.creator)
    } else {
        e
    }
}

/// A fee below one hundred percent lies between nothing and the whole, and leaves
/// something where there is something.
pub proof fn lemma_fee_bounds(total: int, fee_bps: u32)
    requires
        total >= 0,
        fee_bps < 10_000,
    ensures
        0 <= fee_on(total, fee_bps) <= total,
        total > 0 ==> fee_on(total, fee_bps) < total,
        0 <= total * fee_bps <= total * 10_000,
{
    assert(0 <= total * fee_bps <= total * 10_000) by (nonlinear_arith)
        requires
            total >= 0,
            0 <= fee_bps < 10_000,
    ;
    if total > 0 {
        assert(total * fee_bps < total * 10_000) by (nonlinear_arith)
            requires
                total > 0,
                0 <= fee_bps < 10_000,
        ;
    }
}

/// Works out the platform's share of `total`.
pub(crate) fn work_out_fee(total: i128, config: PlatformConfig) -> (fee: i128)
    requires
        total >= 0,
        config.fee_bps < 10_000,
        total * config.fee_bps <= i128::MAX,
    ensures
        fee == fee_on(total as int, config.fee_bps),
{
    proof {
        lemma_fee_bounds(total as int, config.fee_bps);
    }
    let scaled: i128 = total * (config.fee_bps as i128);
    scaled / 10_000
}

/// Pays the platform its fee, where one falls due.
pub(crate) fn pay_fee(env: &mut Env, fee: i128)
    ensures
        final(env)@ == old(env)@.send_all(fee_effects(old(env)@, fee as int)),
{
    let ghost e0 = env@;
    if let Some(config) = env.campaign.platform_config {
        if fee > 0 {
            let token = env.campaign.token;
            let contract = env.contract;
            env.record(Effect::Transfer { token, from: contract, to: config.address, amount: fee });
            emit_fee_transferred(env, config.address, fee);
        }
    }
    assert(env@.outbox =~= e0.outbox + fee_effects(e0, fee as int));
}

impl CrowdfundContract {
    /// Checks whether it is time for a payout.
    pub fn admit_withdrawal(env: &Env) -> (r: Result<(), ContractError>)
        ensures
            r == outcome(withdraw_refusal(env@)),
    {
        if env.campaign.status != Status::Active {
            return Err(ContractError::CampaignNotActive);
        }
        if env.campaign.milestones.len() > 0 {
            return Err(ContractError::MilestoneModeActive);
        }
        if env.now <= env.campaign.deadline {
            return Err(ContractError::CampaignStillActive);
        }
        if env.campaign.total_raised < env.campaign.goal {
            return Err(ContractError::GoalNotReached);
        }
        Ok(())
    }

    /// Pays the raised funds out, after the deadline and if the goal has been met. The
    /// creator must have signed. A configured platform gets its fee first, if it comes to
    /// anything; the creator gets the rest.
    pub fn withdraw(env: &mut Env) -> (r: Result<(), ContractError>)
        requires
            old(env)@.campaign.wf(),
            withdrawal_in_range(old(env)@),
        ensures
            r == outcome(withdraw_refusal(old(env)@)),
            final(env)@.campaign.wf(),
            final(env)@ == withdrawn(old(env)@),
    {
        let ghost e0 = env@;
        let ghost c0 = env@.campaign;
        let creator = env.campaign.creator;
        let admitted = CrowdfundContract::admit_withdrawal(env);
        if env.campaign.status == Status::Active && env.campaign.milestones.len() == 0 {
            env.require_auth(creator);
        }
        match admitted {
            Err(error) => {
                return Err(error);
            },
            Ok(()) => {},
        }
        let total: i128 = env.campaign.total_raised;
        let fee: i128 = match env.campaign.platform_config {
            Some(config) => work_out_fee(total, config),
            None => 0,
        };
        proof {
            if let Some(config) = c0.platform_config {
                lemma_fee_bounds(c0.total_raised, config.fee_bps);
            }
        }
        let payout: i128 = total - fee;
        let token = env.campaign.token;
        let contract = env.contract;
        extend_instance_ttl(env);
        pay_fee(env, fee);
        assert(env@.outbox =~= e0.outbox + seq![instance_bump()] + fee_effects(e0, fee as int));
        env.record(Effect::Transfer { token, from: contract, to: creator, amount: payout });
        env.campaign.total_raised = 0;
        env.campaign.status = Status::Successful;
        let nft_contract = env.campaign.nft_contract;
        let _ = mint_nfts_in_batch(env, nft_contract);
        emit_withdrawn(env, creator, payout, fee);
        proof {
            let expected = e0.with_campaign(after_withdrawal(c0)).demand(creator).send_all(
                withdrawal_effects(e0),
            );
            assert(env@.outbox =~= expected.outbox);
            assert(env@ =~= expected);
        }
        Ok(())
    }
}

} // verus!
