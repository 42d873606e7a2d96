//! Refunds that contributors claim one by one.

use vstd::prelude::*;

use crate::book::{amount_of, lemma_amount_nonneg, lemma_with_amount, listed, with_amount};
use crate::campaign::CampaignView;
use crate::env::{
    bump_persistent, extend_instance_ttl, instance_bump, persistent_bump, publication, Effect, Env,
    EnvView,
};
use crate::milestone_release::{cleared, lemma_refund_keeps_schedule};
use crate::types::{outcome, Address, ContractError, CrowdfundContract, DataKey, Status};
use crate::withdraw_event_emission::{emit_refunded, Event};

verus! {

/// Why a refund to one contributor is refused, if it is.
pub open spec fn refund_single_refusal(e: EnvView, who: Address) -> Option<ContractError> {
    let c = e.campaign;
    if c.status !is Active {
        Some(ContractError::CampaignNotActive)
    } else if e.now <= c.deadline {
        Some(ContractError::CampaignStillActive)
    } else if c.total_raised >= c.goal {
        Some(ContractError::GoalReached)
    } else if amount_of(c.contributions, who) <= 0 {
        Some(ContractError::NothingToRefund)
    } else {
        None
    }
}

/// The stored state after a refund to one contributor.
pub open spec fn after_refund_single(c: CampaignView, who: Address) -> CampaignView {
    CampaignView {
        contributions: with_amount(c.contributions, who, 0),
        total_raised: c.total_raised - amount_of(c.contributions, who),
        ..c
    }
}

/// What a refund to one contributor asks of the host, in order.
pub open spec fn refund_single_effects(e: EnvView, who: Address) -> Seq<Effect<Seq<u8>>> {
    let amount = amount_of(e.campaign.contributions, who) as i128;
    seq![
        instance_bump(),
        persistent_bump(DataKey::Contribution(who)),
        Effect::Transfer { token: e.campaign.token, from: e.contract, to: who, amount },
        publication(Event::Refunded { backer: who, amount }),
    ]
}

/// The invocation after a call in which one contributor claims a refund.
pub open spec fn refunded_single(e: EnvView, who: Address) -> EnvView {
    if refund_single_refusal(e, who) is Some {
        e.demand(who)
    } else {
        e.with_campaign(after_refund_single(e.campaign, who)).demand(who).send_all(
            refund_single_effects(e, who),
        )
    }
}

/// A refund to one contributor keeps a campaign well-formed.
pub proof fn lemma_refund_single_wf(e: EnvView, who: Address)
    requires
        e.campaign.wf(),
        refund_single_refusal(e, who) is None,
    ensures
        after_refund_single(e.campaign, who).wf(),
        after_refund_single(e.campaign, who).total_raised >= -e.campaign.milestone_basis,
{
    let c = e.campaign;
    let n = after_refund_single(c, who);
    lemma_amount_nonneg(c.contributions, who);
    lemma_with_amount(c.contributions, who, 0);
    if c.milestones.len() > 0 {
        assert(cleared(c.contributions, n.contributions));
        lemma_refund_keeps_schedule(c, n);
    }
}

impl CrowdfundContract {
    /// Pays one contributor back, after the deadline and if less than the goal is raised. The
    /// contributor must have signed. The contributor's line is cleared before the
    /// transfer goes out.
    pub fn refund_single(env: &mut Env, contributor: Address) -> (r: Result<(), ContractError>)
        requires
            old(env)@.campaign.wf(),
        ensures
            r == outcome(refund_single_refusal(old(env)@, contributor)),
            final(env)@.campaign.wf(),
            final(env)@ == refunded_single(old(env)@, contributor),
    {
        let ghost e0 = env@;
        let ghost c0 = env@.campaign;
        env.require_auth(contributor);
        if env.campaign.status != Status::Active {
            return Err(ContractError::CampaignNotActive);
        }
        if env.now <= env.campaign.deadline {
            return Err(ContractError::CampaignStillActive);
        }
        if env.campaign.total_raised >= env.campaign.goal {
            return Err(ContractError::GoalReached);
        }
        let amount: i128 = env.campaign.contributions.amount(contributor);
        if amount <= 0 {
            return Err(ContractError::NothingToRefund);
        }
        proof {
            lemma_amount_nonneg(c0.contributions, contributor);
            lemma_with_amount(c0.contributions, contributor, 0);
            assert(listed(c0.contributions, contributor));
            lemma_refund_single_wf(e0, contributor);
        }
        extend_instance_ttl(env);
        env.campaign.contributions.set_amount(contributor, 0);
        bump_persistent(env, DataKey::Contribution(contributor));
        env.campaign.total_raised = env.campaign.total_raised - amount;
        let token = env.campaign.token;
        let contract = env.contract;
        env.record(Effect::Transfer { token, from: contract, to: contributor, amount });
        emit_refunded(env, contributor, amount);
        proof {
            let expected = e0.with_campaign(after_refund_single(c0, contributor)).demand(
                contributor,
            ).send_all(refund_single_effects(e0, contributor));
            assert(env@.outbox =~= expected.outbox);
            assert(env@ =~= expected);
        }
        Ok(())
    }
}

} // verus!
