//! The start of a campaign.

use vstd::prelude::*;

use crate::book::Book;
use crate::campaign::{text_len, Campaign, CampaignView};
use crate::contract_state_size::{validate_length, StateLimits};
use crate::env::{extend_instance_ttl, instance_bump, Env, EnvView};
use crate::types::{
    text_view, Address, ContractError, CrowdfundContract, Milestone, PlatformConfig, RoadmapItem,
    Status, Text,
};

verus! {

/// What the creator of a campaign decides. `S` is `Text` in running code and a sequence
/// of bytes in contracts.
pub struct InitParams<S> {
    pub admin: Address,
    pub creator: Address,
    pub token: Address,
    pub expected_token_decimals: u32,
    pub goal: i128,
    pub deadline: u64,
    pub min_contribution: i128,
    pub platform_config: Option<PlatformConfig>,
    pub bonus_goal: Option<i128>,
    pub bonus_goal_description: Option<S>,
}

impl View for InitParams<Text> {
    type V = InitParams<Seq<u8>>;

    open spec fn view(&self) -> InitParams<Seq<u8>> {
        InitParams {
            admin: self.admin,
            creator: self.creator,
            token: self.token,
            expected_token_decimals: self.expected_token_decimals,
            goal: self.goal,
            deadline: self.deadline,
            min_contribution: self.min_contribution,
            platform_config: self.platform_config,
            bonus_goal: self.bonus_goal,
            bonus_goal_description: text_view(self.bonus_goal_description),
        }
    }
}

/// Why a campaign cannot start, if it cannot. `started` says whether there is one
/// already, `is_token` whether the token's address answers as a token.
pub open spec fn initialize_refusal(
    started: bool,
    limits: StateLimits,
    now: u64,
    is_token: bool,
    p: InitParams<Seq<u8>>,
) -> Option<ContractError> {
    if started {
        Some(ContractError::AlreadyInitialized)
    } else if p.goal <= 0 {
        Some(ContractError::InvalidGoal)
    } else if p.min_contribution <= 0 {
        Some(ContractError::InvalidMinContribution)
    } else if p.deadline < now + limits.min_deadline_offset {
        Some(ContractError::DeadlineTooSoon)
    } else if p.platform_config is Some && p.platform_config->0.fee_bps >= 10_000 {
        Some(ContractError::InvalidPlatformFee)
    } else if p.bonus_goal is Some && p.bonus_goal->0 <= p.goal {
        Some(ContractError::InvalidBonusGoal)
    } else if text_len(p.bonus_goal_description) > limits.max_bonus_goal_description {
        Some(ContractError::InvalidBonusGoalDescription)
    } else if !is_token {
        Some(ContractError::InvalidTokenAddress)
    } else {
        None
    }
}

/// The state of a campaign that has just started: nothing raised, nothing pledged,
/// nothing announced, no gate.
pub open spec fn fresh_campaign(p: InitParams<Seq<u8>>) -> CampaignView {
    CampaignView {
        admin: p.admin,
        creator: p.creator,
        token: p.token,
        token_decimals: p.expected_token_decimals,
        goal: p.goal,
        deadline: p.deadline,
        min_contribution: p.min_contribution,
        platform_config: p.platform_config,
        status: Status::Active,
        total_raised: 0,
        total_pledged: 0,
        contributions: Seq::empty(),
        contributors_stored: false,
        pledges: Seq::empty(),
        pledgers_stored: false,
        goal_reached_emitted: false,
        bonus_goal: p.bonus_goal,
        bonus_goal_description: p.bonus_goal_description,
        bonus_goal_reached_emitted: false,
        stretch_goals: Seq::empty(),
        stretch_goal_reached_emitted: Seq::empty(),
        roadmap: Seq::empty(),
        title: None,
        description: None,
        social_links: None,
        nft_contract: None,
        milestones: Seq::empty(),
        milestone_basis: 0,
        milestone_votes: Seq::empty(),
        milestone_refunds_claimed: Seq::empty(),
        kyc_gate: None,
        previous_wasm_hash: None,
    }
}

/// The invocation that has just started a campaign.
pub open spec fn initialized(
    limits: StateLimits,
    now: u64,
    contract: Address,
    p: InitParams<Seq<u8>>,
) -> EnvView {
    EnvView {
        campaign: fresh_campaign(p),
        limits,
        now,
        contract,
        auths: Seq::empty(),
        outbox: seq![instance_bump()],
    }
}

impl CrowdfundContract {
    /// Starts a campaign of the contract at `contract` and returns the invocation that
    /// started it. `stored` is what storage holds, `is_token` whether the token's address
    /// answers as a token.
    pub fn initialize(
        stored: &Option<Campaign>,
        limits: StateLimits,
        now: u64,
        contract: Address,
        is_token: bool,
        params: InitParams<Text>,
    ) -> (r: Result<Env, ContractError>)
        ensures
            match initialize_refusal(stored is Some, limits, now, is_token, params@) {
                Some(error) => r == Err::<Env, ContractError>(error),
                None => {
                    &&& r is Ok
                    &&& r->Ok_0@ == initialized(limits, now, contract, params@)
                    &&& r->Ok_0@.campaign.wf()
                },
            },
    {
        if stored.is_some() {
            return Err(ContractError::AlreadyInitialized);
        }
        if params.goal <= 0 {
            return Err(ContractError::InvalidGoal);
        }
        if params.min_contribution <= 0 {
            return Err(ContractError::InvalidMinContribution);
        }
        if params.deadline < now || params.deadline - now < limits.min_deadline_offset {
            return Err(ContractError::DeadlineTooSoon);
        }
        if let Some(config) = params.platform_config {
            if config.fee_bps >= 10_000 {
                return Err(ContractError::InvalidPlatformFee);
            }
        }
        if let Some(bonus) = params.bonus_goal {
            if bonus <= params.goal {
                return Err(ContractError::InvalidBonusGoal);
            }
        }
        if let Some(text) = &params.bonus_goal_description {
            if !validate_length(text.len(), limits.max_bonus_goal_description) {
                return Err(ContractError::InvalidBonusGoalDescription);
            }
        }
        if !is_token {
            return Err(ContractError::InvalidTokenAddress);
        }
        let campaign = Campaign {
            admin: params.admin,
            creator: params.creator,
            token: params.token,
            token_decimals: params.expected_token_decimals,
            goal: params.goal,
            deadline: params.deadline,
            min_contribution: params.min_contribution,
            platform_config: params.platform_config,
            status: Status::Active,
            total_raised: 0,
            total_pledged: 0,
            contributions: Book::new(),
            contributors_stored: false,
            pledges: Book::new(),
            pledgers_stored: false,
            goal_reached_emitted: false,
            bonus_goal: params.bonus_goal,
            bonus_goal_description: params.bonus_goal_description,
            bonus_goal_reached_emitted: false,
            stretch_goals: Vec::new(),
            stretch_goal_reached_emitted: Vec::new(),
            roadmap: Vec::new(),
            title: None,
            description: None,
            social_links: None,
            nft_contract: None,
            milestones: Vec::new(),
            milestone_basis: 0,
            milestone_votes: Vec::new(),
            milestone_refunds_claimed: Vec::new(),
            kyc_gate: None,
            previous_wasm_hash: None,
        };
        proof {
            assert(campaign@.roadmap =~= Seq::<RoadmapItem<Seq<u8>>>::empty());
            assert(campaign@.milestones =~= Seq::<Milestone<Seq<u8>>>::empty());
            assert(campaign@ =~= fresh_campaign(params@));
        }
        let mut env = Env::new(campaign, limits, now, contract);
        extend_instance_ttl(&mut env);
        assert(env@ =~= initialized(limits, now, contract, params@));
        Ok(env)
    }
}

} // verus!
