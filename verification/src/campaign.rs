//! The stored state of a campaign.

use vstd::prelude::*;

use crate::book::{book_wf, total, Book, Entry};
use crate::milestone_release::schedule_wf;
use crate::types::{
    gate_view, text_view, Address, KycGateConfig, Milestone, MilestoneRefundKey, MilestoneVoteKey,
    PlatformConfig, RoadmapItem, Status, Text, WasmHash,
};

verus! {

/// Everything that the contract keeps in storage for a campaign.
pub struct Campaign {
    pub admin: Address,
    pub creator: Address,
    pub token: Address,
    pub token_decimals: u32,
    pub goal: i128,
    pub deadline: u64,
    pub min_contribution: i128,
    pub platform_config: Option<PlatformConfig>,
    pub status: Status,
    pub total_raised: i128,
    pub total_pledged: i128,
    pub contributions: Book,
    /// Whether storage holds a contributor list (an empty one counts).
    pub contributors_stored: bool,
    pub pledges: Book,
    /// Whether storage holds a pledger list (an empty one counts).
    pub pledgers_stored: bool,
    pub goal_reached_emitted: bool,
    pub bonus_goal: Option<i128>,
    pub bonus_goal_description: Option<Text>,
    pub bonus_goal_reached_emitted: bool,
    pub stretch_goals: Vec<i128>,
    pub stretch_goal_reached_emitted: Vec<i128>,
    pub roadmap: Vec<RoadmapItem<Text>>,
    pub title: Option<Text>,
    pub description: Option<Text>,
    pub social_links: Option<Text>,
    pub nft_contract: Option<Address>,
    pub milestones: Vec<Milestone<Text>>,
    pub milestone_basis: i128,
    pub milestone_votes: Vec<MilestoneVoteKey>,
    pub milestone_refunds_claimed: Vec<MilestoneRefundKey>,
    pub kyc_gate: Option<KycGateConfig<Text>>,
    pub previous_wasm_hash: Option<WasmHash>,
}

/// What a campaign's stored state holds.
#[verifier::ext_equal]
pub struct CampaignView {
    pub admin: Address,
    pub creator: Address,
    pub token: Address,
    pub token_decimals: u32,
    pub goal: i128,
    pub deadline: u64,
    pub min_contribution: i128,
    pub platform_config: Option<PlatformConfig>,
    pub status: Status,
    pub total_raised: int,
    pub total_pledged: int,
    pub contributions: Seq<Entry>,
    pub contributors_stored: bool,
    pub pledges: Seq<Entry>,
    pub pledgers_stored: bool,
    pub goal_reached_emitted: bool,
    pub bonus_goal: Option<i128>,
    pub bonus_goal_description: Option<Seq<u8>>,
    pub bonus_goal_reached_emitted: bool,
    pub stretch_goals: Seq<i128>,
    pub stretch_goal_reached_emitted: Seq<i128>,
    pub roadmap: Seq<RoadmapItem<Seq<u8>>>,
    pub title: Option<Seq<u8>>,
    pub description: Option<Seq<u8>>,
    pub social_links: Option<Seq<u8>>,
    pub nft_contract: Option<Address>,
    pub milestones: Seq<Milestone<Seq<u8>>>,
    pub milestone_basis: i128,
    pub milestone_votes: Seq<MilestoneVoteKey>,
    pub milestone_refunds_claimed: Seq<MilestoneRefundKey>,
    pub kyc_gate: Option<KycGateConfig<Seq<u8>>>,
    pub previous_wasm_hash: Option<WasmHash>,
}

impl View for Campaign {
    type V = CampaignView;

    open spec fn view(&self) -> CampaignView {
        CampaignView {
            admin: self.admin,
            creator: self.creator,
            token: self.token,
            token_decimals: self.token_decimals,
            goal: self.goal,
            deadline: self.deadline,
            min_contribution: self.min_contribution,
            platform_config: self.platform_config,
            status: self.status,
            total_raised: self.total_raised as int,
            total_pledged: self.total_pledged as int,
            contributions: self.contributions@,
            contributors_stored: self.contributors_stored,
            pledges: self.pledges@,
            pledgers_stored: self.pledgers_stored,
            goal_reached_emitted: self.goal_reached_emitted,
            bonus_goal: self.bonus_goal,
            bonus_goal_description: text_view(self.bonus_goal_description),
            bonus_goal_reached_emitted: self.bonus_goal_reached_emitted,
            stretch_goals: self.stretch_goals@,
            stretch_goal_reached_emitted: self.stretch_goal_reached_emitted@,
            roadmap: self.roadmap@.map_values(|item: RoadmapItem<Text>| item@),
            title: text_view(self.title),
            description: text_view(self.description),
            social_links: text_view(self.social_links),
            nft_contract: self.nft_contract,
            milestones: self.milestones@.map_values(|m: Milestone<Text>| m@),
            milestone_basis: self.milestone_basis,
            milestone_votes: self.milestone_votes@,
            milestone_refunds_claimed: self.milestone_refunds_claimed@,
            kyc_gate: gate_view(self.kyc_gate),
            previous_wasm_hash: self.previous_wasm_hash,
        }
    }
}

impl CampaignView {
    /// What holds of every campaign between two calls.
    pub open spec fn wf(self) -> bool {
        &&& self.goal > 0
        &&& self.min_contribution > 0
        &&& self.milestones.len() == 0 ==> self.total_raised >= 0
        &&& book_wf(self.contributions)
        &&& book_wf(self.pledges)
        &&& self.contributions.len() <= u32::MAX
        &&& self.pledges.len() <= u32::MAX
        &&& self.contributions.len() > 0 ==> self.contributors_stored
        &&& self.pledges.len() > 0 ==> self.pledgers_stored
        // A running campaign holds at least what stands to its contributors' names, as long as
        // no milestone schedule shares the funds out.
        &&& self.status is Active && self.milestones.len() == 0 ==> total(self.contributions)
            <= self.total_raised
        &&& self.milestones.len() > 0 ==> schedule_wf(self)
        &&& self.milestone_basis >= 0
        // What is pledged in all is the sum of the single pledges.
        &&& self.total_pledged == total(self.pledges)
        &&& self.platform_config matches Some(config) ==> config.fee_bps < 10_000
        &&& self.bonus_goal matches Some(bonus) ==> bonus > self.goal
        &&& forall|i: int|
            0 <= i < self.stretch_goals.len() ==> #[trigger] self.stretch_goals[i] > self.goal
        &&& self.stretch_goals.len() <= u32::MAX
        &&& self.stretch_goal_reached_emitted.no_duplicates()
        &&& self.roadmap.len() <= u32::MAX
        &&& text_len(self.title) <= u32::MAX
        &&& text_len(self.description) <= u32::MAX
        &&& text_len(self.social_links) <= u32::MAX
    }
}

/// The length of an optional text; nothing for an absent one.
pub open spec fn text_len(t: Option<Seq<u8>>) -> nat {
    match t {
        Some(s) => s.len(),
        None => 0,
    }
}

} // verus!
