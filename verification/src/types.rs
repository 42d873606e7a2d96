//! Value types that the contract stores, takes and returns.

use vstd::prelude::*;

verus! {

/// Text as the ledger keeps it: a string of bytes.
pub type Text = Vec<u8>;

/// The account or contract that a 256-bit payload identifies.
#[derive(Clone, Copy, Debug, PartialEq, Eq, Structural, Hash)]
pub struct Address {
    /// `true` for a contract, `false` for an account.
    pub contract: bool,
    /// The payload's upper 128 bits.
    pub hi: u128,
    /// The payload's lower 128 bits.
    pub lo: u128,
}

/// SHA-256 hash of a contract's code.
#[derive(Clone, Copy, Debug, PartialEq, Eq, Structural, Hash)]
pub struct WasmHash {
    pub hi: u128,
    pub lo: u128,
}

#[derive(Clone, Copy, Debug, PartialEq, Eq, Structural)]
pub enum Status {
    Active,
    Successful,
    Refunded,
    Cancelled,
}

/// One dated entry of the campaign's roadmap. `S` is `Text` in running code and a
/// sequence of bytes in contracts.
#[derive(Clone, Debug, PartialEq, Eq)]
pub struct RoadmapItem<S> {
    pub date: u64,
    pub description: S,
}

#[derive(Clone, Copy, Debug, PartialEq, Eq, Structural)]
pub enum MilestoneStatus {
    Pending,
    Approved,
    Rejected,
    Released,
}

/// One row of a milestone release schedule.
#[derive(Clone, Debug, PartialEq, Eq)]
pub struct Milestone<S> {
    pub id: u32,
    pub description: S,
    pub amount: i128,
    pub status: MilestoneStatus,
    pub yes_weight: i128,
    pub no_weight: i128,
    pub voting_deadline: u64,
}

/// Caller-supplied input for one row of a proposed milestone schedule.
#[derive(Clone, Debug, PartialEq, Eq)]
pub struct MilestoneInput<S> {
    pub description: S,
    pub amount: i128,
}

/// Storage key for a single voter's vote on a single milestone.
#[derive(Clone, Copy, Debug, PartialEq, Eq, Structural)]
pub struct MilestoneVoteKey {
    pub milestone_id: u32,
    pub voter: Address,
}

/// Storage key for a single contributor's claimed-refund flag on a single
/// (rejected) milestone.
#[derive(Clone, Copy, Debug, PartialEq, Eq, Structural)]
pub struct MilestoneRefundKey {
    pub milestone_id: u32,
    pub contributor: Address,
}

/// Who receives the platform fee, and how large it is in basis points.
#[derive(Clone, Copy, Debug, PartialEq, Eq, Structural)]
pub struct PlatformConfig {
    pub address: Address,
    pub fee_bps: u32,
}

/// Pluggable KYC/AML gate configuration of a campaign. A campaign without one has
/// its gate fully off.
#[derive(Clone, Debug, PartialEq, Eq)]
pub struct KycGateConfig<S> {
    /// The attestation contract that reports whether an address is verified.
    pub verifier: Address,
    /// Once an address's committed amount (contributions and pledges) reaches this
    /// value, further commitments from it need the verifier's approval.
    pub threshold: i128,
    /// On/off switch that leaves the other fields alone.
    pub enabled: bool,
    /// Free-form jurisdiction tag; informational only.
    pub jurisdiction: S,
}

/// Summary figures of a campaign.
#[derive(Clone, Copy, Debug, PartialEq, Eq, Structural)]
pub struct CampaignStats {
    pub total_raised: i128,
    pub goal: i128,
    pub progress_bps: u32,
    pub contributor_count: u32,
    pub average_contribution: i128,
    pub largest_contribution: i128,
}

/// Keys of the contract's storage.
#[derive(Clone, Copy, Debug, PartialEq, Eq, Structural)]
pub enum DataKey {
    Creator,
    Token,
    Goal,
    Deadline,
    TotalRaised,
    Contribution(Address),
    Contributors,
    Status,
    MinContribution,
    Pledge(Address),
    TotalPledged,
    StretchGoals,
    /// Which stretch goals have already had their event published.
    StretchGoalReachedEmitted,
    BonusGoal,
    BonusGoalDescription,
    BonusGoalReachedEmitted,
    GoalReachedEmitted,
    Pledgers,
    Roadmap,
    Admin,
    Title,
    Description,
    SocialLinks,
    PlatformConfig,
    NFTContract,
    TokenDecimals,
    Milestones,
    MilestoneBasis,
    MilestoneVote(MilestoneVoteKey),
    MilestoneRefundClaimed(MilestoneRefundKey),
    KycGate,
    PreviousWasmHash,
}

/// Reasons for which an entry point refuses a call.
#[derive(Clone, Copy, Debug, PartialEq, Eq, PartialOrd, Ord, Structural)]
pub enum ContractError {
    AlreadyInitialized,
    CampaignEnded,
    CampaignStillActive,
    GoalNotReached,
    GoalReached,
    Overflow,
    NothingToRefund,
    /// The goal must be positive.
    InvalidGoal,
    /// The minimum contribution must be positive.
    InvalidMinContribution,
    /// The deadline is too close.
    DeadlineTooSoon,
    /// The platform fee must stay below 10,000 basis points.
    InvalidPlatformFee,
    /// The bonus goal must exceed the goal.
    InvalidBonusGoal,
    /// The bonus goal's description is too long.
    InvalidBonusGoalDescription,
    ZeroAmount,
    BelowMinimum,
    CampaignNotActive,
    Unauthorized,
    InvalidParameter,
    /// A milestone schedule already exists.
    MilestonesAlreadyProposed,
    /// The proposed schedule is empty, over capacity, has a non-positive amount or an
    /// oversized description, or its amounts do not sum to the total raised.
    InvalidMilestoneSchedule,
    MilestoneNotFound,
    MilestoneNotPending,
    MilestoneNotApproved,
    AlreadyVoted,
    NoContributionWeight,
    /// The call is blocked because a milestone schedule is active.
    MilestoneModeActive,
    MilestoneNotRejected,
    /// The committed amount reached the KYC threshold and the address is not verified.
    KycRequired,
    /// The KYC gate was switched before it was ever configured.
    KycGateNotConfigured,
    /// The token address does not implement the token interface.
    InvalidTokenAddress,
}

impl ContractError {
    /// The number under which callers of the contract see this error.
    pub open spec fn spec_code(self) -> u32 {
        match self {
            ContractError::AlreadyInitialized => 1,
            ContractError::CampaignEnded => 2,
            ContractError::CampaignStillActive => 3,
            ContractError::GoalNotReached => 4,
            ContractError::GoalReached => 5,
            ContractError::Overflow => 6,
            ContractError::NothingToRefund => 7,
            ContractError::InvalidGoal => 8,
            ContractError::InvalidMinContribution => 9,
            ContractError::DeadlineTooSoon => 10,
            ContractError::InvalidPlatformFee => 11,
            ContractError::InvalidBonusGoal => 12,
            ContractError::InvalidBonusGoalDescription => 13,
            ContractError::ZeroAmount => 14,
            ContractError::BelowMinimum => 15,
            ContractError::CampaignNotActive => 16,
            ContractError::Unauthorized => 17,
            ContractError::InvalidParameter => 18,
            ContractError::MilestonesAlreadyProposed => 19,
            ContractError::InvalidMilestoneSchedule => 20,
            ContractError::MilestoneNotFound => 21,
            ContractError::MilestoneNotPending => 22,
            ContractError::MilestoneNotApproved => 23,
            ContractError::AlreadyVoted => 24,
            ContractError::NoContributionWeight => 25,
            ContractError::MilestoneModeActive => 26,
            ContractError::MilestoneNotRejected => 27,
            ContractError::KycRequired => 28,
            ContractError::KycGateNotConfigured => 29,
            ContractError::InvalidTokenAddress => 30,
        }
    }

    /// Returns the number under which callers of the contract see this error.
    pub fn code(self) -> (n: u32)
        ensures
            n == self.spec_code(),
    {
        match self {
            ContractError::AlreadyInitialized => 1,
            ContractError::CampaignEnded => 2,
            ContractError::CampaignStillActive => 3,
            ContractError::GoalNotReached => 4,
            ContractError::GoalReached => 5,
            ContractError::Overflow => 6,
            ContractError::NothingToRefund => 7,
            ContractError::InvalidGoal => 8,
            ContractError::InvalidMinContribution => 9,
            ContractError::DeadlineTooSoon => 10,
            ContractError::InvalidPlatformFee => 11,
            ContractError::InvalidBonusGoal => 12,
            ContractError::InvalidBonusGoalDescription => 13,
            ContractError::ZeroAmount => 14,
            ContractError::BelowMinimum => 15,
            ContractError::CampaignNotActive => 16,
            ContractError::Unauthorized => 17,
            ContractError::InvalidParameter => 18,
            ContractError::MilestonesAlreadyProposed => 19,
            ContractError::InvalidMilestoneSchedule => 20,
            ContractError::MilestoneNotFound => 21,
            ContractError::MilestoneNotPending => 22,
            ContractError::MilestoneNotApproved => 23,
            ContractError::AlreadyVoted => 24,
            ContractError::NoContributionWeight => 25,
            ContractError::MilestoneModeActive => 26,
            ContractError::MilestoneNotRejected => 27,
            ContractError::KycRequired => 28,
            ContractError::KycGateNotConfigured => 29,
            ContractError::InvalidTokenAddress => 30,
        }
    }
}

/// What a call returns, given why it is refused, if it is.
pub open spec fn outcome(refusal: Option<ContractError>) -> Result<(), ContractError> {
    match refusal {
        Some(error) => Err(error),
        None => Ok(()),
    }
}

/// The crowdfunding contract: its entry points are this type's functions.
pub struct CrowdfundContract;

impl View for RoadmapItem<Text> {
    type V = RoadmapItem<Seq<u8>>;

    open spec fn view(&self) -> RoadmapItem<Seq<u8>> {
        RoadmapItem { date: self.date, description: self.description@ }
    }
}

impl View for Milestone<Text> {
    type V = Milestone<Seq<u8>>;

    open spec fn view(&self) -> Milestone<Seq<u8>> {
        Milestone {
            id: self.id,
            description: self.description@,
            amount: self.amount,
            status: self.status,
            yes_weight: self.yes_weight,
            no_weight: self.no_weight,
            voting_deadline: self.voting_deadline,
        }
    }
}

impl View for MilestoneInput<Text> {
    type V = MilestoneInput<Seq<u8>>;

    open spec fn view(&self) -> MilestoneInput<Seq<u8>> {
        MilestoneInput { description: self.description@, amount: self.amount }
    }
}

impl View for KycGateConfig<Text> {
    type V = KycGateConfig<Seq<u8>>;

    open spec fn view(&self) -> KycGateConfig<Seq<u8>> {
        KycGateConfig {
            verifier: self.verifier,
            threshold: self.threshold,
            enabled: self.enabled,
            jurisdiction: self.jurisdiction@,
        }
    }
}

/// What an optional text holds.
pub open spec fn text_view(t: Option<Text>) -> Option<Seq<u8>> {
    match t {
        Some(s) => Some(s@),
        None => None,
    }
}

/// What an optional gate configuration holds.
pub open spec fn gate_view(g: Option<KycGateConfig<Text>>) -> Option<KycGateConfig<Seq<u8>>> {
    match g {
        Some(config) => Some(config@),
        None => None,
    }
}

/// Copies a text.
pub fn copy_text(t: &Text) -> (r: Text)
    ensures
        r@ == t@,
{
    let r = t.clone();
    assert(r@ =~= t@);
    r
}

/// Copies an optional text.
pub fn copy_optional_text(t: &Option<Text>) -> (r: Option<Text>)
    ensures
        text_view(r) == text_view(*t),
{
    match t {
        Some(s) => Some(copy_text(s)),
        None => None,
    }
}

} // verus!
