//! When a call is accepted, and for what reason it is refused otherwise, said of what is
//! stored, of the time and of the call's arguments.

use vstd::prelude::*;

use crate::batch::{
    cancel_refusal, collect_refusal, collection_guard, collection_in_range, refund_refusal,
};
use crate::book::{amount_of, book_wf, lemma_place_unique, listed, participants, total, Entry};
use crate::campaign::CampaignView;
use crate::contract_state_size::StateLimits;
use crate::contribute::{
    contribute_refusal, contribution_refusal, pledge_admission_refusal, pledge_in_range,
    pledge_refusal,
};
use crate::crowdfund_initialize_function::{initialize_refusal, InitParams};
use crate::env::EnvView;
use crate::goals::stretch_goal_refusal;
use crate::kyc_gate::{configure_refusal, needs_approval, passes_gate, toggle_refusal};
use crate::metadata::{lengths_in_range, metadata_guard, metadata_refusal, roadmap_refusal};
use crate::milestone_release::{
    claim_guard, claim_in_range, claim_refusal, finalize_refusal, lemma_numbered,
    milestone_place, proposal_guard, proposal_in_range, proposal_refusal, release_in_range,
    release_refusal, row_fits, schedule_total, vote_refusal, MilestonePolicy,
};
use crate::queries::nft_contract_refusal;
use crate::refund_single_token::refund_single_refusal;
use crate::types::{
    outcome, Address, ContractError, MilestoneInput, MilestoneRefundKey, MilestoneVoteKey,
};
use crate::withdraw::{withdraw_refusal, withdrawal_in_range};

verus! {

/// What a book says of its participants: a participant's amount is that of the line under
/// the participant's name, and nothing stands to the name of anybody else. Participants are
/// read off line by line.
pub proof fn law_book_is_read_line_by_line(s: Seq<Entry>, who: Address)
    requires
        book_wf(s),
    ensures
        participants(s).len() == s.len(),
        forall|i: int| 0 <= i < s.len() ==> (#[trigger] participants(s)[i]) == s[i].who,
        forall|i: int|
            0 <= i < s.len() && (#[trigger] s[i]).who == who ==> listed(s, who) && amount_of(s, who)
                == s[i].amount,
        (forall|i: int| 0 <= i < s.len() ==> (#[trigger] s[i]).who != who) ==> !listed(s, who)
            && amount_of(s, who) == 0,
{
    assert forall|i: int| 0 <= i < s.len() && (#[trigger] s[i]).who == who implies listed(s, who)
        && amount_of(s, who) == s[i].amount by {
        lemma_place_unique(s, i);
    }
}

/// The sum of a book is the sum of its lines.
pub proof fn law_book_is_summed_up(s: Seq<Entry>, line: Entry)
    ensures
        total(Seq::<Entry>::empty()) == 0,
        total(s.push(line)) == total(s) + line.amount,
{
    assert(s.push(line).drop_last() =~= s);
}

/// A call that is refused for no reason succeeds; one that is refused fails with the reason.
pub proof fn law_refusals_are_reported(error: ContractError)
    ensures
        outcome(None) is Ok,
        outcome(Some(error)) is Err && outcome(Some(error))->Err_0 == error,
{
}

/// A campaign starts once, with a positive goal and a positive minimum, a deadline that is
/// far enough ahead, a fee below the whole, a bonus goal above the goal, and a token. What is
/// wrong is reported in this order.
pub proof fn law_campaign_starts_on_sound_terms(
    started: bool,
    limits: StateLimits,
    now: u64,
    is_token: bool,
    p: InitParams<Seq<u8>>,
)
    ensures
        ({
            let r = initialize_refusal(started, limits, now, is_token, p);
            let goal = p.goal > 0;
            let minimum = p.min_contribution > 0;
            let time = p.deadline - now >= limits.min_deadline_offset;
            let fee = p.platform_config matches Some(config) ==> config.fee_bps < 10_000;
            let bonus = p.bonus_goal matches Some(bonus) ==> bonus > p.goal;
            let text = p.bonus_goal_description matches Some(text) ==> text.len()
                <= limits.max_bonus_goal_description;
            &&& r is None <==> !started && goal && minimum && time && fee && bonus && text
                && is_token
            &&& r == Some(ContractError::AlreadyInitialized) <==> started
            &&& r == Some(ContractError::InvalidGoal) <==> !started && !goal
            &&& r == Some(ContractError::InvalidMinContribution) <==> !started && goal && !minimum
            &&& r == Some(ContractError::DeadlineTooSoon) <==> !started && goal && minimum && !time
            &&& r == Some(ContractError::InvalidPlatformFee) <==> !started && goal && minimum
                && time && !fee
            &&& r == Some(ContractError::InvalidBonusGoal) <==> !started && goal && minimum && time
                && fee && !bonus
            &&& r == Some(ContractError::InvalidBonusGoalDescription) <==> !started && goal
                && minimum && time && fee && bonus && !text
            &&& r == Some(ContractError::InvalidTokenAddress) <==> !started && goal && minimum
                && time && fee && bonus && text && !is_token
        }),
{
}

/// The KYC gate asks for approval where it is switched on and the amount, together with all
/// that the address has contributed and pledged before, comes to the threshold or more; with
/// approval everything gets through.
pub proof fn law_gate_asks_from_the_threshold_on(
    c: CampaignView,
    who: Address,
    amount: int,
    verified: bool,
)
    ensures
        c.kyc_gate is None ==> !needs_approval(c, who, amount),
        c.kyc_gate matches Some(gate) ==> (needs_approval(c, who, amount) <==> gate.enabled
            && amount_of(c.contributions, who) + amount_of(c.pledges, who) + amount
            >= gate.threshold),
        passes_gate(c, who, amount, verified) <==> verified || !needs_approval(c, who, amount),
{
}

/// A contribution is accepted from anybody, new or not, while the campaign runs: of the
/// minimum or more, up to the deadline, as long as the list has room, the KYC gate is
/// satisfied, the token reports the decimals that it was set up with, and the sums fit. Each
/// reason for a refusal is reported where it holds and none before it does.
pub proof fn law_contribution_is_accepted_within_the_terms(
    e: EnvView,
    who: Address,
    amount: i128,
    verified: bool,
    decimals: u32,
)
    ensures
        ({
            let c = e.campaign;
            let early = contribution_refusal(e, who, amount);
            let r = contribute_refusal(e, who, amount, verified, decimals);
            let active = c.status is Active;
            let enough = amount >= c.min_contribution;
            let in_time = e.now <= c.deadline;
            let room = listed(c.contributions, who) || c.contributions.len()
                < e.limits.max_contributors;
            let cleared = verified || !(c.kyc_gate is Some && c.kyc_gate->0.enabled && amount_of(
                c.contributions,
                who,
            ) + amount_of(c.pledges, who) + amount >= c.kyc_gate->0.threshold);
            let fits = amount_of(c.contributions, who) + amount <= i128::MAX && c.total_raised
                + amount <= i128::MAX;
            let good = active && amount != 0 && enough && in_time && room;
            &&& early is None <==> good
            &&& early is Some ==> r == early
            &&& r is None <==> good && cleared && decimals == c.token_decimals && fits
            &&& r == Some(ContractError::CampaignNotActive) <==> !active
            &&& r == Some(ContractError::ZeroAmount) <==> active && amount == 0
            &&& r == Some(ContractError::BelowMinimum) <==> active && amount != 0 && !enough
            &&& r == Some(ContractError::CampaignEnded) <==> active && amount != 0 && enough
                && !in_time
            &&& early == Some(ContractError::InvalidParameter) <==> active && amount != 0 && enough
                && in_time && !room
            &&& r == Some(ContractError::KycRequired) <==> good && !cleared
            &&& r == Some(ContractError::InvalidParameter) <==> early == Some(
                ContractError::InvalidParameter,
            ) || (good && cleared && decimals != c.token_decimals)
            &&& r == Some(ContractError::Overflow) <==> good && cleared && decimals
                == c.token_decimals && !fits
        }),
{
}

/// A pledge is accepted of the minimum or more, up to the deadline, as long as the list has
/// room and the KYC gate is satisfied.
pub proof fn law_pledge_is_accepted_within_the_terms(
    e: EnvView,
    who: Address,
    amount: i128,
    verified: bool,
)
    ensures
        ({
            let c = e.campaign;
            let early = pledge_admission_refusal(e, who, amount);
            let r = pledge_refusal(e, who, amount, verified);
            let enough = amount >= c.min_contribution;
            let in_time = e.now <= c.deadline;
            let room = listed(c.pledges, who) || c.pledges.len() < e.limits.max_pledgers;
            let cleared = verified || !(c.kyc_gate is Some && c.kyc_gate->0.enabled && amount_of(
                c.contributions,
                who,
            ) + amount_of(c.pledges, who) + amount >= c.kyc_gate->0.threshold);
            let good = enough && in_time && room;
            &&& early is None <==> good
            &&& early is Some ==> r == early
            &&& r is None <==> good && cleared
            &&& r == Some(ContractError::BelowMinimum) <==> !enough
            &&& r == Some(ContractError::CampaignEnded) <==> enough && !in_time
            &&& r == Some(ContractError::InvalidParameter) <==> enough && in_time && !room
            &&& r == Some(ContractError::KycRequired) <==> good && !cleared
            &&& good && cleared ==> (pledge_in_range(e, who, amount, verified)
                <==> c.total_pledged + amount <= i128::MAX)
            &&& !(good && cleared) ==> pledge_in_range(e, who, amount, verified)
        }),
{
}

/// Pledges are collected after the deadline of a running campaign without a schedule, if what
/// is raised and what is pledged come to the goal together.
pub proof fn law_pledges_are_collected_for_the_goal(e: EnvView)
    ensures
        ({
            let c = e.campaign;
            let early = collection_guard(e);
            let r = collect_refusal(e);
            let active = c.status is Active;
            let plain = c.milestones.len() == 0;
            let over = e.now > c.deadline;
            let met = c.total_raised + c.total_pledged >= c.goal;
            &&& early is None <==> active && plain && over
            &&& early is Some ==> r == early
            &&& r is None <==> active && plain && over && met
            &&& r == Some(ContractError::CampaignNotActive) <==> !active
            &&& r == Some(ContractError::MilestoneModeActive) <==> active && !plain
            &&& r == Some(ContractError::CampaignStillActive) <==> active && plain && !over
            &&& r == Some(ContractError::GoalNotReached) <==> active && plain && over && !met
            &&& collection_in_range(e) <==> (active && plain && over ==> c.total_raised
                + c.total_pledged <= i128::MAX)
        }),
{
}

/// A payout is to be had after the deadline of a running campaign without a schedule, if the
/// goal is met.
pub proof fn law_payout_is_due_once_the_goal_is_met(e: EnvView)
    ensures
        ({
            let c = e.campaign;
            let r = withdraw_refusal(e);
            let active = c.status is Active;
            let plain = c.milestones.len() == 0;
            let over = e.now > c.deadline;
            let met = c.total_raised >= c.goal;
            &&& r is None <==> active && plain && over && met
            &&& r == Some(ContractError::CampaignNotActive) <==> !active
            &&& r == Some(ContractError::MilestoneModeActive) <==> active && !plain
            &&& r == Some(ContractError::CampaignStillActive) <==> active && plain && !over
            &&& r == Some(ContractError::GoalNotReached) <==> active && plain && over && !met
            &&& withdrawal_in_range(e) <==> (r is None ==> (c.platform_config matches Some(config)
                ==> c.total_raised * config.fee_bps <= i128::MAX))
        }),
{
}

/// Refunds are to be had after the deadline of a running campaign, while less than the goal is
/// raised: by everybody together, and by every contributor with something to their name.
pub proof fn law_refund_is_due_below_the_goal(e: EnvView, who: Address)
    ensures
        ({
            let c = e.campaign;
            let all = refund_refusal(e);
            let one = refund_single_refusal(e, who);
            let active = c.status is Active;
            let over = e.now > c.deadline;
            let missed = c.total_raised < c.goal;
            let owed = amount_of(c.contributions, who) > 0;
            &&& all is None <==> active && over && missed
            &&& all == Some(ContractError::CampaignNotActive) <==> !active
            &&& all == Some(ContractError::CampaignStillActive) <==> active && !over
            &&& all == Some(ContractError::GoalReached) <==> active && over && !missed
            &&& one is None <==> active && over && missed && owed
            &&& one == Some(ContractError::CampaignNotActive) <==> !active
            &&& one == Some(ContractError::CampaignStillActive) <==> active && !over
            &&& one == Some(ContractError::GoalReached) <==> active && over && !missed
            &&& one == Some(ContractError::NothingToRefund) <==> active && over && missed && !owed
        }),
{
}

/// A running campaign without a schedule can be cancelled at any time.
pub proof fn law_running_campaign_can_be_cancelled(e: EnvView)
    ensures
        ({
            let c = e.campaign;
            let r = cancel_refusal(e);
            let active = c.status is Active;
            let plain = c.milestones.len() == 0;
            &&& r is None <==> active && plain
            &&& r == Some(ContractError::CampaignNotActive) <==> !active
            &&& r == Some(ContractError::MilestoneModeActive) <==> active && !plain
        }),
{
}

/// How long a field is once an update has passed over it.
pub open spec fn kept_or_new(current: Option<Seq<u8>>, new: Option<Seq<u8>>) -> nat {
    match new {
        Some(text) => text.len(),
        None => match current {
            Some(text) => text.len(),
            None => 0,
        },
    }
}

/// Metadata can be updated by the creator of a running campaign, if every new text and all
/// three fields together keep their bounds.
pub proof fn law_metadata_keeps_its_bounds(
    e: EnvView,
    creator: Address,
    title: Option<Seq<u8>>,
    description: Option<Seq<u8>>,
    socials: Option<Seq<u8>>,
)
    ensures
        ({
            let c = e.campaign;
            let early = metadata_guard(e, creator);
            let r = metadata_refusal(e, creator, title, description, socials);
            let active = c.status is Active;
            let own = creator == c.creator;
            let sum = kept_or_new(c.title, title) + kept_or_new(c.description, description)
                + kept_or_new(c.social_links, socials);
            let fits = {
                &&& sum <= e.limits.max_metadata_total
                &&& title matches Some(text) ==> text.len() <= e.limits.max_title
                &&& description matches Some(text) ==> text.len() <= e.limits.max_description
                &&& socials matches Some(text) ==> text.len() <= e.limits.max_social_links
            };
            &&& early is None <==> active && own
            &&& early is Some ==> r == early
            &&& r is None <==> active && own && fits
            &&& r == Some(ContractError::CampaignNotActive) <==> !active
            &&& r == Some(ContractError::Unauthorized) <==> active && !own
            &&& r == Some(ContractError::InvalidParameter) <==> active && own && !fits
            &&& lengths_in_range(e, creator, title, description, socials) <==> (active && own
                ==> sum <= u32::MAX)
        }),
{
}

/// A roadmap item is accepted if its date lies ahead, its description is not empty and keeps
/// its bound, and there is room; a description on the roadmap that exceeds its bound is in the
/// way of any further item.
pub proof fn law_roadmap_looks_ahead(e: EnvView, date: u64, description: Seq<u8>)
    ensures
        ({
            let r = roadmap_refusal(e, date, description);
            let items = e.campaign.roadmap;
            &&& r is None || r == Some(ContractError::InvalidParameter)
            &&& r is None ==> date > e.now && description.len() > 0
            &&& r is None ==> description.len() <= e.limits.max_string_len
            &&& r is None ==> items.len() < e.limits.max_roadmap_items
            &&& r is None ==> forall|i: int|
                0 <= i < items.len() ==> (#[trigger] items[i]).description.len()
                    <= e.limits.max_roadmap_description
            &&& r is Some ==> date <= e.now || description.len() == 0 || description.len()
                > e.limits.max_string_len || items.len() >= e.limits.max_roadmap_items || exists|
                i: int,
            |
                0 <= i < items.len() && (#[trigger] items[i]).description.len()
                    > e.limits.max_roadmap_description
        }),
{
}

/// A stretch goal is accepted if it exceeds the goal and there is room for it.
pub proof fn law_stretch_goal_exceeds_the_goal(e: EnvView, milestone: i128)
    ensures
        ({
            let r = stretch_goal_refusal(e, milestone);
            let fits = milestone > e.campaign.goal && e.campaign.stretch_goals.len()
                < e.limits.max_stretch_goals;
            &&& r is None <==> fits
            &&& r == Some(ContractError::InvalidParameter) <==> !fits
        }),
{
}

/// Only the creator names the NFT contract; only the admin configures and switches the KYC
/// gate, and switches it only once it is configured.
pub proof fn law_settings_belong_to_their_keepers(e: EnvView, caller: Address)
    ensures
        ({
            let c = e.campaign;
            let nft = nft_contract_refusal(e, caller);
            let gate = configure_refusal(e, caller);
            let switch = toggle_refusal(e, caller);
            &&& nft is None <==> caller == c.creator
            &&& nft == Some(ContractError::Unauthorized) <==> caller != c.creator
            &&& gate is None <==> caller == c.admin
            &&& gate == Some(ContractError::Unauthorized) <==> caller != c.admin
            &&& switch is None <==> caller == c.admin && c.kyc_gate is Some
            &&& switch == Some(ContractError::Unauthorized) <==> caller != c.admin
            &&& switch == Some(ContractError::KycGateNotConfigured) <==> caller == c.admin
                && c.kyc_gate is None
        }),
{
}

/// What the rows of a schedule amount to is the sum of their amounts.
pub proof fn law_rows_are_summed_up(
    rows: Seq<MilestoneInput<Seq<u8>>>,
    row: MilestoneInput<Seq<u8>>,
)
    ensures
        schedule_total(Seq::empty(), 0) == 0,
        schedule_total(rows.push(row), rows.len() as int + 1) == schedule_total(
            rows,
            rows.len() as int,
        ) + row.amount,
{
    lemma_rows_before(rows, row, rows.len() as int);
}

/// A further row leaves what the rows before it amount to.
proof fn lemma_rows_before(
    rows: Seq<MilestoneInput<Seq<u8>>>,
    row: MilestoneInput<Seq<u8>>,
    k: int,
)
    requires
        0 <= k <= rows.len(),
    ensures
        schedule_total(rows.push(row), k) == schedule_total(rows, k),
    decreases k,
{
    if k > 0 {
        lemma_rows_before(rows, row, k - 1);
    }
}

/// A schedule is accepted from the creator, once, after the deadline of a running campaign
/// that met its goal, if it has rows, within the bounds, of positive amounts, that sum up
/// exactly to what is raised.
pub proof fn law_schedule_is_accepted_if_it_adds_up(
    e: EnvView,
    policy: MilestonePolicy,
    creator: Address,
    rows: Seq<MilestoneInput<Seq<u8>>>,
)
    ensures
        ({
            let c = e.campaign;
            let early = proposal_guard(e, creator);
            let r = proposal_refusal(e, policy, creator, rows);
            let own = creator == c.creator;
            let active = c.status is Active;
            let first = c.milestones.len() == 0;
            let over = e.now > c.deadline;
            let met = c.total_raised >= c.goal;
            let fits = {
                &&& 0 < rows.len() <= policy.max_milestones
                &&& forall|i: int|
                    0 <= i < rows.len() ==> (#[trigger] rows[i]).amount > 0
                        && rows[i].description.len() <= policy.max_description
                &&& schedule_total(rows, rows.len() as int) == c.total_raised
            };
            let good = own && active && first && over && met;
            &&& early is None <==> good
            &&& early is Some ==> r == early
            &&& r is None <==> good && fits
            &&& r == Some(ContractError::Unauthorized) <==> !own
            &&& r == Some(ContractError::CampaignNotActive) <==> own && !active
            &&& r == Some(ContractError::MilestonesAlreadyProposed) <==> own && active && !first
            &&& r == Some(ContractError::CampaignStillActive) <==> own && active && first && !over
            &&& r == Some(ContractError::GoalNotReached) <==> own && active && first && over
                && !met
            &&& r == Some(ContractError::InvalidMilestoneSchedule) <==> good && !fits
            &&& proposal_in_range(e, policy, creator) <==> (good ==> e.now + policy.voting_period
                <= u64::MAX)
        }),
{
    assert forall|i: int| 0 <= i < rows.len() implies row_fits(policy, #[trigger] rows[i]) == (
    rows[i].amount > 0 && rows[i].description.len() <= policy.max_description) by {
    }
}

/// A vote is accepted from everybody who has something to their name, once per milestone, on
/// a pending milestone up to its voting deadline.
pub proof fn law_vote_is_open_to_contributors(
    e: EnvView,
    voter: Address,
    milestone_id: u32,
    approve: bool,
)
    requires
        e.campaign.wf(),
    ensures
        ({
            let c = e.campaign;
            let r = vote_refusal(e, voter, milestone_id, approve);
            let found = milestone_id < c.milestones.len();
            let m = c.milestones[milestone_id as int];
            let open = m.status is Pending && e.now <= m.voting_deadline;
            let before = c.milestone_votes.contains(MilestoneVoteKey { milestone_id, voter });
            let weight = amount_of(c.contributions, voter);
            let fits = (if approve {
                m.yes_weight
            } else {
                m.no_weight
            }) + weight <= i128::MAX;
            &&& r is None <==> found && open && !before && weight > 0 && fits
            &&& r == Some(ContractError::MilestoneNotFound) <==> !found
            &&& r == Some(ContractError::MilestoneNotPending) <==> found && !open
            &&& r == Some(ContractError::AlreadyVoted) <==> found && open && before
            &&& r == Some(ContractError::NoContributionWeight) <==> found && open && !before
                && weight <= 0
            &&& r == Some(ContractError::Overflow) <==> found && open && !before && weight > 0
                && !fits
        }),
{
    lemma_by_number(e.campaign, milestone_id);
}

/// In a well-formed campaign a milestone stands at the place of its id.
proof fn lemma_by_number(c: CampaignView, milestone_id: u32)
    requires
        c.wf(),
    ensures
        milestone_place(c.milestones, milestone_id, 0) == (
        if milestone_id < c.milestones.len() {
            milestone_id as int
        } else {
            c.milestones.len() as int
        }),
{
    if c.milestones.len() > 0 {
        lemma_numbered(c.milestones, milestone_id, 0);
    }
}

/// A vote is finalized after its deadline, on a milestone that is still pending.
pub proof fn law_vote_is_finalized_after_its_window(e: EnvView, milestone_id: u32)
    requires
        e.campaign.wf(),
    ensures
        ({
            let c = e.campaign;
            let r = finalize_refusal(e, milestone_id);
            let found = milestone_id < c.milestones.len();
            let m = c.milestones[milestone_id as int];
            let pending = m.status is Pending;
            let over = e.now > m.voting_deadline;
            &&& r is None <==> found && pending && over
            &&& r == Some(ContractError::MilestoneNotFound) <==> !found
            &&& r == Some(ContractError::MilestoneNotPending) <==> found && !pending
            &&& r == Some(ContractError::CampaignStillActive) <==> found && pending && !over
        }),
{
    lemma_by_number(e.campaign, milestone_id);
}

/// A milestone is released to the creator once it is approved, and only then.
pub proof fn law_release_waits_for_approval(e: EnvView, creator: Address, milestone_id: u32)
    requires
        e.campaign.wf(),
    ensures
        ({
            let c = e.campaign;
            let r = release_refusal(e, creator, milestone_id);
            let own = creator == c.creator;
            let found = milestone_id < c.milestones.len();
            let m = c.milestones[milestone_id as int];
            &&& r is None <==> own && found && m.status is Approved
            &&& r == Some(ContractError::Unauthorized) <==> !own
            &&& r == Some(ContractError::MilestoneNotFound) <==> own && !found
            &&& r == Some(ContractError::MilestoneNotApproved) <==> own && found
                && m.status !is Approved
            &&& release_in_range(e, creator, milestone_id) <==> (r is None ==> (
            c.platform_config matches Some(config) ==> m.amount * config.fee_bps <= i128::MAX))
        }),
{
    lemma_by_number(e.campaign, milestone_id);
}

/// A share of a milestone can be claimed once it is rejected, once by every contributor with
/// something to their name, as far as it comes to anything: that is, where the milestone's
/// amount times the contribution reaches the schedule's basis.
pub proof fn law_claim_waits_for_rejection(e: EnvView, contributor: Address, milestone_id: u32)
    requires
        e.campaign.wf(),
    ensures
        ({
            let c = e.campaign;
            let early = claim_guard(e, contributor, milestone_id);
            let r = claim_refusal(e, contributor, milestone_id);
            let found = milestone_id < c.milestones.len();
            let m = c.milestones[milestone_id as int];
            let rejected = m.status is Rejected;
            let weight = amount_of(c.contributions, contributor);
            let before = c.milestone_refunds_claimed.contains(
                MilestoneRefundKey { milestone_id, contributor },
            );
            let something = m.amount * weight >= c.milestone_basis;
            let good = found && rejected && weight > 0 && !before;
            &&& early is None <==> good
            &&& early is Some ==> r == early
            &&& r is None <==> good && something
            &&& r == Some(ContractError::MilestoneNotFound) <==> !found
            &&& r == Some(ContractError::MilestoneNotRejected) <==> found && !rejected
            &&& r == Some(ContractError::NoContributionWeight) <==> found && rejected && weight
                <= 0
            &&& r == Some(ContractError::NothingToRefund) <==> found && rejected && weight > 0 && (
            before || !something)
            &&& claim_in_range(e, contributor, milestone_id) <==> (good ==> m.amount * weight
                <= i128::MAX)
        }),
{
    let c = e.campaign;
    lemma_by_number(c, milestone_id);
    if claim_guard(e, contributor, milestone_id) is None {
        let amount = c.milestones[milestone_id as int].amount as int;
        let weight = amount_of(c.contributions, contributor);
        let product = amount * weight;
        assert(product > 0) by (nonlinear_arith)
            requires
                product == amount * weight,
                amount > 0,
                weight > 0,
        ;
        let basis = c.milestone_basis as int;
        assert(product / basis > 0 <==> product >= basis) by (nonlinear_arith)
            requires
                basis > 0,
                product > 0,
        ;
    }
}

} // verus!
