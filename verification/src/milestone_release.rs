//! Milestone release schedules: drawing one up, voting on its milestones, and settling them.
//!
//! A schedule shares out all that a campaign has raised. An approved milestone is released to
//! the creator; a rejected one is refunded, to each contributor the share that the
//! contribution has in the schedule's basis. The total raised falls by what leaves the
//! contract. Nothing marks a schedule as completed.

use vstd::prelude::*;

use crate::book::{amount_of, book_wf, lemma_total_nonneg, place_of, total, Entry};
use crate::campaign::CampaignView;
use crate::contract_state_size::validate_length;
use crate::env::{
    bump_persistent, extend_instance_ttl, instance_bump, persistent_bump, publication, Effect, Env,
    EnvView,
};
use crate::types::{
    copy_text, outcome, Address, ContractError, CrowdfundContract, DataKey, Milestone,
    MilestoneInput, MilestoneRefundKey, MilestoneStatus, MilestoneVoteKey, Status, Text,
};
use crate::withdraw::{
    fee_effects, fee_for, fee_in_range, lemma_fee_bounds, pay_fee, work_out_fee,
};
use crate::withdraw_event_emission::{
    emit_milestone_refund_claimed, emit_milestone_released, emit_milestone_resolved,
    emit_milestone_vote_cast, emit_milestones_proposed, Event,
};

verus! {

/// The bounds that a deployment sets to milestone schedules.
#[derive(Clone, Copy, Debug, PartialEq, Eq, Structural)]
pub struct MilestonePolicy {
    pub max_milestones: u32,
    /// Bound on a milestone's description, in bytes.
    pub max_description: u32,
    /// For how many seconds a schedule is voted on.
    pub voting_period: u64,
}

/// The weights at which a milestone is decided.
#[derive(Clone, Copy, Debug, PartialEq, Eq, Structural)]
pub struct VoteThresholds {
    /// The weight in favour at which a milestone is approved.
    pub approval: i128,
    /// The weight against at which a milestone is rejected.
    pub rejection: i128,
}

/// What a contribution of `contribution` is due out of a rejected milestone of `amount`,
/// rounded down.
pub open spec fn share(amount: int, contribution: int, basis: int) -> int {
    amount * contribution / basis
}

/// The weights at which a milestone of a schedule over `basis` is decided: more than half.
pub fn majority(basis: i128) -> (r: VoteThresholds)
    requires
        basis >= 0,
    ensures
        r.approval == basis / 2 + 1,
        r.rejection == basis / 2 + 1,
        2 * (r.approval - 1) <= basis < 2 * r.approval,
        r.rejection == r.approval,
{
    VoteThresholds { approval: basis / 2 + 1, rejection: basis / 2 + 1 }
}

/// The shares that the first `k` contributors have in `amount`.
pub open spec fn shares_total(amount: int, s: Seq<Entry>, basis: int, k: int) -> int
    decreases k,
{
    if k <= 0 {
        0
    } else {
        shares_total(amount, s, basis, k - 1) + share(amount, s[k - 1].amount as int, basis)
    }
}

/// The shares in a milestone that the first `k` contributors have not claimed.
pub open spec fn unclaimed_shares(
    m: Milestone<Seq<u8>>,
    s: Seq<Entry>,
    claims: Seq<MilestoneRefundKey>,
    basis: int,
    k: int,
) -> int
    decreases k,
{
    if k <= 0 {
        0
    } else {
        unclaimed_shares(m, s, claims, basis, k - 1) + if claims.contains(
            MilestoneRefundKey { milestone_id: m.id, contributor: s[k - 1].who },
        ) {
            0
        } else {
            share(m.amount as int, s[k - 1].amount as int, basis)
        }
    }
}

/// What is still to be paid out of a milestone: nothing once it is released, the shares that
/// nobody has claimed yet once it is rejected, else all of it.
pub open spec fn due(
    m: Milestone<Seq<u8>>,
    s: Seq<Entry>,
    claims: Seq<MilestoneRefundKey>,
    basis: int,
) -> int {
    match m.status {
        MilestoneStatus::Released => 0,
        MilestoneStatus::Rejected => unclaimed_shares(m, s, claims, basis, s.len() as int),
        _ => m.amount as int,
    }
}

/// What is still to be paid out of the first `k` milestones.
pub open spec fn owed(
    milestones: Seq<Milestone<Seq<u8>>>,
    s: Seq<Entry>,
    claims: Seq<MilestoneRefundKey>,
    basis: int,
    k: int,
) -> int
    decreases k,
{
    if k <= 0 {
        0
    } else {
        owed(milestones, s, claims, basis, k - 1) + due(milestones[k - 1], s, claims, basis)
    }
}

/// What a campaign's schedule still owes.
pub open spec fn owed_by(c: CampaignView) -> int {
    owed(
        c.milestones,
        c.contributions,
        c.milestone_refunds_claimed,
        c.milestone_basis as int,
        c.milestones.len() as int,
    )
}

/// Whether what is raised covers what the schedule still owes.
pub open spec fn covered(c: CampaignView) -> bool {
    c.total_raised >= owed_by(c)
}

/// What holds of a campaign with a schedule: its goal was met, its milestones are numbered by
/// their places, and what is raised falls short of all that may still leave (what the
/// schedule owes, and refunds) by the schedule's basis at most.
pub open spec fn schedule_wf(c: CampaignView) -> bool {
    &&& c.milestones.len() <= u32::MAX
    &&& c.milestone_basis >= c.goal
    &&& total(c.contributions) <= c.milestone_basis
    &&& forall|i: int|
        0 <= i < c.milestones.len() ==> (#[trigger] c.milestones[i]).id == i
            && c.milestones[i].amount > 0
    &&& c.total_raised + c.milestone_basis >= owed_by(c) + total(c.contributions)
}

/// What the first `k` rows of a proposed schedule amount to.
pub open spec fn schedule_total(rows: Seq<MilestoneInput<Seq<u8>>>, k: int) -> int
    decreases k,
{
    if k <= 0 {
        0
    } else {
        schedule_total(rows, k - 1) + rows[k - 1].amount
    }
}

/// Whether one row of a proposed schedule is acceptable.
pub open spec fn row_fits(policy: MilestonePolicy, row: MilestoneInput<Seq<u8>>) -> bool {
    row.amount > 0 && row.description.len() <= policy.max_description
}

/// Whether a proposed schedule is acceptable: not empty, within its bounds, with
/// acceptable rows that amount to exactly `total_raised`.
pub open spec fn schedule_fits(
    policy: MilestonePolicy,
    rows: Seq<MilestoneInput<Seq<u8>>>,
    total_raised: int,
) -> bool {
    &&& 0 < rows.len() <= policy.max_milestones
    &&& forall|i: int| 0 <= i < rows.len() ==> row_fits(policy, #[trigger] rows[i])
    &&& schedule_total(rows, rows.len() as int) == total_raised
}

/// Why proposing a schedule is refused before the schedule is looked at, if it is.
pub open spec fn proposal_guard(e: EnvView, creator: Address) -> Option<ContractError> {
    let c = e.campaign;
    if creator != c.creator {
        Some(ContractError::Unauthorized)
    } else if c.status !is Active {
        Some(ContractError::CampaignNotActive)
    } else if c.milestones.len() > 0 {
        Some(ContractError::MilestonesAlreadyProposed)
    } else if e.now <= c.deadline {
        Some(ContractError::CampaignStillActive)
    } else if c.total_raised < c.goal {
        Some(ContractError::GoalNotReached)
    } else {
        None
    }
}

/// Why proposing a schedule is refused, if it is.
pub open spec fn proposal_refusal(
    e: EnvView,
    policy: MilestonePolicy,
    creator: Address,
    rows: Seq<MilestoneInput<Seq<u8>>>,
) -> Option<ContractError> {
    if proposal_guard(e, creator) is Some {
        proposal_guard(e, creator)
    } else if !schedule_fits(policy, rows, e.campaign.total_raised) {
        Some(ContractError::InvalidMilestoneSchedule)
    } else {
        None
    }
}

/// Whether the time until which an accepted schedule is voted on fits its type.
pub open spec fn proposal_in_range(e: EnvView, policy: MilestonePolicy, creator: Address) -> bool {
    proposal_guard(e, creator) is None ==> e.now + policy.voting_period <= u64::MAX
}

/// The milestones of a schedule that has just been proposed: numbered from 0 in the order
/// of its rows, undecided, without votes.
pub open spec fn fresh_schedule(
    rows: Seq<MilestoneInput<Seq<u8>>>,
    voting_deadline: u64,
) -> Seq<Milestone<Seq<u8>>> {
    Seq::new(
        rows.len(),
        |i: int|
            Milestone {
                id: i as u32,
                description: rows[i].description,
                amount: rows[i].amount,
                status: MilestoneStatus::Pending,
                yes_weight: 0,
                no_weight: 0,
                voting_deadline,
            },
    )
}

/// The stored state after a schedule was proposed.
pub open spec fn after_proposal(
    e: EnvView,
    policy: MilestonePolicy,
    rows: Seq<MilestoneInput<Seq<u8>>>,
) -> CampaignView {
    CampaignView {
        milestones: fresh_schedule(rows, (e.now + policy.voting_period) as u64),
        milestone_basis: e.campaign.total_raised as i128,
        ..e.campaign
    }
}

/// The invocation after a call that proposes a schedule.
pub open spec fn proposed(
    e: EnvView,
    policy: MilestonePolicy,
    creator: Address,
    rows: Seq<MilestoneInput<Seq<u8>>>,
) -> EnvView {
    if creator != e.campaign.creator {
        e
    } else if proposal_refusal(e, policy, creator, rows) is Some {
        e.demand(creator)
    } else {
        e.with_campaign(after_proposal(e, policy, rows)).demand(creator).extended().send(
            publication(
                Event::MilestonesProposed {
                    creator,
                    count: rows.len() as u32,
                    total_raised: e.campaign.total_raised as i128,
                },
            ),
        )
    }
}

/// The place of the first milestone, from place `k` on, with the given id; the length of
/// the schedule if there is none.
pub open spec fn milestone_place(s: Seq<Milestone<Seq<u8>>>, id: u32, k: int) -> int
    decreases s.len() - k,
{
    if k < 0 || k >= s.len() {
        s.len() as int
    } else if s[k].id == id {
        k
    } else {
        milestone_place(s, id, k + 1)
    }
}

/// What a milestone's votes of one kind come to with a further vote.
pub open spec fn tally(m: Milestone<Seq<u8>>, approve: bool, weight: int) -> int {
    if approve {
        m.yes_weight + weight
    } else {
        m.no_weight + weight
    }
}

/// Why a vote is refused, if it is.
pub open spec fn vote_refusal(
    e: EnvView,
    voter: Address,
    milestone_id: u32,
    approve: bool,
) -> Option<ContractError> {
    let c = e.campaign;
    let i = milestone_place(c.milestones, milestone_id, 0);
    let weight = amount_of(c.contributions, voter);
    if i >= c.milestones.len() {
        Some(ContractError::MilestoneNotFound)
    } else if c.milestones[i].status !is Pending || e.now > c.milestones[i].voting_deadline {
        Some(ContractError::MilestoneNotPending)
    } else if c.milestone_votes.contains(MilestoneVoteKey { milestone_id, voter }) {
        Some(ContractError::AlreadyVoted)
    } else if weight <= 0 {
        Some(ContractError::NoContributionWeight)
    } else if tally(c.milestones[i], approve, weight) > i128::MAX {
        Some(ContractError::Overflow)
    } else {
        None
    }
}

/// Whether a tally decides a milestone.
pub open spec fn decides(thresholds: VoteThresholds, approve: bool, weight: int) -> bool {
    if approve {
        weight >= thresholds.approval
    } else {
        weight >= thresholds.rejection
    }
}

/// A milestone after a vote.
pub open spec fn voted(
    m: Milestone<Seq<u8>>,
    thresholds: VoteThresholds,
    approve: bool,
    weight: int,
) -> Milestone<Seq<u8>> {
    let sum = tally(m, approve, weight);
    Milestone {
        yes_weight: if approve {
            sum as i128
        } else {
            m.yes_weight
        },
        no_weight: if approve {
            m.no_weight
        } else {
            sum as i128
        },
        status: if !decides(thresholds, approve, sum) {
            m.status
        } else if approve {
            MilestoneStatus::Approved
        } else {
            MilestoneStatus::Rejected
        },
        ..m
    }
}

/// The stored state after a vote.
pub open spec fn after_vote(
    c: CampaignView,
    thresholds: VoteThresholds,
    voter: Address,
    milestone_id: u32,
    approve: bool,
) -> CampaignView {
    let i = milestone_place(c.milestones, milestone_id, 0);
    CampaignView {
        milestones: c.milestones.update(
            i,
            voted(c.milestones[i], thresholds, approve, amount_of(c.contributions, voter)),
        ),
        milestone_votes: c.milestone_votes.push(MilestoneVoteKey { milestone_id, voter }),
        ..c
    }
}

/// What a vote asks of the host, in order.
pub open spec fn vote_effects(
    c: CampaignView,
    thresholds: VoteThresholds,
    voter: Address,
    milestone_id: u32,
    approve: bool,
) -> Seq<Effect<Seq<u8>>> {
    let weight = amount_of(c.contributions, voter);
    let before = c.milestones[milestone_place(c.milestones, milestone_id, 0)];
    let m = voted(before, thresholds, approve, weight);
    seq![
        instance_bump(),
        persistent_bump(DataKey::MilestoneVote(MilestoneVoteKey { milestone_id, voter })),
        publication(
            Event::MilestoneVoteCast {
                milestone_id,
                voter,
                approve,
                weight: weight as i128,
                yes_weight: m.yes_weight,
                no_weight: m.no_weight,
            },
        ),
    ] + if decides(thresholds, approve, tally(before, approve, weight)) {
        seq![
            publication(
                Event::MilestoneResolved {
                    milestone_id,
                    approved: approve,
                    yes_weight: m.yes_weight,
                    no_weight: m.no_weight,
                },
            ),
        ]
    } else {
        Seq::empty()
    }
}

/// The invocation after a call that casts a vote.
pub open spec fn vote_cast(
    e: EnvView,
    thresholds: VoteThresholds,
    voter: Address,
    milestone_id: u32,
    approve: bool,
) -> EnvView {
    if vote_refusal(e, voter, milestone_id, approve) is Some {
        e.demand(voter)
    } else {
        e.with_campaign(
            after_vote(e.campaign, thresholds, voter, milestone_id, approve),
        ).demand(voter).send_all(
            vote_effects(e.campaign, thresholds, voter, milestone_id, approve),
        )
    }
}

/// Why finalizing a vote is refused, if it is.
pub open spec fn finalize_refusal(e: EnvView, milestone_id: u32) -> Option<ContractError> {
    let c = e.campaign;
    let i = milestone_place(c.milestones, milestone_id, 0);
    if i >= c.milestones.len() {
        Some(ContractError::MilestoneNotFound)
    } else if c.milestones[i].status !is Pending {
        Some(ContractError::MilestoneNotPending)
    } else if e.now <= c.milestones[i].voting_deadline {
        Some(ContractError::CampaignStillActive)
    } else {
        None
    }
}

/// The stored state after a vote was finalized: what was not decided in time is rejected.
pub open spec fn after_finalizing(c: CampaignView, milestone_id: u32) -> CampaignView {
    let i = milestone_place(c.milestones, milestone_id, 0);
    CampaignView {
        milestones: c.milestones.update(
            i,
            Milestone { status: MilestoneStatus::Rejected, ..c.milestones[i] },
        ),
        ..c
    }
}

/// The invocation after a call that finalizes a vote.
pub open spec fn vote_finalized(e: EnvView, milestone_id: u32) -> EnvView {
    if finalize_refusal(e, milestone_id) is Some {
        e
    } else {
        let m = e.campaign.milestones[milestone_place(e.campaign.milestones, milestone_id, 0)];
        e.with_campaign(after_finalizing(e.campaign, milestone_id)).extended().send(
            publication(
                Event::MilestoneResolved {
                    milestone_id,
                    approved: false,
                    yes_weight: m.yes_weight,
                    no_weight: m.no_weight,
                },
            ),
        )
    }
}

/// Why releasing a milestone is refused, if it is.
pub open spec fn release_refusal(e: EnvView, creator: Address, milestone_id: u32) -> Option<
    ContractError,
> {
    let c = e.campaign;
    let i = milestone_place(c.milestones, milestone_id, 0);
    if creator != c.creator {
        Some(ContractError::Unauthorized)
    } else if i >= c.milestones.len() {
        Some(ContractError::MilestoneNotFound)
    } else if c.milestones[i].status !is Approved {
        Some(ContractError::MilestoneNotApproved)
    } else {
        None
    }
}

/// Whether working out the fee on an accepted release stays within its type.
pub open spec fn release_in_range(e: EnvView, creator: Address, milestone_id: u32) -> bool {
    release_refusal(e, creator, milestone_id) is None ==> {
        let c = e.campaign;
        fee_in_range(c, c.milestones[milestone_place(c.milestones, milestone_id, 0)].amount as int)
    }
}

/// The stored state after a milestone was released.
pub open spec fn after_release(c: CampaignView, milestone_id: u32) -> CampaignView {
    let i = milestone_place(c.milestones, milestone_id, 0);
    CampaignView {
        milestones: c.milestones.update(
            i,
            Milestone { status: MilestoneStatus::Released, ..c.milestones[i] },
        ),
        total_raised: c.total_raised - c.milestones[i].amount,
        ..c
    }
}

/// What releasing a milestone asks of the host, in order: the fee, the creator's share.
pub open spec fn release_effects(e: EnvView, milestone_id: u32) -> Seq<Effect<Seq<u8>>> {
    let c = e.campaign;
    let amount = c.milestones[milestone_place(c.milestones, milestone_id, 0)].amount;
    let fee = fee_for(c, amount as int);
    let payout = (amount - fee) as i128;
    seq![instance_bump()] + fee_effects(e, fee) + seq![
        Effect::Transfer { token: c.token, from: e.contract, to: c.creator, amount: payout },
        publication(
            Event::MilestoneReleased {
                milestone_id,
                creator: c.creator,
                payout,
                platform_fee: fee as i128,
            },
        ),
    ]
}

/// The invocation after a call that releases a milestone.
pub open spec fn released(e: EnvView, creator: Address, milestone_id: u32) -> EnvView {
    if creator != e.campaign.creator {
        e
    } else if release_refusal(e, creator, milestone_id) is Some {
        e.demand(creator)
    } else {
        e.with_campaign(after_release(e.campaign, milestone_id)).demand(creator).send_all(
            release_effects(e, milestone_id),
        )
    }
}

/// Why a claim is refused before the share is worked out, if it is.
pub open spec fn claim_guard(e: EnvView, contributor: Address, milestone_id: u32) -> Option<
    ContractError,
> {
    let c = e.campaign;
    let i = milestone_place(c.milestones, milestone_id, 0);
    if i >= c.milestones.len() {
        Some(ContractError::MilestoneNotFound)
    } else if c.milestones[i].status !is Rejected {
        Some(ContractError::MilestoneNotRejected)
    } else if amount_of(c.contributions, contributor) <= 0 {
        Some(ContractError::NoContributionWeight)
    } else if c.milestone_refunds_claimed.contains(
        MilestoneRefundKey { milestone_id, contributor },
    ) {
        Some(ContractError::NothingToRefund)
    } else {
        None
    }
}

/// Whether working out the share of a claim stays within its type.
pub open spec fn claim_in_range(e: EnvView, contributor: Address, milestone_id: u32) -> bool {
    claim_guard(e, contributor, milestone_id) is None ==> {
        let c = e.campaign;
        let amount = c.milestones[milestone_place(c.milestones, milestone_id, 0)].amount;
        amount * amount_of(c.contributions, contributor) <= i128::MAX
    }
}

/// What a contributor is due out of a rejected milestone.
pub open spec fn share_of(c: CampaignView, contributor: Address, milestone_id: u32) -> int {
    share(
        c.milestones[milestone_place(c.milestones, milestone_id, 0)].amount as int,
        amount_of(c.contributions, contributor),
        c.milestone_basis as int,
    )
}

/// Why a claim is refused, if it is. A second claim finds nothing to refund, and so does
/// one whose share rounds to nothing.
pub open spec fn claim_refusal(e: EnvView, contributor: Address, milestone_id: u32) -> Option<
    ContractError,
> {
    if claim_guard(e, contributor, milestone_id) is Some {
        claim_guard(e, contributor, milestone_id)
    } else if share_of(e.campaign, contributor, milestone_id) <= 0 {
        Some(ContractError::NothingToRefund)
    } else {
        None
    }
}

/// The stored state after a claim.
pub open spec fn after_claim(
    c: CampaignView,
    contributor: Address,
    milestone_id: u32,
) -> CampaignView {
    CampaignView {
        milestone_refunds_claimed: c.milestone_refunds_claimed.push(
            MilestoneRefundKey { milestone_id, contributor },
        ),
        total_raised: c.total_raised - share_of(c, contributor, milestone_id),
        ..c
    }
}

/// What a claim asks of the host, in order.
pub open spec fn claim_effects(e: EnvView, contributor: Address, milestone_id: u32) -> Seq<
    Effect<Seq<u8>>,
> {
    let amount = share_of(e.campaign, contributor, milestone_id) as i128;
    seq![
        instance_bump(),
        persistent_bump(
            DataKey::MilestoneRefundClaimed(MilestoneRefundKey { milestone_id, contributor }),
        ),
        Effect::Transfer { token: e.campaign.token, from: e.contract, to: contributor, amount },
        publication(Event::MilestoneRefundClaimed { milestone_id, contributor, amount }),
    ]
}

/// The invocation after a call that claims a refund out of a milestone.
pub open spec fn claimed(e: EnvView, contributor: Address, milestone_id: u32) -> EnvView {
    if claim_refusal(e, contributor, milestone_id) is Some {
        e.demand(contributor)
    } else {
        e.with_campaign(after_claim(e.campaign, contributor, milestone_id)).demand(
            contributor,
        ).send_all(claim_effects(e, contributor, milestone_id))
    }
}

/// The first milestone of a schedule, from place `k` on, with the given id.
pub open spec fn find_milestone(s: Seq<Milestone<Seq<u8>>>, id: u32, k: int) -> Option<
    Milestone<Seq<u8>>,
>
    decreases s.len() - k,
{
    if k < 0 || k >= s.len() {
        None
    } else if s[k].id == id {
        Some(s[k])
    } else {
        find_milestone(s, id, k + 1)
    }
}

/// What an optional milestone holds.
pub open spec fn milestone_view(m: Option<Milestone<Text>>) -> Option<Milestone<Seq<u8>>> {
    match m {
        Some(milestone) => Some(milestone@),
        None => None,
    }
}

/// Copies a milestone.
fn copy_milestone(m: &Milestone<Text>) -> (r: Milestone<Text>)
    ensures
        r@ == m@,
{
    Milestone {
        id: m.id,
        description: copy_text(&m.description),
        amount: m.amount,
        status: m.status,
        yes_weight: m.yes_weight,
        no_weight: m.no_weight,
        voting_deadline: m.voting_deadline,
    }
}

/// Copies a schedule.
fn copy_milestones(milestones: &Vec<Milestone<Text>>) -> (r: Vec<Milestone<Text>>)
    ensures
        r@.map_values(|m: Milestone<Text>| m@) == milestones@.map_values(
            |m: Milestone<Text>| m@,
        ),
{
    let mut r: Vec<Milestone<Text>> = Vec::new();
    let mut i: usize = 0;
    while i < milestones.len()
        invariant
            i <= milestones@.len(),
            r@.len() == i,
            forall|j: int| 0 <= j < i ==> (#[trigger] r@[j])@ == milestones@[j]@,
        decreases milestones@.len() - i,
    {
        r.push(copy_milestone(&milestones[i]));
        i = i + 1;
    }
    assert(r@.map_values(|m: Milestone<Text>| m@) =~= milestones@.map_values(
        |m: Milestone<Text>| m@,
    ));
    r
}

/// What a lookup by id finds stands at the milestone's place.
pub proof fn lemma_find_at_place(s: Seq<Milestone<Seq<u8>>>, id: u32, k: int)
    requires
        0 <= k,
    ensures
        milestone_place(s, id, k) >= s.len() ==> find_milestone(s, id, k) is None,
        milestone_place(s, id, k) < s.len() ==> {
            let i = milestone_place(s, id, k);
            &&& k <= i
            &&& s[i].id == id
            &&& find_milestone(s, id, k) == Some(s[i])
        },
    decreases s.len() - k,
{
    if k < s.len() {
        lemma_find_at_place(s, id, k + 1);
    }
}

/// Finds the first milestone with the given id.
fn find_place(milestones: &Vec<Milestone<Text>>, id: u32) -> (i: usize)
    ensures
        i == milestone_place(milestones@.map_values(|m: Milestone<Text>| m@), id, 0),
        i <= milestones@.len(),
{
    let ghost s = milestones@.map_values(|m: Milestone<Text>| m@);
    let mut i: usize = 0;
    while i < milestones.len()
        invariant
            i <= milestones@.len(),
            s == milestones@.map_values(|m: Milestone<Text>| m@),
            milestone_place(s, id, 0) == milestone_place(s, id, i as int),
        decreases milestones@.len() - i,
    {
        assert(s[i as int] == milestones@[i as int]@);
        if milestones[i].id == id {
            return i;
        }
        i = i + 1;
    }
    i
}

/// What the first rows of a schedule amount to is never more than what all rows do.
proof fn lemma_schedule_total(rows: Seq<MilestoneInput<Seq<u8>>>, k: int)
    requires
        0 <= k <= rows.len(),
        forall|i: int| k <= i < rows.len() ==> (#[trigger] rows[i]).amount > 0,
    ensures
        schedule_total(rows, k) <= schedule_total(rows, rows.len() as int),
    decreases rows.len() - k,
{
    if k < rows.len() {
        lemma_schedule_total(rows, k + 1);
    }
}

/// Checks a proposed schedule.
fn check_schedule(
    policy: MilestonePolicy,
    milestones: &Vec<MilestoneInput<Text>>,
    total_raised: i128,
) -> (r: bool)
    requires
        total_raised >= 0,
    ensures
        r == schedule_fits(
            policy,
            milestones@.map_values(|row: MilestoneInput<Text>| row@),
            total_raised as int,
        ),
{
    let ghost rows = milestones@.map_values(|row: MilestoneInput<Text>| row@);
    if milestones.len() == 0 || !validate_length(milestones.len(), policy.max_milestones) {
        return false;
    }
    let mut sum: i128 = 0;
    let mut fits: bool = true;
    let mut i: usize = 0;
    while i < milestones.len() && fits
        invariant
            i <= milestones@.len(),
            total_raised >= 0,
            rows == milestones@.map_values(|row: MilestoneInput<Text>| row@),
            fits ==> sum == schedule_total(rows, i as int),
            fits ==> forall|j: int| 0 <= j < i ==> row_fits(policy, #[trigger] rows[j]),
            fits ==> sum >= 0,
            !fits ==> !schedule_fits(policy, rows, total_raised as int),
        decreases milestones@.len() - i,
    {
        let amount: i128 = milestones[i].amount;
        assert(rows[i as int] == milestones@[i as int]@);
        if amount <= 0 || !validate_length(
            milestones[i].description.len(),
            policy.max_description,
        ) {
            assert(!row_fits(policy, rows[i as int]));
            fits = false;
        } else if amount > total_raised - sum {
            proof {
                if schedule_fits(policy, rows, total_raised as int) {
                    lemma_schedule_total(rows, i + 1);
                }
            }
            fits = false;
        } else {
            sum = sum + amount;
        }
        i = i + 1;
    }
    fits && sum == total_raised
}

/// Milestones numbered by their places are found there.
pub proof fn lemma_numbered(s: Seq<Milestone<Seq<u8>>>, id: u32, k: int)
    requires
        0 <= k <= s.len() <= u32::MAX,
        forall|i: int| 0 <= i < s.len() ==> (#[trigger] s[i]).id == i,
    ensures
        milestone_place(s, id, k) == (if k <= id < s.len() {
            id as int
        } else {
            s.len() as int
        }),
    decreases s.len() - k,
{
    if k < s.len() {
        lemma_numbered(s, id, k + 1);
    }
}

/// A share is not negative, and shares in proportion to contributions stay in proportion.
pub proof fn lemma_share(amount: int, contribution: int, basis: int)
    requires
        amount >= 0,
        contribution >= 0,
        basis > 0,
    ensures
        0 <= share(amount, contribution, basis),
        share(amount, contribution, basis) * basis <= amount * contribution,
{
    let q = share(amount, contribution, basis);
    assert(amount * contribution >= 0) by (nonlinear_arith)
        requires
            amount >= 0,
            contribution >= 0,
    ;
    assert(0 <= q && q * basis <= amount * contribution) by (nonlinear_arith)
        requires
            q == amount * contribution / basis,
            amount * contribution >= 0,
            basis > 0,
    ;
}

/// The shares are in proportion to the contributions.
proof fn lemma_shares_in_proportion(amount: int, s: Seq<Entry>, basis: int, k: int)
    requires
        book_wf(s),
        amount >= 0,
        basis > 0,
        0 <= k <= s.len(),
    ensures
        shares_total(amount, s, basis, k) * basis <= amount * total(s.take(k)),
    decreases k,
{
    if k == 0 {
        assert(s.take(0) =~= Seq::empty());
    } else {
        lemma_shares_in_proportion(amount, s, basis, k - 1);
        let before = shares_total(amount, s, basis, k - 1);
        let x = s[k - 1].amount as int;
        let here = share(amount, x, basis);
        let t = total(s.take(k - 1));
        lemma_share(amount, x, basis);
        assert(s.take(k).drop_last() =~= s.take(k - 1));
        assert(total(s.take(k)) == t + x);
        assert((before + here) * basis == before * basis + here * basis) by (nonlinear_arith);
        assert(amount * (t + x) == amount * t + amount * x) by (nonlinear_arith);
    }
}

/// The shares in an amount never exceed it.
pub proof fn lemma_shares_within(amount: int, s: Seq<Entry>, basis: int)
    requires
        book_wf(s),
        amount > 0,
        0 < basis,
        total(s) <= basis,
    ensures
        shares_total(amount, s, basis, s.len() as int) <= amount,
{
    let n = s.len() as int;
    let shares = shares_total(amount, s, basis, n);
    lemma_shares_in_proportion(amount, s, basis, n);
    lemma_total_nonneg(s);
    assert(s.take(n) =~= s);
    let t = total(s);
    assert(shares <= amount) by (nonlinear_arith)
        requires
            shares * basis <= amount * t,
            0 <= t <= basis,
            amount > 0,
            basis > 0,
    ;
}

/// The unclaimed shares are some of all shares.
proof fn lemma_unclaimed_shares(
    m: Milestone<Seq<u8>>,
    s: Seq<Entry>,
    claims: Seq<MilestoneRefundKey>,
    basis: int,
    k: int,
)
    requires
        book_wf(s),
        m.amount > 0,
        0 < basis,
        0 <= k <= s.len(),
    ensures
        0 <= unclaimed_shares(m, s, claims, basis, k) <= shares_total(
            m.amount as int,
            s,
            basis,
            k,
        ),
    decreases k,
{
    if k > 0 {
        lemma_unclaimed_shares(m, s, claims, basis, k - 1);
        lemma_share(m.amount as int, s[k - 1].amount as int, basis);
    }
}

/// No more is due out of a milestone than it amounts to.
proof fn lemma_due_within(
    m: Milestone<Seq<u8>>,
    s: Seq<Entry>,
    claims: Seq<MilestoneRefundKey>,
    basis: int,
)
    requires
        book_wf(s),
        m.amount > 0,
        0 < basis,
        total(s) <= basis,
    ensures
        0 <= due(m, s, claims, basis) <= m.amount,
{
    lemma_unclaimed_shares(m, s, claims, basis, s.len() as int);
    lemma_shares_within(m.amount as int, s, basis);
}

/// Clearing lines of the book leaves no more unclaimed than before.
proof fn lemma_unclaimed_shrinks(
    m: Milestone<Seq<u8>>,
    s: Seq<Entry>,
    t: Seq<Entry>,
    claims: Seq<MilestoneRefundKey>,
    basis: int,
    k: int,
)
    requires
        book_wf(s),
        m.amount > 0,
        0 < basis,
        0 <= k <= s.len(),
        cleared(s, t),
    ensures
        unclaimed_shares(m, t, claims, basis, k) <= unclaimed_shares(m, s, claims, basis, k),
    decreases k,
{
    if k > 0 {
        lemma_unclaimed_shrinks(m, s, t, claims, basis, k - 1);
        lemma_share(m.amount as int, s[k - 1].amount as int, basis);
        assert(t[k - 1] == s[k - 1] || t[k - 1].amount == 0);
        assert(share(m.amount as int, 0, basis) == 0) by (nonlinear_arith)
            requires
                basis > 0,
        ;
    }
}

/// Clearing lines of the book leaves no more owed than before.
proof fn lemma_owed_shrinks(
    milestones: Seq<Milestone<Seq<u8>>>,
    s: Seq<Entry>,
    t: Seq<Entry>,
    claims: Seq<MilestoneRefundKey>,
    basis: int,
    k: int,
)
    requires
        book_wf(s),
        0 < basis,
        cleared(s, t),
        0 <= k <= milestones.len(),
        forall|i: int| 0 <= i < milestones.len() ==> (#[trigger] milestones[i]).amount > 0,
    ensures
        owed(milestones, t, claims, basis, k) <= owed(milestones, s, claims, basis, k),
    decreases k,
{
    if k > 0 {
        lemma_owed_shrinks(milestones, s, t, claims, basis, k - 1);
        lemma_unclaimed_shrinks(milestones[k - 1], s, t, claims, basis, s.len() as int);
    }
}

/// One book is another with some lines cleared.
pub open spec fn cleared(s: Seq<Entry>, t: Seq<Entry>) -> bool {
    &&& t.len() == s.len()
    &&& forall|j: int|
        0 <= j < s.len() ==> (#[trigger] t[j]).who == s[j].who && (t[j] == s[j] || t[j].amount
            == 0)
}

/// Refunds that clear lines of the book keep a schedule well-formed, and leave a total that
/// falls short of nothing by more than the schedule's basis.
pub proof fn lemma_refund_keeps_schedule(c: CampaignView, d: CampaignView)
    requires
        c.wf(),
        c.milestones.len() > 0,
        cleared(c.contributions, d.contributions),
        book_wf(d.contributions),
        d.milestones == c.milestones,
        d.milestone_basis == c.milestone_basis,
        d.milestone_refunds_claimed == c.milestone_refunds_claimed,
        d.goal == c.goal,
        c.total_raised - d.total_raised == total(c.contributions) - total(d.contributions),
        total(d.contributions) <= total(c.contributions),
    ensures
        schedule_wf(d),
        d.total_raised >= -d.milestone_basis,
{
    let basis = c.milestone_basis as int;
    let len = c.milestones.len() as int;
    let claims = c.milestone_refunds_claimed;
    lemma_owed_shrinks(c.milestones, c.contributions, d.contributions, claims, basis, len);
    lemma_total_nonneg(d.contributions);
    lemma_owed_covers(d.milestones, d.contributions, claims, basis, len);
}

/// What is owed is never negative, and covers what is due out of each milestone.
proof fn lemma_owed_covers(
    milestones: Seq<Milestone<Seq<u8>>>,
    s: Seq<Entry>,
    claims: Seq<MilestoneRefundKey>,
    basis: int,
    k: int,
)
    requires
        book_wf(s),
        0 < basis,
        total(s) <= basis,
        0 <= k <= milestones.len(),
        forall|i: int| 0 <= i < milestones.len() ==> (#[trigger] milestones[i]).amount > 0,
    ensures
        0 <= owed(milestones, s, claims, basis, k),
        forall|i: int|
            0 <= i < k ==> 0 <= due(#[trigger] milestones[i], s, claims, basis) <= owed(
                milestones,
                s,
                claims,
                basis,
                k,
            ),
    decreases k,
{
    if k > 0 {
        lemma_owed_covers(milestones, s, claims, basis, k - 1);
        lemma_due_within(milestones[k - 1], s, claims, basis);
    }
}

/// Replacing one milestone changes what is owed by the difference in what is due out of it.
proof fn lemma_owed_update(
    milestones: Seq<Milestone<Seq<u8>>>,
    i: int,
    m: Milestone<Seq<u8>>,
    s: Seq<Entry>,
    claims: Seq<MilestoneRefundKey>,
    basis: int,
    k: int,
)
    requires
        0 <= i < milestones.len(),
        0 <= k <= milestones.len(),
    ensures
        owed(milestones.update(i, m), s, claims, basis, k) == owed(
            milestones,
            s,
            claims,
            basis,
            k,
        ) + (if i < k {
            due(m, s, claims, basis) - due(milestones[i], s, claims, basis)
        } else {
            0
        }),
    decreases k,
{
    if k > 0 {
        lemma_owed_update(milestones, i, m, s, claims, basis, k - 1);
    }
}

/// A further claim takes the claimant's share off what is unclaimed of its milestone, and
/// nothing off what is unclaimed of another.
proof fn lemma_claim_added(
    m: Milestone<Seq<u8>>,
    s: Seq<Entry>,
    claims: Seq<MilestoneRefundKey>,
    key: MilestoneRefundKey,
    basis: int,
    p: int,
    k: int,
)
    requires
        book_wf(s),
        !claims.contains(key),
        0 <= p < s.len(),
        s[p].who == key.contributor,
        0 <= k <= s.len(),
    ensures
        unclaimed_shares(m, s, claims.push(key), basis, k) == unclaimed_shares(
            m,
            s,
            claims,
            basis,
            k,
        ) - (if m.id == key.milestone_id && p < k {
            share(m.amount as int, s[p].amount as int, basis)
        } else {
            0
        }),
    decreases k,
{
    if k > 0 {
        lemma_claim_added(m, s, claims, key, basis, p, k - 1);
        let here = MilestoneRefundKey { milestone_id: m.id, contributor: s[k - 1].who };
        let after = claims.push(key);
        assert(after.contains(here) <==> claims.contains(here) || here == key) by {
            if claims.contains(here) {
                assert(after[claims.index_of(here)] == here);
            }
            if here == key {
                assert(after[claims.len() as int] == here);
            }
        }
        if k - 1 != p {
            assert(s[k - 1].who != s[p].who);
        }
    }
}

/// A further claim lowers what is owed by the claimant's share.
proof fn lemma_owed_after_claim(
    milestones: Seq<Milestone<Seq<u8>>>,
    s: Seq<Entry>,
    claims: Seq<MilestoneRefundKey>,
    key: MilestoneRefundKey,
    basis: int,
    p: int,
    k: int,
)
    requires
        book_wf(s),
        !claims.contains(key),
        0 <= p < s.len(),
        s[p].who == key.contributor,
        0 <= k <= milestones.len() <= u32::MAX,
        key.milestone_id < milestones.len(),
        milestones[key.milestone_id as int].status is Rejected,
        forall|i: int| 0 <= i < milestones.len() ==> (#[trigger] milestones[i]).id == i,
    ensures
        owed(milestones, s, claims.push(key), basis, k) == owed(milestones, s, claims, basis, k)
            - (if key.milestone_id < k {
            share(
                milestones[key.milestone_id as int].amount as int,
                s[p].amount as int,
                basis,
            )
        } else {
            0
        }),
    decreases k,
{
    if k > 0 {
        lemma_owed_after_claim(milestones, s, claims, key, basis, p, k - 1);
        lemma_claim_added(milestones[k - 1], s, claims, key, basis, p, s.len() as int);
    }
}

/// A schedule that has just been proposed owes what its rows amount to.
proof fn lemma_owed_fresh(
    rows: Seq<MilestoneInput<Seq<u8>>>,
    voting_deadline: u64,
    s: Seq<Entry>,
    claims: Seq<MilestoneRefundKey>,
    basis: int,
    k: int,
)
    requires
        0 <= k <= rows.len(),
    ensures
        owed(fresh_schedule(rows, voting_deadline), s, claims, basis, k) == schedule_total(
            rows,
            k,
        ),
    decreases k,
{
    if k > 0 {
        lemma_owed_fresh(rows, voting_deadline, s, claims, basis, k - 1);
    }
}

/// Proposing a schedule keeps a campaign well-formed; the schedule is covered.
pub proof fn lemma_proposal_wf(
    e: EnvView,
    policy: MilestonePolicy,
    creator: Address,
    rows: Seq<MilestoneInput<Seq<u8>>>,
)
    requires
        e.campaign.wf(),
        e.campaign.total_raised <= i128::MAX,
        proposal_refusal(e, policy, creator, rows) is None,
    ensures
        after_proposal(e, policy, rows).wf(),
        covered(after_proposal(e, policy, rows)),
{
    let c = e.campaign;
    let n = after_proposal(e, policy, rows);
    lemma_owed_fresh(
        rows,
        (e.now + policy.voting_period) as u64,
        c.contributions,
        c.milestone_refunds_claimed,
        n.milestone_basis as int,
        rows.len() as int,
    );
    assert forall|i: int| 0 <= i < n.milestones.len() implies (#[trigger] n.milestones[i]).id == i
        && n.milestones[i].amount > 0 by {
        assert(row_fits(policy, rows[i]));
    }
}

/// Deciding a pending milestone keeps a campaign well-formed, and covered if it was.
pub proof fn lemma_decision_wf(c: CampaignView, d: CampaignView, i: int, m: Milestone<Seq<u8>>)
    requires
        c.wf(),
        0 <= i < c.milestones.len(),
        c.milestones[i].status is Pending,
        m.id == c.milestones[i].id,
        m.amount == c.milestones[i].amount,
        d == (CampaignView {
            milestones: c.milestones.update(i, m),
            milestone_votes: d.milestone_votes,
            ..c
        }),
    ensures
        d.wf(),
        covered(c) ==> covered(d),
{
    let s = c.contributions;
    let claims = c.milestone_refunds_claimed;
    let basis = c.milestone_basis as int;
    lemma_due_within(m, s, claims, basis);
    lemma_owed_update(c.milestones, i, m, s, claims, basis, c.milestones.len() as int);
}

/// Releasing a milestone keeps a campaign well-formed, and covered if it was; then the
/// campaign holds what is released.
pub proof fn lemma_release_wf(e: EnvView, creator: Address, milestone_id: u32)
    requires
        e.campaign.wf(),
        release_refusal(e, creator, milestone_id) is None,
    ensures
        after_release(e.campaign, milestone_id).wf(),
        ({
            let c = e.campaign;
            let amount = c.milestones[milestone_place(c.milestones, milestone_id, 0)].amount;
            &&& 0 < amount
            &&& c.total_raised - amount >= -c.milestone_basis
            &&& covered(c) ==> amount <= c.total_raised && covered(after_release(c, milestone_id))
        }),
{
    let c = e.campaign;
    let n = after_release(c, milestone_id);
    let s = c.contributions;
    let claims = c.milestone_refunds_claimed;
    let basis = c.milestone_basis as int;
    let len = c.milestones.len() as int;
    lemma_numbered(c.milestones, milestone_id, 0);
    let i = milestone_id as int;
    lemma_owed_update(c.milestones, i, n.milestones[i], s, claims, basis, len);
    lemma_owed_covers(n.milestones, s, claims, basis, len);
    lemma_total_nonneg(s);
}

/// A claim keeps a campaign well-formed, and covered if it was; then the campaign holds what
/// is claimed.
pub proof fn lemma_claim_wf(e: EnvView, contributor: Address, milestone_id: u32)
    requires
        e.campaign.wf(),
        claim_guard(e, contributor, milestone_id) is None,
    ensures
        after_claim(e.campaign, contributor, milestone_id).wf(),
        ({
            let c = e.campaign;
            let amount = share_of(c, contributor, milestone_id);
            &&& 0 <= amount
            &&& c.total_raised - amount >= -c.milestone_basis
            &&& covered(c) ==> amount <= c.total_raised && covered(
                after_claim(c, contributor, milestone_id),
            )
        }),
{
    let c = e.campaign;
    let n = after_claim(c, contributor, milestone_id);
    let s = c.contributions;
    let claims = c.milestone_refunds_claimed;
    let basis = c.milestone_basis as int;
    let len = c.milestones.len() as int;
    let key = MilestoneRefundKey { milestone_id, contributor };
    let p = place_of(s, contributor);
    lemma_numbered(c.milestones, milestone_id, 0);
    lemma_owed_after_claim(c.milestones, s, claims, key, basis, p, len);
    lemma_share(c.milestones[milestone_id as int].amount as int, s[p].amount as int, basis);
    lemma_owed_covers(c.milestones, s, n.milestone_refunds_claimed, basis, len);
    lemma_total_nonneg(s);
}

/// Whether a vote of `voter` on the given milestone is on record.
pub fn holds_vote(env: &Env, milestone_id: u32, voter: Address) -> (r: bool)
    ensures
        r == env@.campaign.milestone_votes.contains(MilestoneVoteKey { milestone_id, voter }),
{
    let key = MilestoneVoteKey { milestone_id, voter };
    let mut i: usize = 0;
    while i < env.campaign.milestone_votes.len()
        invariant
            key == (MilestoneVoteKey { milestone_id, voter }),
            i <= env.campaign.milestone_votes@.len(),
            forall|j: int| 0 <= j < i ==> env.campaign.milestone_votes@[j] != key,
        decreases env.campaign.milestone_votes@.len() - i,
    {
        if env.campaign.milestone_votes[i] == key {
            assert(env@.campaign.milestone_votes[i as int] == key);
            return true;
        }
        i = i + 1;
    }
    false
}

/// Whether a claim of `contributor` on the given milestone is on record.
pub fn holds_claim(env: &Env, milestone_id: u32, contributor: Address) -> (r: bool)
    ensures
        r == env@.campaign.milestone_refunds_claimed.contains(
            MilestoneRefundKey { milestone_id, contributor },
        ),
{
    let key = MilestoneRefundKey { milestone_id, contributor };
    let mut i: usize = 0;
    while i < env.campaign.milestone_refunds_claimed.len()
        invariant
            key == (MilestoneRefundKey { milestone_id, contributor }),
            i <= env.campaign.milestone_refunds_claimed@.len(),
            forall|j: int| 0 <= j < i ==> env.campaign.milestone_refunds_claimed@[j] != key,
        decreases env.campaign.milestone_refunds_claimed@.len() - i,
    {
        if env.campaign.milestone_refunds_claimed[i] == key {
            assert(env@.campaign.milestone_refunds_claimed[i as int] == key);
            return true;
        }
        i = i + 1;
    }
    false
}

/// Draws up the milestones of a schedule.
fn draw_up(milestones: &Vec<MilestoneInput<Text>>, voting_deadline: u64) -> (r: Vec<
    Milestone<Text>,
>)
    requires
        milestones@.len() <= u32::MAX,
    ensures
        r@.map_values(|m: Milestone<Text>| m@) == fresh_schedule(
            milestones@.map_values(|row: MilestoneInput<Text>| row@),
            voting_deadline,
        ),
{
    let ghost rows = milestones@.map_values(|row: MilestoneInput<Text>| row@);
    let ghost expected = fresh_schedule(rows, voting_deadline);
    let mut r: Vec<Milestone<Text>> = Vec::new();
    let mut i: usize = 0;
    while i < milestones.len()
        invariant
            i <= milestones@.len() <= u32::MAX,
            rows == milestones@.map_values(|row: MilestoneInput<Text>| row@),
            expected == fresh_schedule(rows, voting_deadline),
            r@.len() == i,
            forall|j: int| 0 <= j < i ==> (#[trigger] r@[j])@ == expected[j],
        decreases milestones@.len() - i,
    {
        r.push(
            Milestone {
                id: i as u32,
                description: copy_text(&milestones[i].description),
                amount: milestones[i].amount,
                status: MilestoneStatus::Pending,
                yes_weight: 0,
                no_weight: 0,
                voting_deadline,
            },
        );
        i = i + 1;
    }
    assert(r@.map_values(|m: Milestone<Text>| m@) =~= expected);
    r
}

impl CrowdfundContract {
    /// Checks whether `creator` may propose a schedule now, before the schedule is looked
    /// at.
    pub fn admit_proposal(env: &Env, creator: Address) -> (r: Result<(), ContractError>)
        ensures
            r == outcome(proposal_guard(env@, creator)),
    {
        if creator != env.campaign.creator {
            return Err(ContractError::Unauthorized);
        }
        if env.campaign.status != Status::Active {
            return Err(ContractError::CampaignNotActive);
        }
        if env.campaign.milestones.len() > 0 {
            return Err(ContractError::MilestonesAlreadyProposed);
        }
        if env.now <= env.campaign.deadline {
            return Err(ContractError::CampaignStillActive);
        }
        if env.campaign.total_raised < env.campaign.goal {
            return Err(ContractError::GoalNotReached);
        }
        Ok(())
    }

    /// Proposes a one-time release schedule for the raised funds, after the deadline and
    /// if the goal has been met. The caller must be the creator and must have signed. The
    /// schedule's amounts must sum exactly to what has been raised.
    pub fn propose_milestones(
        env: &mut Env,
        policy: MilestonePolicy,
        creator: Address,
        milestones: &Vec<MilestoneInput<Text>>,
    ) -> (r: Result<(), ContractError>)
        requires
            old(env)@.campaign.wf(),
            proposal_in_range(old(env)@, policy, creator),
        ensures
            ({
                let rows = milestones@.map_values(|row: MilestoneInput<Text>| row@);
                let e = old(env)@;
                &&& r == outcome(proposal_refusal(e, policy, creator, rows))
                &&& final(env)@.campaign.wf()
                &&& final(env)@ == proposed(e, policy, creator, rows)
            }),
    {
        let admitted = CrowdfundContract::admit_proposal(env, creator);
        if creator == env.campaign.creator {
            env.require_auth(creator);
        }
        match admitted {
            Err(error) => {
                return Err(error);
            },
            Ok(()) => {},
        }
        let total_raised: i128 = env.campaign.total_raised;
        if !check_schedule(policy, milestones, total_raised) {
            return Err(ContractError::InvalidMilestoneSchedule);
        }
        proof {
            lemma_proposal_wf(
                old(env)@,
                policy,
                creator,
                milestones@.map_values(|row: MilestoneInput<Text>| row@),
            );
        }
        let voting_deadline: u64 = env.now + policy.voting_period;
        let count: u32 = milestones.len() as u32;
        extend_instance_ttl(env);
        env.campaign.milestones = draw_up(milestones, voting_deadline);
        env.campaign.milestone_basis = total_raised;
        emit_milestones_proposed(env, creator, count, total_raised);
        Ok(())
    }

    /// Casts a vote on a pending milestone, weighted by what the voter contributed. The
    /// voter must have signed. A vote that takes its side to the threshold decides the
    /// milestone.
    pub fn vote_milestone(
        env: &mut Env,
        thresholds: VoteThresholds,
        voter: Address,
        milestone_id: u32,
        approve: bool,
    ) -> (r: Result<(), ContractError>)
        requires
            old(env)@.campaign.wf(),
        ensures
            r == outcome(vote_refusal(old(env)@, voter, milestone_id, approve)),
            final(env)@.campaign.wf(),
            final(env)@ == vote_cast(old(env)@, thresholds, voter, milestone_id, approve),
    {
        let ghost e0 = env@;
        let ghost c0 = env@.campaign;
        env.require_auth(voter);
        let i: usize = find_place(&env.campaign.milestones, milestone_id);
        if i >= env.campaign.milestones.len() {
            return Err(ContractError::MilestoneNotFound);
        }
        assert(c0.milestones[i as int] == env.campaign.milestones@[i as int]@);
        if env.campaign.milestones[i].status != MilestoneStatus::Pending || env.now
            > env.campaign.milestones[i].voting_deadline {
            return Err(ContractError::MilestoneNotPending);
        }
        if holds_vote(env, milestone_id, voter) {
            return Err(ContractError::AlreadyVoted);
        }
        let weight: i128 = env.campaign.contributions.amount(voter);
        if weight <= 0 {
            return Err(ContractError::NoContributionWeight);
        }
        let mut m = copy_milestone(&env.campaign.milestones[i]);
        let before: i128 = if approve {
            m.yes_weight
        } else {
            m.no_weight
        };
        let sum: i128 = match before.checked_add(weight) {
            Some(sum) => sum,
            None => {
                return Err(ContractError::Overflow);
            },
        };
        let decided: bool = if approve {
            sum >= thresholds.approval
        } else {
            sum >= thresholds.rejection
        };
        if approve {
            m.yes_weight = sum;
            if decided {
                m.status = MilestoneStatus::Approved;
            }
        } else {
            m.no_weight = sum;
            if decided {
                m.status = MilestoneStatus::Rejected;
            }
        }
        let yes_weight: i128 = m.yes_weight;
        let no_weight: i128 = m.no_weight;
        let key = MilestoneVoteKey { milestone_id, voter };
        extend_instance_ttl(env);
        env.campaign.milestones.set(i, m);
        env.campaign.milestone_votes.push(key);
        bump_persistent(env, DataKey::MilestoneVote(key));
        emit_milestone_vote_cast(
            env,
            milestone_id,
            voter,
            approve,
            weight,
            yes_weight,
            no_weight,
        );
        if decided {
            emit_milestone_resolved(env, milestone_id, approve, yes_weight, no_weight);
        }
        proof {
            let expected = e0.with_campaign(
                after_vote(c0, thresholds, voter, milestone_id, approve),
            ).demand(voter).send_all(vote_effects(c0, thresholds, voter, milestone_id, approve));
            assert(env@.campaign.milestones =~= expected.campaign.milestones);
            assert(env@.outbox =~= expected.outbox);
            assert(env@ =~= expected);
            lemma_find_at_place(c0.milestones, milestone_id, 0);
            lemma_decision_wf(c0, env@.campaign, i as int, env@.campaign.milestones[i as int]);
        }
        Ok(())
    }

    /// Resolves a milestone whose voting window has closed undecided: silence rejects.
    /// Anybody may call this.
    pub fn finalize_milestone_vote(env: &mut Env, milestone_id: u32) -> (r: Result<
        (),
        ContractError,
    >)
        requires
            old(env)@.campaign.wf(),
        ensures
            r == outcome(finalize_refusal(old(env)@, milestone_id)),
            final(env)@.campaign.wf(),
            final(env)@ == vote_finalized(old(env)@, milestone_id),
    {
        let ghost c0 = env@.campaign;
        let i: usize = find_place(&env.campaign.milestones, milestone_id);
        if i >= env.campaign.milestones.len() {
            return Err(ContractError::MilestoneNotFound);
        }
        assert(c0.milestones[i as int] == env.campaign.milestones@[i as int]@);
        if env.campaign.milestones[i].status != MilestoneStatus::Pending {
            return Err(ContractError::MilestoneNotPending);
        }
        if env.now <= env.campaign.milestones[i].voting_deadline {
            return Err(ContractError::CampaignStillActive);
        }
        let mut m = copy_milestone(&env.campaign.milestones[i]);
        m.status = MilestoneStatus::Rejected;
        let yes_weight: i128 = m.yes_weight;
        let no_weight: i128 = m.no_weight;
        extend_instance_ttl(env);
        env.campaign.milestones.set(i, m);
        emit_milestone_resolved(env, milestone_id, false, yes_weight, no_weight);
        proof {
            assert(env@.campaign.milestones =~= after_finalizing(c0, milestone_id).milestones);
            lemma_decision_wf(c0, env@.campaign, i as int, env@.campaign.milestones[i as int]);
        }
        Ok(())
    }

    /// Checks whether the creator may release a milestone.
    pub fn admit_release(env: &Env, creator: Address, milestone_id: u32) -> (r: Result<
        (),
        ContractError,
    >)
        ensures
            r == outcome(release_refusal(env@, creator, milestone_id)),
    {
        if creator != env.campaign.creator {
            return Err(ContractError::Unauthorized);
        }
        let i: usize = find_place(&env.campaign.milestones, milestone_id);
        if i >= env.campaign.milestones.len() {
            return Err(ContractError::MilestoneNotFound);
        }
        assert(env@.campaign.milestones[i as int] == env.campaign.milestones@[i as int]@);
        if env.campaign.milestones[i].status != MilestoneStatus::Approved {
            return Err(ContractError::MilestoneNotApproved);
        }
        Ok(())
    }

    /// Releases an approved milestone: a configured platform gets its fee, if it comes to
    /// anything, and the creator gets the rest. The caller must be the creator and must have
    /// signed.
    pub fn release_milestone(env: &mut Env, creator: Address, milestone_id: u32) -> (r: Result<
        (),
        ContractError,
    >)
        requires
            old(env)@.campaign.wf(),
            release_in_range(old(env)@, creator, milestone_id),
        ensures
            r == outcome(release_refusal(old(env)@, creator, milestone_id)),
            final(env)@.campaign.wf(),
            final(env)@ == released(old(env)@, creator, milestone_id),
    {
        let ghost e0 = env@;
        let ghost c0 = env@.campaign;
        let admitted = CrowdfundContract::admit_release(env, creator, milestone_id);
        if creator == env.campaign.creator {
            env.require_auth(creator);
        }
        match admitted {
            Err(error) => {
                return Err(error);
            },
            Ok(()) => {},
        }
        let i: usize = find_place(&env.campaign.milestones, milestone_id);
        proof {
            lemma_release_wf(e0, creator, milestone_id);
        }
        assert(c0.milestones[i as int] == env.campaign.milestones@[i as int]@);
        let mut m = copy_milestone(&env.campaign.milestones[i]);
        let amount: i128 = m.amount;
        let fee: i128 = match env.campaign.platform_config {
            Some(config) => work_out_fee(amount, config),
            None => 0,
        };
        proof {
            if let Some(config) = c0.platform_config {
                lemma_fee_bounds(amount as int, config.fee_bps);
            }
        }
        let payout: i128 = amount - fee;
        m.status = MilestoneStatus::Released;
        extend_instance_ttl(env);
        env.campaign.milestones.set(i, m);
        env.campaign.total_raised = env.campaign.total_raised - amount;
        pay_fee(env, fee);
        let token = env.campaign.token;
        let contract = env.contract;
        env.record(Effect::Transfer { token, from: contract, to: creator, amount: payout });
        emit_milestone_released(env, milestone_id, creator, payout, fee);
        proof {
            let expected = released(e0, creator, milestone_id);
            assert(env@.campaign.milestones =~= expected.campaign.milestones);
            assert(env@.outbox =~= expected.outbox);
            assert(env@ =~= expected);
        }
        Ok(())
    }

    /// Checks a claim before the share is worked out.
    pub fn admit_claim(env: &Env, contributor: Address, milestone_id: u32) -> (r: Result<
        (),
        ContractError,
    >)
        requires
            env@.campaign.wf(),
        ensures
            r == outcome(claim_guard(env@, contributor, milestone_id)),
    {
        let i: usize = find_place(&env.campaign.milestones, milestone_id);
        if i >= env.campaign.milestones.len() {
            return Err(ContractError::MilestoneNotFound);
        }
        assert(env@.campaign.milestones[i as int] == env.campaign.milestones@[i as int]@);
        if env.campaign.milestones[i].status != MilestoneStatus::Rejected {
            return Err(ContractError::MilestoneNotRejected);
        }
        if env.campaign.contributions.amount(contributor) <= 0 {
            return Err(ContractError::NoContributionWeight);
        }
        if holds_claim(env, milestone_id, contributor) {
            return Err(ContractError::NothingToRefund);
        }
        Ok(())
    }

    /// Claims the contributor's share of a rejected milestone. The contributor must have
    /// signed. The claim is put on record before the transfer goes out.
    pub fn claim_milestone_refund(env: &mut Env, contributor: Address, milestone_id: u32) -> (r:
        Result<(), ContractError>)
        requires
            old(env)@.campaign.wf(),
            claim_in_range(old(env)@, contributor, milestone_id),
        ensures
            r == outcome(claim_refusal(old(env)@, contributor, milestone_id)),
            final(env)@.campaign.wf(),
            final(env)@ == claimed(old(env)@, contributor, milestone_id),
    {
        let ghost e0 = env@;
        let ghost c0 = env@.campaign;
        env.require_auth(contributor);
        match CrowdfundContract::admit_claim(env, contributor, milestone_id) {
            Err(error) => {
                return Err(error);
            },
            Ok(()) => {},
        }
        proof {
            lemma_claim_wf(e0, contributor, milestone_id);
        }
        let i: usize = find_place(&env.campaign.milestones, milestone_id);
        assert(c0.milestones[i as int] == env.campaign.milestones@[i as int]@);
        let whole: i128 = env.campaign.milestones[i].amount;
        let weight: i128 = env.campaign.contributions.amount(contributor);
        let basis: i128 = env.campaign.milestone_basis;
        assert(0 <= whole * weight) by (nonlinear_arith)
            requires
                whole > 0,
                weight > 0,
        ;
        let amount: i128 = (whole * weight) / basis;
        assert(amount == share_of(c0, contributor, milestone_id));
        if amount <= 0 {
            return Err(ContractError::NothingToRefund);
        }
        let key = MilestoneRefundKey { milestone_id, contributor };
        let token = env.campaign.token;
        let contract = env.contract;
        extend_instance_ttl(env);
        env.campaign.milestone_refunds_claimed.push(key);
        bump_persistent(env, DataKey::MilestoneRefundClaimed(key));
        env.campaign.total_raised = env.campaign.total_raised - amount;
        env.record(Effect::Transfer { token, from: contract, to: contributor, amount });
        emit_milestone_refund_claimed(env, milestone_id, contributor, amount);
        proof {
            let expected = claimed(e0, contributor, milestone_id);
            assert(env@.campaign =~= expected.campaign);
            assert(env@.outbox =~= expected.outbox);
            assert(env@ =~= expected);
        }
        Ok(())
    }

    /// Returns the whole schedule; empty if none has been proposed.
    pub fn milestones(env: &mut Env) -> (r: Vec<Milestone<Text>>)
        ensures
            r@.map_values(|m: Milestone<Text>| m@) == old(env)@.campaign.milestones,
            final(env)@ == old(env)@.extended(),
    {
        extend_instance_ttl(env);
        copy_milestones(&env.campaign.milestones)
    }

    /// Returns a single milestone by id, if it exists.
    pub fn milestone(env: &mut Env, milestone_id: u32) -> (r: Option<Milestone<Text>>)
        ensures
            milestone_view(r) == find_milestone(old(env)@.campaign.milestones, milestone_id, 0),
            final(env)@ == old(env)@.extended(),
    {
        extend_instance_ttl(env);
        let i: usize = find_place(&env.campaign.milestones, milestone_id);
        proof {
            lemma_find_at_place(env@.campaign.milestones, milestone_id, 0);
        }
        if i < env.campaign.milestones.len() {
            assert(env@.campaign.milestones[i as int] == env.campaign.milestones@[i as int]@);
            Some(copy_milestone(&env.campaign.milestones[i]))
        } else {
            None
        }
    }

    /// Returns the total that the schedule was drawn up for; 0 if there is none.
    pub fn milestone_basis(env: &mut Env) -> (r: i128)
        ensures
            r == old(env)@.campaign.milestone_basis,
            final(env)@ == old(env)@.extended(),
    {
        extend_instance_ttl(env);
        env.campaign.milestone_basis
    }

    /// Returns whether `voter` has voted on the given milestone.
    pub fn has_voted_milestone(env: &mut Env, milestone_id: u32, voter: Address) -> (r: bool)
        ensures
            r == old(env)@.campaign.milestone_votes.contains(
                MilestoneVoteKey { milestone_id, voter },
            ),
            final(env)@ == old(env)@.extended(),
    {
        extend_instance_ttl(env);
        holds_vote(env, milestone_id, voter)
    }

    /// Returns whether `contributor` has claimed a refund out of the given (rejected)
    /// milestone.
    pub fn has_claimed_milestone_refund(
        env: &mut Env,
        milestone_id: u32,
        contributor: Address,
    ) -> (r: bool)
        ensures
            r == old(env)@.campaign.milestone_refunds_claimed.contains(
                MilestoneRefundKey { milestone_id, contributor },
            ),
            final(env)@ == old(env)@.extended(),
    {
        extend_instance_ttl(env);
        holds_claim(env, milestone_id, contributor)
    }
}

} // verus!
