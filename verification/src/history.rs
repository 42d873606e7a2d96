//! The life of a campaign: any sequence of calls of the contract, in any order, at any
//! times.

use vstd::prelude::*;

use crate::admin_upgrade_mechanism::{is_zero_hash, rolled_back, upgraded};
use crate::batch::{
    attempt, batch_result, cancel_refusal, cancelled, collect_refusal, collected,
    collection_in_range, ledger, outcomes_fit, refund_refusal, refunded, reply_effects,
    walk_effects, BatchKind,
};
use crate::book::{listed, Entry};
use crate::contract_state_size::StateLimits;
use crate::contribute::{
    bonus_goal_effects, contribute_refusal, contributed, contribution_effects,
    crossed_stretch_goals, crosses_bonus_goal, crosses_goal, goal_effects, joining_effects,
    lemma_newly_reached, pledge_effects, pledge_in_range, pledge_refusal, pledged,
    stretch_goal_effects, stretch_goal_events,
};
use crate::crowdfund_initialize_function::{initialized, InitParams};
use crate::env::{instance_bump, persistent_bump, publication, Effect, EnvView};
use crate::goals::stretch_goal_added;
use crate::kyc_gate::{gate_configured, gate_toggled};
use crate::metadata::{lengths_in_range, metadata_updated, roadmap_extended};
use crate::milestone_release::{
    claim_effects, claim_in_range, claim_refusal, claimed, milestone_place, proposal_in_range,
    proposed, release_effects, release_in_range, release_refusal, released, vote_cast,
    vote_effects, vote_finalized, vote_refusal, MilestonePolicy, VoteThresholds,
};
use crate::queries::{keep_alive_effects, nft_contract_set};
use crate::refund_single_token::{refund_single_effects, refund_single_refusal, refunded_single};
use crate::types::{Address, DataKey, MilestoneInput, WasmHash};
use crate::withdraw::{
    fee_effects, fee_for, platform_fee, withdraw_refusal, withdrawal_effects,
    withdrawal_in_range, withdrawn,
};
use crate::withdraw_event_emission::{nft_effects, Event};

verus! {

/// A call of the contract, with the answers that others give during it.
pub enum Call {
    Contribute { who: Address, amount: i128, verified: bool, decimals: u32 },
    Pledge { who: Address, amount: i128, verified: bool },
    CollectPledges { delivered: Seq<bool> },
    Withdraw,
    Refund { delivered: Seq<bool> },
    RefundSingle { who: Address },
    Cancel { delivered: Seq<bool> },
    Upgrade { new_wasm_hash: WasmHash, current_wasm_hash: WasmHash },
    RollbackUpgrade,
    UpdateMetadata {
        creator: Address,
        title: Option<Seq<u8>>,
        description: Option<Seq<u8>>,
        socials: Option<Seq<u8>>,
    },
    AddRoadmapItem { date: u64, text: Seq<u8> },
    AddStretchGoal { milestone: i128 },
    SetNftContract { creator: Address, nft_contract: Address },
    ProposeMilestones {
        policy: MilestonePolicy,
        creator: Address,
        rows: Seq<MilestoneInput<Seq<u8>>>,
    },
    VoteMilestone {
        thresholds: VoteThresholds,
        voter: Address,
        milestone_id: u32,
        approve: bool,
    },
    FinalizeMilestoneVote { milestone_id: u32 },
    ReleaseMilestone { creator: Address, milestone_id: u32 },
    ClaimMilestoneRefund { contributor: Address, milestone_id: u32 },
    ConfigureKycGate {
        admin: Address,
        verifier: Address,
        threshold: i128,
        jurisdiction: Seq<u8>,
    },
    SetKycGateEnabled { admin: Address, enabled: bool },
    KeepAlive,
    /// Any of the calls that only read.
    Query,
}

/// Whether a call gets an answer, accepted or refused. One whose sums leave their types, or
/// that misses what it needs, fails without one.
pub open spec fn is_answered(e: EnvView, call: Call) -> bool {
    match call {
        Call::Pledge { who, amount, verified } => pledge_in_range(e, who, amount, verified),
        Call::CollectPledges { delivered } => collection_in_range(e) && (collect_refusal(e) is None
            ==> outcomes_fit(BatchKind::CollectPledges, e, delivered)),
        Call::Withdraw => withdrawal_in_range(e),
        Call::Refund { delivered } => refund_refusal(e) is None ==> e.campaign.contributors_stored
            && outcomes_fit(BatchKind::Refund, e, delivered),
        Call::Cancel { delivered } => cancel_refusal(e) is None ==> outcomes_fit(
            BatchKind::Cancel,
            e,
            delivered,
        ),
        Call::Upgrade { new_wasm_hash, .. } => !is_zero_hash(new_wasm_hash),
        Call::RollbackUpgrade => e.campaign.previous_wasm_hash is Some,
        Call::UpdateMetadata { creator, title, description, socials } => lengths_in_range(
            e,
            creator,
            title,
            description,
            socials,
        ),
        Call::ProposeMilestones { policy, creator, .. } => proposal_in_range(e, policy, creator),
        Call::ReleaseMilestone { creator, milestone_id } => release_in_range(
            e,
            creator,
            milestone_id,
        ),
        Call::ClaimMilestoneRefund { contributor, milestone_id } => claim_in_range(
            e,
            contributor,
            milestone_id,
        ),
        _ => true,
    }
}

/// The invocation after a call, as the entry point's contract has it. A call that fails
/// without an answer leaves no trace.
#[verifier::opaque]
pub open spec fn performed(e: EnvView, call: Call) -> EnvView {
    if is_answered(e, call) {
        answered(e, call)
    } else {
        e
    }
}

/// The invocation after a call that is answered, accepted or refused.
pub open spec fn answered(e: EnvView, call: Call) -> EnvView {
    match call {
        Call::Contribute { who, amount, verified, decimals } => contributed(
            e,
            who,
            amount,
            verified,
            decimals,
        ),
        Call::Pledge { who, amount, verified } => pledged(e, who, amount, verified),
        Call::CollectPledges { delivered } => collected(e, delivered),
        Call::Withdraw => withdrawn(e),
        Call::Refund { delivered } => refunded(e, delivered),
        Call::RefundSingle { who } => refunded_single(e, who),
        Call::Cancel { delivered } => cancelled(e, delivered),
        Call::Upgrade { new_wasm_hash, current_wasm_hash } => upgraded(
            e,
            new_wasm_hash,
            current_wasm_hash,
        ),
        Call::RollbackUpgrade => rolled_back(e, e.campaign.previous_wasm_hash->0),
        Call::UpdateMetadata { creator, title, description, socials } => metadata_updated(
            e,
            creator,
            title,
            description,
            socials,
        ),
        Call::AddRoadmapItem { date, text } => roadmap_extended(e, date, text),
        Call::AddStretchGoal { milestone } => stretch_goal_added(e, milestone),
        Call::SetNftContract { creator, nft_contract } => nft_contract_set(
            e,
            creator,
            nft_contract,
        ),
        Call::ProposeMilestones { policy, creator, rows } => proposed(e, policy, creator, rows),
        Call::VoteMilestone { thresholds, voter, milestone_id, approve } => vote_cast(
            e,
            thresholds,
            voter,
            milestone_id,
            approve,
        ),
        Call::FinalizeMilestoneVote { milestone_id } => vote_finalized(e, milestone_id),
        Call::ReleaseMilestone { creator, milestone_id } => released(e, creator, milestone_id),
        Call::ClaimMilestoneRefund { contributor, milestone_id } => claimed(
            e,
            contributor,
            milestone_id,
        ),
        Call::ConfigureKycGate { admin, verifier, threshold, jurisdiction } => gate_configured(
            e,
            admin,
            verifier,
            threshold,
            jurisdiction,
        ),
        Call::SetKycGateEnabled { admin, enabled } => gate_toggled(e, admin, enabled),
        Call::KeepAlive => e.send_all(keep_alive_effects(e.campaign)),
        Call::Query => e.extended(),
    }
}

/// A call at a time of the ledger.
pub struct Step {
    pub now: u64,
    pub call: Call,
}

/// The same invocation at another time.
pub open spec fn at(e: EnvView, now: u64) -> EnvView {
    EnvView { now, ..e }
}

/// What a campaign has come to after a sequence of calls. The outbox gathers all that the
/// calls asked of the host, and so is the record of everything published.
pub open spec fn after_steps(e: EnvView, steps: Seq<Step>) -> EnvView
    decreases steps.len(),
{
    if steps.len() == 0 {
        e
    } else {
        let before = after_steps(e, steps.drop_last());
        performed(at(before, steps.last().now), steps.last().call)
    }
}

/// What is announced when it is met for the first time.
pub enum Mark {
    Goal,
    BonusGoal,
    StretchGoal { milestone: i128 },
}

/// Whether an effect announces a mark.
pub open spec fn announces(effect: Effect<Seq<u8>>, mark: Mark) -> bool {
    match effect {
        Effect::Publish { event } => match event {
            Event::GoalReached { .. } => mark is Goal,
            Event::BonusGoalReached { .. } => mark is BonusGoal,
            Event::StretchGoalReached { milestone, .. } => mark == Mark::StretchGoal { milestone },
            _ => false,
        },
        _ => false,
    }
}

/// How often a record holds the announcement of a mark.
pub open spec fn announcements(record: Seq<Effect<Seq<u8>>>, mark: Mark) -> nat
    decreases record.len(),
{
    if record.len() == 0 {
        0
    } else {
        announcements(record.drop_last(), mark) + if announces(record.last(), mark) {
            1nat
        } else {
            0nat
        }
    }
}

/// Whether a campaign notes a mark as announced.
pub open spec fn noted(e: EnvView, mark: Mark) -> bool {
    match mark {
        Mark::Goal => e.campaign.goal_reached_emitted,
        Mark::BonusGoal => e.campaign.bonus_goal_reached_emitted,
        Mark::StretchGoal { milestone } => e.campaign.stretch_goal_reached_emitted.contains(
            milestone,
        ),
    }
}

/// Whether a campaign's notes and its record agree: what is noted was announced once, what is
/// not noted never.
pub open spec fn notes_agree(e: EnvView) -> bool {
    forall|mark: Mark| #[trigger]
        announcements(e.outbox, mark) == (if noted(e, mark) {
            1nat
        } else {
            0nat
        })
}

/// Whether an effect announces any mark.
pub open spec fn is_announcement(effect: Effect<Seq<u8>>) -> bool {
    effect matches Effect::Publish { event } && (event is GoalReached || event is BonusGoalReached
        || event is StretchGoalReached)
}

/// Whether a call announced nothing and left the notes alone.
pub open spec fn quiet(before: EnvView, after: EnvView) -> bool {
    &&& after.campaign.goal_reached_emitted == before.campaign.goal_reached_emitted
    &&& after.campaign.bonus_goal_reached_emitted == before.campaign.bonus_goal_reached_emitted
    &&& after.campaign.stretch_goal_reached_emitted == before.campaign.stretch_goal_reached_emitted
    &&& before.outbox.len() <= after.outbox.len()
    &&& after.outbox.take(before.outbox.len() as int) == before.outbox
    &&& forall|i: int|
        before.outbox.len() <= i < after.outbox.len() ==> !is_announcement(
            #[trigger] after.outbox[i],
        )
}

/// Announcements in joined records add up.
proof fn lemma_announcements_add(
    a: Seq<Effect<Seq<u8>>>,
    b: Seq<Effect<Seq<u8>>>,
    mark: Mark,
)
    ensures
        announcements(a + b, mark) == announcements(a, mark) + announcements(b, mark),
    decreases b.len(),
{
    if b.len() == 0 {
        assert(a + b =~= a);
    } else {
        assert((a + b).drop_last() =~= a + b.drop_last());
        lemma_announcements_add(a, b.drop_last(), mark);
    }
}

/// A record without announcements holds none of any mark.
proof fn lemma_no_announcements(a: Seq<Effect<Seq<u8>>>, mark: Mark)
    requires
        forall|i: int| 0 <= i < a.len() ==> !is_announcement(#[trigger] a[i]),
    ensures
        announcements(a, mark) == 0,
    decreases a.len(),
{
    if a.len() > 0 {
        let t = a.drop_last();
        assert forall|i: int| 0 <= i < t.len() implies !is_announcement(#[trigger] t[i]) by {
            assert(t[i] == a[i]);
        }
        lemma_no_announcements(t, mark);
        assert(!is_announcement(a[a.len() - 1]));
    }
}

/// A quiet call adds no announcement to the record.
proof fn lemma_quiet(before: EnvView, after: EnvView)
    requires
        quiet(before, after),
    ensures
        forall|mark: Mark| #[trigger]
            announcements(after.outbox, mark) == announcements(before.outbox, mark),
        forall|mark: Mark| #[trigger] noted(after, mark) == noted(before, mark),
{
    let n = before.outbox.len() as int;
    let rest = after.outbox.skip(n);
    assert(after.outbox =~= before.outbox + rest);
    assert forall|i: int| 0 <= i < rest.len() implies !is_announcement(#[trigger] rest[i]) by {
        assert(rest[i] == after.outbox[n + i]);
    }
    assert forall|mark: Mark| #[trigger]
        announcements(after.outbox, mark) == announcements(before.outbox, mark) by {
        lemma_announcements_add(before.outbox, rest, mark);
        lemma_no_announcements(rest, mark);
    }
}

/// Effects none of which announces a mark.
pub open spec fn silent(effects: Seq<Effect<Seq<u8>>>) -> bool {
    forall|i: int| 0 <= i < effects.len() ==> !is_announcement(#[trigger] effects[i])
}

/// Silent effects joined are silent.
proof fn lemma_silent_add(a: Seq<Effect<Seq<u8>>>, b: Seq<Effect<Seq<u8>>>)
    requires
        silent(a),
        silent(b),
    ensures
        silent(a + b),
{
    assert forall|i: int| 0 <= i < (a + b).len() implies !is_announcement(
        #[trigger] (a + b)[i],
    ) by {
        if i < a.len() {
            assert((a + b)[i] == a[i]);
        } else {
            assert((a + b)[i] == b[i - a.len()]);
        }
    }
}

/// A call that sends silent effects and leaves the notes alone is quiet.
proof fn lemma_silent_is_quiet(before: EnvView, after: EnvView, effects: Seq<Effect<Seq<u8>>>)
    requires
        after.outbox == before.outbox + effects,
        silent(effects),
        after.campaign.goal_reached_emitted == before.campaign.goal_reached_emitted,
        after.campaign.bonus_goal_reached_emitted == before.campaign.bonus_goal_reached_emitted,
        after.campaign.stretch_goal_reached_emitted
            == before.campaign.stretch_goal_reached_emitted,
    ensures
        quiet(before, after),
{
    let n = before.outbox.len() as int;
    assert(after.outbox.take(n) =~= before.outbox);
    assert forall|i: int| n <= i < after.outbox.len() implies !is_announcement(
        #[trigger] after.outbox[i],
    ) by {
        assert(after.outbox[i] == effects[i - n]);
    }
}

/// A batch's walk through its book announces nothing.
proof fn lemma_walk_is_silent(
    kind: BatchKind,
    e: EnvView,
    s: Seq<Entry>,
    delivered: Seq<bool>,
    k: int,
)
    ensures
        silent(walk_effects(kind, e, s, delivered, k)),
    decreases k,
{
    let all = walk_effects(kind, e, s, delivered, k);
    if k <= 0 {
        assert(all =~= Seq::empty());
    } else {
        let before = walk_effects(kind, e, s, delivered, k - 1);
        lemma_walk_is_silent(kind, e, s, delivered, k - 1);
        if s[k - 1].amount > 0 {
            let tried = seq![attempt(kind, e, s[k - 1])];
            let reply = reply_effects(kind, s[k - 1], delivered[k - 1]);
            assert(all =~= before + tried + reply);
            lemma_silent_add(before, tried);
            lemma_silent_add(before + tried, reply);
        } else {
            assert(all == before);
        }
    }
}

/// A batch announces nothing.
proof fn lemma_batch_is_quiet(kind: BatchKind, e: EnvView, x: EnvView, delivered: Seq<bool>)
    requires
        x.campaign == e.campaign,
        x.outbox == e.outbox.push(instance_bump()),
    ensures
        quiet(e, batch_result(kind, x, delivered)),
{
    let s = ledger(kind, x.campaign);
    let f = batch_result(kind, x, delivered);
    let walk = walk_effects(kind, x, s, delivered, s.len() as int);
    let head = seq![instance_bump()];
    lemma_walk_is_silent(kind, x, s, delivered, s.len() as int);
    lemma_silent_add(head, walk);
    let n = (x.outbox + walk).len() as int;
    let tail = f.outbox.skip(n);
    lemma_silent_add(head + walk, tail);
    assert(f.outbox =~= e.outbox + (head + walk + tail));
    lemma_silent_is_quiet(e, f, head + walk + tail);
}

/// A payout announces nothing.
proof fn lemma_payout_is_quiet(e: EnvView)
    ensures
        quiet(e, withdrawn(e)),
{
    let f = withdrawn(e);
    let c = e.campaign;
    if withdraw_refusal(e) is None {
        let fee = platform_fee(c);
        let payout = (c.total_raised - fee) as i128;
        let head = seq![instance_bump()];
        let fees = fee_effects(e, fee);
        let share = seq![
            Effect::<Seq<u8>>::Transfer {
                token: c.token,
                from: e.contract,
                to: c.creator,
                amount: payout,
            },
        ];
        let nfts = nft_effects(c.nft_contract, c.contributions);
        let tail = seq![
            publication(
                Event::<Seq<u8>>::Withdrawn {
                    creator: c.creator,
                    amount: payout,
                    platform_fee: fee as i128,
                },
            ),
        ];
        assert(withdrawal_effects(e) == head + fees + share + nfts + tail);
        lemma_silent_add(head, fees);
        lemma_silent_add(head + fees, share);
        lemma_silent_add(head + fees + share, nfts);
        lemma_silent_add(head + fees + share + nfts, tail);
        lemma_silent_is_quiet(e, f, withdrawal_effects(e));
    } else {
        assert(f.outbox =~= e.outbox + Seq::empty());
        lemma_silent_is_quiet(e, f, Seq::empty());
    }
}

/// Pledging announces nothing.
proof fn lemma_pledge_is_quiet(e: EnvView, who: Address, amount: i128, verified: bool)
    ensures
        quiet(e, pledged(e, who, amount, verified)),
{
    let f = pledged(e, who, amount, verified);
    let c = e.campaign;
    if pledge_refusal(e, who, amount, verified) is None {
        let head = seq![instance_bump(), persistent_bump(DataKey::Pledge(who))];
        let joining = joining_effects(!listed(c.pledges, who), DataKey::Pledgers);
        let tail = seq![publication(Event::<Seq<u8>>::Pledged { pledger: who, amount })];
        assert(pledge_effects(c, who, amount) == head + joining + tail);
        lemma_silent_add(head, joining);
        lemma_silent_add(head + joining, tail);
        lemma_silent_is_quiet(e, f, pledge_effects(c, who, amount));
    } else {
        assert(f.outbox =~= e.outbox + Seq::empty());
        lemma_silent_is_quiet(e, f, Seq::empty());
    }
}

/// Claiming a single refund announces nothing.
proof fn lemma_single_refund_is_quiet(e: EnvView, who: Address)
    ensures
        quiet(e, refunded_single(e, who)),
{
    let f = refunded_single(e, who);
    if refund_single_refusal(e, who) is None {
        lemma_silent_is_quiet(e, f, refund_single_effects(e, who));
    } else {
        assert(f.outbox =~= e.outbox + Seq::empty());
        lemma_silent_is_quiet(e, f, Seq::empty());
    }
}

/// Proposing a schedule announces nothing.
proof fn lemma_proposal_is_quiet(
    e: EnvView,
    policy: MilestonePolicy,
    creator: Address,
    rows: Seq<MilestoneInput<Seq<u8>>>,
)
    ensures
        quiet(e, proposed(e, policy, creator, rows)),
{
    let f = proposed(e, policy, creator, rows);
    let sent = f.outbox.skip(e.outbox.len() as int);
    assert(f.outbox =~= e.outbox + sent);
    lemma_silent_is_quiet(e, f, sent);
}

/// Voting announces nothing.
proof fn lemma_vote_is_quiet(
    e: EnvView,
    thresholds: VoteThresholds,
    voter: Address,
    milestone_id: u32,
    approve: bool,
)
    ensures
        quiet(e, vote_cast(e, thresholds, voter, milestone_id, approve)),
{
    let f = vote_cast(e, thresholds, voter, milestone_id, approve);
    if vote_refusal(e, voter, milestone_id, approve) is None {
        lemma_silent_is_quiet(
            e,
            f,
            vote_effects(e.campaign, thresholds, voter, milestone_id, approve),
        );
    } else {
        assert(f.outbox =~= e.outbox + Seq::empty());
        lemma_silent_is_quiet(e, f, Seq::empty());
    }
}

/// Finalizing a vote announces nothing.
proof fn lemma_finalizing_is_quiet(e: EnvView, milestone_id: u32)
    ensures
        quiet(e, vote_finalized(e, milestone_id)),
{
    let f = vote_finalized(e, milestone_id);
    let sent = f.outbox.skip(e.outbox.len() as int);
    assert(f.outbox =~= e.outbox + sent);
    lemma_silent_is_quiet(e, f, sent);
}

/// Settling a milestone announces nothing.
proof fn lemma_settlements_are_quiet(e: EnvView, who: Address, milestone_id: u32)
    ensures
        quiet(e, released(e, who, milestone_id)),
        quiet(e, claimed(e, who, milestone_id)),
{
    let nothing = Seq::<Effect<Seq<u8>>>::empty();
    assert(e.outbox =~= e.outbox + nothing);
    let f = released(e, who, milestone_id);
    if release_refusal(e, who, milestone_id) is None {
        let c = e.campaign;
        let amount = c.milestones[milestone_place(c.milestones, milestone_id, 0)].amount;
        let head = seq![instance_bump()];
        let fees = fee_effects(e, fee_for(c, amount as int));
        let all = release_effects(e, milestone_id);
        let tail = all.skip((head + fees).len() as int);
        assert(all =~= head + fees + tail);
        lemma_silent_add(head, fees);
        lemma_silent_add(head + fees, tail);
        lemma_silent_is_quiet(e, f, all);
    } else {
        lemma_silent_is_quiet(e, f, nothing);
    }
    let g = claimed(e, who, milestone_id);
    if claim_refusal(e, who, milestone_id) is None {
        lemma_silent_is_quiet(e, g, claim_effects(e, who, milestone_id));
    } else {
        lemma_silent_is_quiet(e, g, nothing);
    }
}

/// The calls of creator and admin, the request to keep storage alive and queries announce
/// nothing.
proof fn lemma_upkeep_is_quiet(e: EnvView, call: Call)
    requires
        call is Upgrade || call is RollbackUpgrade || call is UpdateMetadata
            || call is AddRoadmapItem || call is AddStretchGoal || call is SetNftContract
            || call is ConfigureKycGate || call is SetKycGateEnabled || call is KeepAlive
            || call is Query,
    ensures
        quiet(e, performed(e, call)),
{
    reveal(performed);
    let f = performed(e, call);
    let sent = f.outbox.skip(e.outbox.len() as int);
    assert(f.outbox =~= e.outbox + sent);
    lemma_silent_is_quiet(e, f, sent);
}

/// Only contributions announce: every other call, whatever comes of it, announces no mark and
/// changes no note of what was announced.
pub proof fn law_only_contributions_announce(e: EnvView, call: Call)
    requires
        call !is Contribute,
    ensures
        quiet(e, performed(e, call)),
{
    let nothing = Seq::<Effect<Seq<u8>>>::empty();
    assert(e.outbox =~= e.outbox + nothing);
    lemma_silent_is_quiet(e, e, nothing);
    match call {
        Call::CollectPledges { delivered } => {
            reveal(performed);
            lemma_batch_is_quiet(BatchKind::CollectPledges, e, e.extended(), delivered);
        },
        Call::Refund { delivered } => {
            reveal(performed);
            lemma_batch_is_quiet(BatchKind::Refund, e, e.extended(), delivered);
        },
        Call::Cancel { delivered } => {
            reveal(performed);
            let x = e.extended().demand(e.campaign.creator);
            lemma_batch_is_quiet(BatchKind::Cancel, e, x, delivered);
        },
        Call::Withdraw => {
            reveal(performed);
            lemma_payout_is_quiet(e);
        },
        Call::Pledge { who, amount, verified } => {
            reveal(performed);
            lemma_pledge_is_quiet(e, who, amount, verified);
        },
        Call::RefundSingle { who } => {
            reveal(performed);
            lemma_single_refund_is_quiet(e, who);
        },
        Call::ProposeMilestones { policy, creator, rows } => {
            reveal(performed);
            lemma_proposal_is_quiet(e, policy, creator, rows);
        },
        Call::VoteMilestone { thresholds, voter, milestone_id, approve } => {
            reveal(performed);
            lemma_vote_is_quiet(e, thresholds, voter, milestone_id, approve);
        },
        Call::FinalizeMilestoneVote { milestone_id } => {
            reveal(performed);
            lemma_finalizing_is_quiet(e, milestone_id);
        },
        Call::ReleaseMilestone { creator, milestone_id } => {
            reveal(performed);
            lemma_settlements_are_quiet(e, creator, milestone_id);
        },
        Call::ClaimMilestoneRefund { contributor, milestone_id } => {
            reveal(performed);
            lemma_settlements_are_quiet(e, contributor, milestone_id);
        },
        _ => {
            lemma_upkeep_is_quiet(e, call);
        },
    }
}

/// How often a list of newly met stretch goals announces one of them.
proof fn lemma_stretch_announcements(reached: Seq<i128>, total_raised: i128, mark: Mark)
    requires
        reached.no_duplicates(),
    ensures
        announcements(stretch_goal_events(reached, total_raised), mark) == (
        if mark matches Mark::StretchGoal { milestone } && reached.contains(milestone) {
            1nat
        } else {
            0nat
        }),
    decreases reached.len(),
{
    let events = stretch_goal_events(reached, total_raised);
    if reached.len() > 0 {
        let t = reached.drop_last();
        let last = reached.last();
        assert(events.drop_last() =~= stretch_goal_events(t, total_raised));
        assert(reached[reached.len() - 1] == last);
        assert forall|g: i128| reached.contains(g) <==> t.contains(g) || g == last by {
            if t.contains(g) {
                assert(reached[t.index_of(g)] == g);
            }
            if reached.contains(g) && g != last {
                assert(t[reached.index_of(g)] == g);
            }
        }
        assert(!t.contains(last)) by {
            if t.contains(last) {
                let i = t.index_of(last);
                assert(reached[i] == last);
            }
        }
        assert(t.no_duplicates()) by {
            assert forall|i: int, j: int|
                0 <= i < t.len() && 0 <= j < t.len() && i != j implies t[i] != t[j] by {
                assert(reached[i] != reached[j]);
            }
        }
        lemma_stretch_announcements(t, total_raised, mark);
    }
}

/// What an accepted contribution announces: exactly the marks that it is the first to meet,
/// each once.
proof fn lemma_contribution_announces(e: EnvView, who: Address, amount: i128, mark: Mark)
    ensures
        announcements(contribution_effects(e, who, amount), mark) == (if first_met(
            e,
            amount,
            mark,
        ) {
            1nat
        } else {
            0nat
        }),
{
    let c = e.campaign;
    let x = amount as int;
    let head = seq![
        instance_bump(),
        Effect::<Seq<u8>>::Transfer { token: c.token, from: who, to: e.contract, amount },
        persistent_bump(DataKey::Contribution(who)),
    ];
    let goal = goal_effects(c, x);
    let bonus = bonus_goal_effects(c, x);
    let stretch = stretch_goal_effects(c, x);
    let joining = joining_effects(
        !listed(c.contributions, who),
        DataKey::Contributors,
    );
    let tail = seq![
        publication(
            Event::<Seq<u8>>::Contributed {
                backer: who,
                amount,
                total_raised: (c.total_raised + amount) as i128,
            },
        ),
    ];
    assert(contribution_effects(e, who, amount) == head + goal + bonus + stretch + joining + tail);
    lemma_announcements_add(head + goal + bonus + stretch + joining, tail, mark);
    lemma_announcements_add(head + goal + bonus + stretch, joining, mark);
    lemma_announcements_add(head + goal + bonus, stretch, mark);
    lemma_announcements_add(head + goal, bonus, mark);
    lemma_announcements_add(head, goal, mark);
    lemma_no_announcements(head, mark);
    lemma_no_announcements(joining, mark);
    lemma_no_announcements(tail, mark);
    lemma_newly_reached(
        c.stretch_goals,
        c.stretch_goal_reached_emitted,
        c.total_raised + amount,
        c.stretch_goals.len() as int,
    );
    lemma_stretch_announcements(
        crossed_stretch_goals(c, x),
        (c.total_raised + amount) as i128,
        mark,
    );
    reveal_with_fuel(announcements, 2);
    if crosses_goal(c, x) {
        assert(goal.drop_last() =~= Seq::empty());
    }
    if crosses_bonus_goal(c, x) {
        assert(bonus.drop_last() =~= Seq::empty());
    }
}

/// Whether a contribution of `amount` is the first to meet a mark, by the campaign's notes.
pub open spec fn first_met(e: EnvView, amount: i128, mark: Mark) -> bool {
    match mark {
        Mark::Goal => crosses_goal(e.campaign, amount as int),
        Mark::BonusGoal => crosses_bonus_goal(e.campaign, amount as int),
        Mark::StretchGoal { milestone } => crossed_stretch_goals(
            e.campaign,
            amount as int,
        ).contains(milestone),
    }
}

/// Every call keeps the notes in agreement with the record.
proof fn lemma_notes_stay_in_agreement(e: EnvView, call: Call)
    requires
        notes_agree(e),
    ensures
        notes_agree(performed(e, call)),
{
    let f = performed(e, call);
    if let Call::Contribute { who, amount, verified, decimals } = call {
        assert(f == contributed(e, who, amount, verified, decimals)) by {
            reveal(performed);
        }
        if contribute_refusal(e, who, amount, verified, decimals) is None {
            let c = e.campaign;
            lemma_newly_reached(
                c.stretch_goals,
                c.stretch_goal_reached_emitted,
                c.total_raised + amount,
                c.stretch_goals.len() as int,
            );
            assert forall|mark: Mark| #[trigger]
                announcements(f.outbox, mark) == (if noted(f, mark) {
                1nat
            } else {
                0nat
            }) by {
                lemma_announcements_add(e.outbox, contribution_effects(e, who, amount), mark);
                lemma_contribution_announces(e, who, amount, mark);
                assert(announcements(e.outbox, mark) == (if noted(e, mark) {
                    1nat
                } else {
                    0nat
                }));
                if let Mark::StretchGoal { milestone } = mark {
                    let old_list = c.stretch_goal_reached_emitted;
                    let fresh = crossed_stretch_goals(c, amount as int);
                    assert((old_list + fresh).contains(milestone) <==> old_list.contains(milestone)
                        || fresh.contains(milestone)) by {
                        if old_list.contains(milestone) {
                            assert((old_list + fresh)[old_list.index_of(milestone)] == milestone);
                        }
                        if fresh.contains(milestone) {
                            let i = fresh.index_of(milestone);
                            assert((old_list + fresh)[old_list.len() + i] == milestone);
                        }
                    }
                }
            }
        } else {
            assert(f.outbox == e.outbox);
            assert forall|mark: Mark| #[trigger]
                announcements(f.outbox, mark) == (if noted(f, mark) {
                1nat
            } else {
                0nat
            }) by {
                assert(noted(f, mark) == noted(e, mark));
            }
        }
    } else {
        law_only_contributions_announce(e, call);
        lemma_quiet(e, f);
        assert forall|mark: Mark| #[trigger]
            announcements(f.outbox, mark) == (if noted(f, mark) {
            1nat
        } else {
            0nat
        }) by {
            assert(announcements(e.outbox, mark) == (if noted(e, mark) {
                1nat
            } else {
                0nat
            }));
            assert(noted(f, mark) == noted(e, mark));
        }
    }
}

/// Over the whole life of a campaign, through any sequence of calls, the goal, the bonus goal
/// and every stretch goal are announced at most once; and each is noted as announced exactly
/// when some call has announced it.
pub proof fn law_marks_are_announced_once_in_a_life(
    limits: StateLimits,
    now: u64,
    contract: Address,
    p: InitParams<Seq<u8>>,
    steps: Seq<Step>,
)
    ensures
        ({
            let e = after_steps(initialized(limits, now, contract, p), steps);
            &&& notes_agree(e)
            &&& forall|mark: Mark| #[trigger] announcements(e.outbox, mark) <= 1
            &&& forall|mark: Mark| #[trigger]
                noted(e, mark) <==> announcements(e.outbox, mark) == 1
        }),
    decreases steps.len(),
{
    let start = initialized(limits, now, contract, p);
    let e = after_steps(start, steps);
    if steps.len() == 0 {
        assert forall|mark: Mark| #[trigger]
            announcements(e.outbox, mark) == (if noted(e, mark) {
            1nat
        } else {
            0nat
        }) by {
            lemma_no_announcements(e.outbox, mark);
        }
    } else {
        law_marks_are_announced_once_in_a_life(limits, now, contract, p, steps.drop_last());
        let before = at(after_steps(start, steps.drop_last()), steps.last().now);
        assert(notes_agree(before)) by {
            let same = after_steps(start, steps.drop_last());
            assert forall|mark: Mark| #[trigger]
                announcements(before.outbox, mark) == (if noted(before, mark) {
                1nat
            } else {
                0nat
            }) by {
                assert(announcements(same.outbox, mark) == (if noted(same, mark) {
                    1nat
                } else {
                    0nat
                }));
                assert(noted(same, mark) == noted(before, mark));
            }
        }
        lemma_notes_stay_in_agreement(before, steps.last().call);
    }
    assert forall|mark: Mark| #[trigger]
        noted(e, mark) <==> announcements(e.outbox, mark) == 1 by {
        assert(announcements(e.outbox, mark) == (if noted(e, mark) {
            1nat
        } else {
            0nat
        }));
    }
}

/// After any sequence of calls, a contribution that is accepted announces the goal exactly
/// when it lifts the total from below the goal to the goal or beyond it and no earlier call
/// announced it; the bonus goal likewise, and never where there is none; and every stretch
/// goal that the new total meets and that no earlier call announced, once each.
pub proof fn law_contribution_announces_what_is_new(
    limits: StateLimits,
    start: u64,
    contract: Address,
    p: InitParams<Seq<u8>>,
    steps: Seq<Step>,
    now: u64,
    who: Address,
    amount: i128,
    verified: bool,
    decimals: u32,
)
    requires
        ({
            let e = at(after_steps(initialized(limits, start, contract, p), steps), now);
            contribute_refusal(e, who, amount, verified, decimals) is None
        }),
    ensures
        ({
            let e = at(after_steps(initialized(limits, start, contract, p), steps), now);
            let f = contributed(e, who, amount, verified, decimals);
            let before = e.campaign.total_raised;
            let after = f.campaign.total_raised;
            &&& f.outbox == e.outbox + contribution_effects(e, who, amount)
            &&& announcements(f.outbox, Mark::Goal) == announcements(e.outbox, Mark::Goal) + (
            if before < e.campaign.goal <= after && announcements(e.outbox, Mark::Goal) == 0 {
                1nat
            } else {
                0nat
            })
            &&& announcements(f.outbox, Mark::BonusGoal) == announcements(
                e.outbox,
                Mark::BonusGoal,
            ) + (if e.campaign.bonus_goal is Some && before < e.campaign.bonus_goal->0 <= after
                && announcements(e.outbox, Mark::BonusGoal) == 0 {
                1nat
            } else {
                0nat
            })
            &&& forall|g: i128| #[trigger]
                announcements(f.outbox, Mark::StretchGoal { milestone: g }) == announcements(
                    e.outbox,
                    Mark::StretchGoal { milestone: g },
                ) + (if e.campaign.stretch_goals.contains(g) && g <= after && announcements(
                    e.outbox,
                    Mark::StretchGoal { milestone: g },
                ) == 0 {
                    1nat
                } else {
                    0nat
                })
        }),
{
    let e0 = after_steps(initialized(limits, start, contract, p), steps);
    let e = at(e0, now);
    let f = contributed(e, who, amount, verified, decimals);
    let c = e.campaign;
    let effects = contribution_effects(e, who, amount);
    law_marks_are_announced_once_in_a_life(limits, start, contract, p, steps);
    lemma_newly_reached(
        c.stretch_goals,
        c.stretch_goal_reached_emitted,
        c.total_raised + amount,
        c.stretch_goals.len() as int,
    );
    assert(c.stretch_goals.take(c.stretch_goals.len() as int) =~= c.stretch_goals);
    assert forall|mark: Mark| #[trigger]
        announcements(f.outbox, mark) == announcements(e.outbox, mark) + (if first_met(
        e,
        amount,
        mark,
    ) {
        1nat
    } else {
        0nat
    }) by {
        lemma_announcements_add(e.outbox, effects, mark);
        lemma_contribution_announces(e, who, amount, mark);
    }
    assert(noted(e0, Mark::Goal) == c.goal_reached_emitted);
    assert(noted(e0, Mark::BonusGoal) == c.bonus_goal_reached_emitted);
    assert forall|g: i128| #[trigger]
        announcements(f.outbox, Mark::StretchGoal { milestone: g }) == announcements(
            e.outbox,
            Mark::StretchGoal { milestone: g },
        ) + (if e.campaign.stretch_goals.contains(g) && g <= f.campaign.total_raised
            && announcements(e.outbox, Mark::StretchGoal { milestone: g }) == 0 {
            1nat
        } else {
            0nat
        }) by {
        let mark = Mark::StretchGoal { milestone: g };
        assert(noted(e0, mark) == c.stretch_goal_reached_emitted.contains(g));
        assert(announcements(f.outbox, mark) == announcements(e.outbox, mark) + (if first_met(
            e,
            amount,
            mark,
        ) {
            1nat
        } else {
            0nat
        }));
    }
}

} // verus!
