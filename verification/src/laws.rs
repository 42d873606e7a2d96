//! What holds of the contract as a whole.

use vstd::prelude::*;

use crate::admin_upgrade_mechanism::{rolled_back, upgraded};
use crate::batch::{
    attempt, batch_result, cancel_refusal, collect_refusal, ledger, lemma_settled, moved,
    refund_refusal, settled, skipped, walk_effects, with_ledger, BatchKind,
};
use crate::book::{
    amount_of, book_wf, lemma_amount_nonneg, lemma_book_drop_last, lemma_line_within_total,
    lemma_place_unique, lemma_total_nonneg, lemma_with_amount, listed, place_of, total,
    with_amount, Entry,
};
use crate::campaign::CampaignView;
use crate::contribute::{
    after_contribution, after_pledge, bonus_goal_effects, contribute_refusal,
    contribution_effects, contribution_refusal, crossed_stretch_goals, crosses_bonus_goal,
    crosses_goal, goal_effects, joining_effects, lemma_newly_reached, pledge_admission_refusal,
    pledge_refusal, stretch_goal_effects,
};
use crate::env::{instance_bump, persistent_bump, publication, Effect, EnvView};
use crate::goals::progress_bps;
use crate::kyc_gate::{committed, needs_approval, passes_gate};
use crate::metadata::{metadata_refusal, text_or_empty, updated};
use crate::milestone_release::{
    after_claim, after_finalizing, after_proposal, after_release, after_vote, claim_effects,
    claim_refusal, claimed, covered, finalize_refusal, find_milestone, fresh_schedule,
    lemma_claim_wf, lemma_decision_wf, lemma_find_at_place, lemma_proposal_wf, lemma_release_wf,
    lemma_share, lemma_shares_within, milestone_place, owed, proposal_guard, proposal_refusal,
    release_effects, release_refusal, row_fits, schedule_total, share_of, shares_total,
    unclaimed_shares, vote_effects, vote_refusal, MilestonePolicy, VoteThresholds,
};
use crate::queries::largest;
use crate::refund_single_token::{
    after_refund_single, refund_single_effects, refund_single_refusal,
};
use crate::types::{
    Address, ContractError, DataKey, KycGateConfig, Milestone, MilestoneInput,
    MilestoneRefundKey, MilestoneStatus, MilestoneVoteKey, Status, WasmHash,
};
use crate::withdraw::{
    after_withdrawal, fee_effects, fee_for, lemma_fee_bounds, platform_fee, withdraw_refusal,
    withdrawal_effects,
};
use crate::withdraw_event_emission::{
    eligible, mint_effects, minted_count, nft_effects, Event, MAX_NFT_MINT_BATCH,
};

verus! {

// Contributions and pledges

/// A contribution raises the total and the contributor's standing by exactly its
/// amount, and nobody else's standing moves.
pub proof fn law_contribution_is_credited(
    e: EnvView,
    who: Address,
    amount: i128,
    verified: bool,
    decimals: u32,
)
    requires
        e.campaign.wf(),
        contribute_refusal(e, who, amount, verified, decimals) is None,
    ensures
        ({
            let c = e.campaign;
            let n = after_contribution(c, who, amount);
            &&& n.total_raised == c.total_raised + amount
            &&& amount_of(n.contributions, who) == amount_of(c.contributions, who) + amount
            &&& total(n.contributions) == total(c.contributions) + amount
            &&& forall|other: Address|
                other != who ==> #[trigger] amount_of(n.contributions, other) == amount_of(
                    c.contributions,
                    other,
                )
            &&& n.pledges == c.pledges
            &&& n.total_pledged == c.total_pledged
        }),
{
    let c = e.campaign;
    lemma_amount_nonneg(c.contributions, who);
    lemma_with_amount(c.contributions, who, (amount_of(c.contributions, who) + amount) as i128);
}

/// A pledge raises what is pledged, in all and by the pledger, by exactly its amount;
/// nobody else's pledge moves, and nothing is raised yet.
pub proof fn law_pledge_is_credited(e: EnvView, who: Address, amount: i128, verified: bool)
    requires
        e.campaign.wf(),
        pledge_refusal(e, who, amount, verified) is None,
        e.campaign.total_pledged + amount <= i128::MAX,
    ensures
        ({
            let c = e.campaign;
            let n = after_pledge(c, who, amount);
            &&& n.total_pledged == c.total_pledged + amount
            &&& amount_of(n.pledges, who) == amount_of(c.pledges, who) + amount
            &&& forall|other: Address|
                other != who ==> #[trigger] amount_of(n.pledges, other) == amount_of(
                    c.pledges,
                    other,
                )
            &&& n.contributions == c.contributions
            &&& n.total_raised == c.total_raised
        }),
{
    let c = e.campaign;
    lemma_amount_nonneg(c.pledges, who);
    lemma_with_amount(c.pledges, who, (amount_of(c.pledges, who) + amount) as i128);
}

/// The lists of participants never outgrow their bounds.
pub proof fn law_lists_stay_within_bounds(e: EnvView, who: Address, amount: i128)
    requires
        e.campaign.contributions.len() <= e.limits.max_contributors,
        e.campaign.pledges.len() <= e.limits.max_pledgers,
    ensures
        contribution_refusal(e, who, amount) is None ==> after_contribution(
            e.campaign,
            who,
            amount,
        ).contributions.len() <= e.limits.max_contributors,
        pledge_admission_refusal(e, who, amount) is None ==> after_pledge(
            e.campaign,
            who,
            amount,
        ).pledges.len() <= e.limits.max_pledgers,
{
}

/// The goal is announced at most once: a contribution that comes after one which
/// announced it does not announce it again. The same holds of the bonus goal.
pub proof fn law_goal_is_announced_once(c: CampaignView, who: Address, amount: i128, later: int)
    ensures
        crosses_goal(c, amount as int) ==> after_contribution(c, who, amount).goal_reached_emitted,
        after_contribution(c, who, amount).goal_reached_emitted ==> !crosses_goal(
            after_contribution(c, who, amount),
            later,
        ),
        c.goal_reached_emitted ==> after_contribution(c, who, amount).goal_reached_emitted,
        crosses_bonus_goal(c, amount as int) ==> after_contribution(
            c,
            who,
            amount,
        ).bonus_goal_reached_emitted,
        after_contribution(c, who, amount).bonus_goal_reached_emitted ==> !crosses_bonus_goal(
            after_contribution(c, who, amount),
            later,
        ),
        c.bonus_goal_reached_emitted ==> after_contribution(
            c,
            who,
            amount,
        ).bonus_goal_reached_emitted,
{
}

/// A stretch goal is announced exactly when a contribution first meets it: what one
/// contribution announces is met, was never announced before, holds nothing twice, and
/// is never announced again; and every stretch goal that is met is then announced.
pub proof fn law_stretch_goals_are_announced_once(
    c: CampaignView,
    who: Address,
    amount: i128,
    later: int,
)
    ensures
        ({
            let n = after_contribution(c, who, amount);
            let announced = crossed_stretch_goals(c, amount as int);
            &&& announced.no_duplicates()
            &&& forall|g: i128| #[trigger]
                announced.contains(g) ==> n.total_raised >= g && c.stretch_goals.contains(g)
                    && !c.stretch_goal_reached_emitted.contains(g)
            &&& forall|g: i128| #[trigger]
                n.stretch_goal_reached_emitted.contains(g) ==> !crossed_stretch_goals(
                    n,
                    later,
                ).contains(g)
            &&& forall|g: i128| #[trigger]
                c.stretch_goals.contains(g) && n.total_raised >= g
                    ==> n.stretch_goal_reached_emitted.contains(g)
        }),
{
    let n = after_contribution(c, who, amount);
    let len = c.stretch_goals.len() as int;
    let announced = crossed_stretch_goals(c, amount as int);
    assert(c.stretch_goals.take(len) =~= c.stretch_goals);
    lemma_newly_reached(
        c.stretch_goals,
        c.stretch_goal_reached_emitted,
        c.total_raised + amount,
        len,
    );
    lemma_newly_reached(
        n.stretch_goals,
        n.stretch_goal_reached_emitted,
        n.total_raised + later,
        len,
    );
    assert forall|g: i128| #[trigger]
        c.stretch_goals.contains(g) && n.total_raised
            >= g implies n.stretch_goal_reached_emitted.contains(g) by {
        if c.stretch_goal_reached_emitted.contains(g) {
            let i = c.stretch_goal_reached_emitted.index_of(g);
            assert(n.stretch_goal_reached_emitted[i] == g);
        } else {
            assert(announced.contains(g));
            let i = announced.index_of(g);
            assert(n.stretch_goal_reached_emitted[c.stretch_goal_reached_emitted.len() + i] == g);
        }
    }
}

/// Two campaigns that differ at most in their bonus and stretch goals.
pub open spec fn same_but_for_marks(c: CampaignView, d: CampaignView) -> bool {
    d == CampaignView {
        bonus_goal: d.bonus_goal,
        bonus_goal_description: d.bonus_goal_description,
        bonus_goal_reached_emitted: d.bonus_goal_reached_emitted,
        stretch_goals: d.stretch_goals,
        stretch_goal_reached_emitted: d.stretch_goal_reached_emitted,
        ..c
    }
}

/// Bonus and stretch goals are purely informational: they change neither which calls
/// are refused nor what moves.
pub proof fn law_marks_are_informational(
    e: EnvView,
    f: EnvView,
    who: Address,
    amount: i128,
    verified: bool,
    decimals: u32,
    kind: BatchKind,
    delivered: Seq<bool>,
    milestone_id: u32,
)
    requires
        same_but_for_marks(e.campaign, f.campaign),
        f == e.with_campaign(f.campaign),
    ensures
        contribute_refusal(e, who, amount, verified, decimals) == contribute_refusal(
            f,
            who,
            amount,
            verified,
            decimals,
        ),
        same_but_for_marks(
            after_contribution(e.campaign, who, amount),
            after_contribution(f.campaign, who, amount),
        ),
        pledge_refusal(e, who, amount, verified) == pledge_refusal(f, who, amount, verified),
        withdraw_refusal(e) == withdraw_refusal(f),
        withdrawal_effects(e) == withdrawal_effects(f),
        collect_refusal(e) == collect_refusal(f),
        refund_refusal(e) == refund_refusal(f),
        cancel_refusal(e) == cancel_refusal(f),
        same_but_for_marks(
            batch_result(kind, e, delivered).campaign,
            batch_result(kind, f, delivered).campaign,
        ),
        refund_single_refusal(e, who) == refund_single_refusal(f, who),
        refund_single_effects(e, who) == refund_single_effects(f, who),
        release_refusal(e, who, milestone_id) == release_refusal(f, who, milestone_id),
        release_effects(e, milestone_id) == release_effects(f, milestone_id),
        claim_refusal(e, who, milestone_id) == claim_refusal(f, who, milestone_id),
        claim_effects(e, who, milestone_id) == claim_effects(f, who, milestone_id),
{
}

// The KYC gate

/// Without a KYC gate, or with one that is switched off, contributions and pledges
/// behave exactly as in a campaign that never had one, whatever a verifier says.
pub proof fn law_open_gate_asks_nothing(
    e: EnvView,
    who: Address,
    amount: i128,
    verified: bool,
    decimals: u32,
)
    requires
        e.campaign.kyc_gate is None || !e.campaign.kyc_gate->0.enabled,
    ensures
        passes_gate(e.campaign, who, amount as int, verified),
        contribute_refusal(e, who, amount, verified, decimals) == contribute_refusal(
            e.with_campaign(CampaignView { kyc_gate: None, ..e.campaign }),
            who,
            amount,
            !verified,
            decimals,
        ),
        pledge_refusal(e, who, amount, verified) == pledge_refusal(
            e.with_campaign(CampaignView { kyc_gate: None, ..e.campaign }),
            who,
            amount,
            !verified,
        ),
        contribute_refusal(e, who, amount, verified, decimals) != Some(ContractError::KycRequired),
        pledge_refusal(e, who, amount, verified) != Some(ContractError::KycRequired),
{
}

/// The preview foretells the KYC gate: a contribution or pledge that is otherwise
/// admissible fails for want of verification exactly when the preview says so.
pub proof fn law_preview_foretells_the_outcome(
    e: EnvView,
    who: Address,
    amount: i128,
    verified: bool,
    decimals: u32,
)
    ensures
        contribution_refusal(e, who, amount) is None ==> (contribute_refusal(
            e,
            who,
            amount,
            verified,
            decimals,
        ) == Some(ContractError::KycRequired) <==> !passes_gate(
            e.campaign,
            who,
            amount as int,
            verified,
        )),
        pledge_admission_refusal(e, who, amount) is None ==> (pledge_refusal(
            e,
            who,
            amount,
            verified,
        ) == Some(ContractError::KycRequired) <==> !passes_gate(
            e.campaign,
            who,
            amount as int,
            verified,
        )),
{
}

/// Contributions and pledges add up before the KYC gate: either one raises what its
/// maker has committed by its amount, so that a later commitment which would have been
/// let through before may need approval.
pub proof fn law_commitments_add_up(e: EnvView, who: Address, amount: i128, later: int)
    requires
        e.campaign.wf(),
    ensures
        contribution_refusal(e, who, amount) is None && amount_of(e.campaign.contributions, who)
            + amount <= i128::MAX ==> {
            let n = after_contribution(e.campaign, who, amount);
            &&& committed(n, who) == committed(e.campaign, who) + amount
            &&& needs_approval(n, who, later) == needs_approval(e.campaign, who, amount + later)
        },
        pledge_admission_refusal(e, who, amount) is None && e.campaign.total_pledged + amount
            <= i128::MAX ==> {
            let n = after_pledge(e.campaign, who, amount);
            &&& committed(n, who) == committed(e.campaign, who) + amount
            &&& needs_approval(n, who, later) == needs_approval(e.campaign, who, amount + later)
        },
{
    let c = e.campaign;
    lemma_amount_nonneg(c.contributions, who);
    lemma_amount_nonneg(c.pledges, who);
    if contribution_refusal(e, who, amount) is None && amount_of(c.contributions, who) + amount
        <= i128::MAX {
        lemma_with_amount(c.contributions, who, (amount_of(c.contributions, who) + amount) as i128);
    }
    if pledge_admission_refusal(e, who, amount) is None && c.total_pledged + amount <= i128::MAX {
        lemma_with_amount(c.pledges, who, (amount_of(c.pledges, who) + amount) as i128);
    }
}

/// Switching the KYC gate off and on again brings back the configuration it had.
pub proof fn law_toggling_keeps_the_configuration(config: KycGateConfig<Seq<u8>>)
    ensures
        ({
            let off = KycGateConfig { enabled: false, ..config };
            let on = KycGateConfig { enabled: true, ..off };
            &&& on == KycGateConfig { enabled: true, ..config }
            &&& config.enabled ==> on == config
            &&& off.verifier == config.verifier
            &&& off.threshold == config.threshold
            &&& off.jurisdiction == config.jurisdiction
        }),
{
}

// Batches

/// One failing transfer does not touch the others: what becomes of a line depends only
/// on that line and on its own transfer.
pub proof fn law_lines_settle_independently(
    s: Seq<Entry>,
    first: Seq<bool>,
    second: Seq<bool>,
    i: int,
)
    requires
        0 <= i < s.len(),
        first[i] == second[i],
    ensures
        settled(s, first, s.len() as int)[i] == settled(s, second, s.len() as int)[i],
        settled(s, first, s.len() as int)[i].who == s[i].who,
        !first[i] ==> settled(s, first, s.len() as int)[i] == s[i],
        first[i] && s[i].amount > 0 ==> settled(s, first, s.len() as int)[i].amount == 0,
{
}

/// After a batch, nothing stands any more to the name of a participant whose transfer went
/// through; a participant whose transfer failed stands as before.
pub proof fn law_participant_is_settled_or_untouched(
    s: Seq<Entry>,
    delivered: Seq<bool>,
    i: int,
)
    requires
        book_wf(s),
        s.len() <= delivered.len(),
        0 <= i < s.len(),
    ensures
        amount_of(settled(s, delivered, s.len() as int), s[i].who) == (if delivered[i] {
            0
        } else {
            amount_of(s, s[i].who)
        }),
{
    let after = settled(s, delivered, s.len() as int);
    lemma_settled(s, delivered, s.len() as int);
    lemma_place_unique(s, i);
    lemma_place_unique(after, i);
}

/// A transfer that is under way shields its line: the line is cleared before the transfer
/// goes out, so that a call in between finds nothing owed to the participant and cannot
/// pay out a second time.
pub proof fn law_line_is_shielded_during_its_transfer(kind: BatchKind, e: EnvView, i: int)
    requires
        e.campaign.wf(),
        0 <= i < ledger(kind, e.campaign).len(),
    ensures
        ({
            let s = ledger(kind, e.campaign);
            let who = s[i].who;
            let n = with_ledger(kind, e.campaign, s.update(i, Entry { who, amount: 0 }));
            &&& amount_of(ledger(kind, n), who) == 0
            &&& kind !is CollectPledges ==> refund_single_refusal(e.with_campaign(n), who) is Some
        }),
{
    let s = ledger(kind, e.campaign);
    let t = s.update(i, Entry { who: s[i].who, amount: 0 });
    assert(book_wf(t));
    lemma_place_unique(t, i);
}

/// Every line with something on it has its transfer tried, for exactly what is on it.
pub proof fn law_every_line_is_tried(
    kind: BatchKind,
    e: EnvView,
    s: Seq<Entry>,
    delivered: Seq<bool>,
    k: int,
    i: int,
)
    requires
        0 <= i < k <= s.len(),
        s[i].amount > 0,
    ensures
        walk_effects(kind, e, s, delivered, k).contains(attempt(kind, e, s[i])),
    decreases k,
{
    let all = walk_effects(kind, e, s, delivered, k);
    let before = walk_effects(kind, e, s, delivered, k - 1);
    if i == k - 1 {
        assert(all[before.len() as int] == attempt(kind, e, s[i]));
    } else {
        law_every_line_is_tried(kind, e, s, delivered, k - 1, i);
        let j = before.index_of(attempt(kind, e, s[i]));
        assert(all[j] == before[j]);
    }
}

/// Collecting pledges moves funds from pledged to raised and loses none, and leaves the
/// contributions alone.
pub proof fn law_collecting_conserves(e: EnvView, delivered: Seq<bool>)
    requires
        e.campaign.wf(),
        e.campaign.pledges.len() <= delivered.len(),
    ensures
        ({
            let c = e.campaign;
            let n = batch_result(BatchKind::CollectPledges, e, delivered).campaign;
            &&& n.total_raised + n.total_pledged == c.total_raised + c.total_pledged
            &&& n.total_raised - c.total_raised == moved(
                c.pledges,
                delivered,
                c.pledges.len() as int,
            )
            &&& n.total_raised >= c.total_raised
            &&& n.total_pledged >= 0
            &&& n.contributions == c.contributions
            &&& n.status == c.status
        }),
{
    lemma_settled(e.campaign.pledges, delivered, e.campaign.pledges.len() as int);
    lemma_total_nonneg(e.campaign.pledges);
}

/// A refund or cancellation lowers the total by exactly what it takes off the book, and
/// ends the campaign exactly when it skipped nobody.
pub proof fn law_payback_is_exact(kind: BatchKind, e: EnvView, delivered: Seq<bool>)
    requires
        e.campaign.wf(),
        e.campaign.status is Active,
        kind !is CollectPledges,
        e.campaign.contributions.len() <= delivered.len(),
    ensures
        ({
            let c = e.campaign;
            let n = batch_result(kind, e, delivered).campaign;
            let len = c.contributions.len() as int;
            &&& c.total_raised - n.total_raised == total(c.contributions) - total(n.contributions)
            &&& c.total_raised - n.total_raised == moved(c.contributions, delivered, len)
            &&& n.total_raised <= c.total_raised
            &&& c.milestones.len() == 0 ==> 0 <= n.total_raised
            &&& n.status is Active <==> exists|i: int|
                0 <= i < len && (#[trigger] c.contributions[i]).amount > 0 && !delivered[i]
            &&& n.status !is Active ==> total(n.contributions) == 0 && n.status
                == (if kind is Refund {
                Status::Refunded
            } else {
                Status::Cancelled
            })
            &&& n.pledges == c.pledges
        }),
{
    let c = e.campaign;
    let s = c.contributions;
    let len = s.len() as int;
    lemma_settled(s, delivered, len);
    lemma_total_nonneg(settled(s, delivered, len));
    lemma_skipped(s, delivered, len);
    if skipped(s, delivered, len) == 0 {
        lemma_all_clear(settled(s, delivered, len));
    }
}

/// The count of skipped lines is zero exactly when there is none.
proof fn lemma_skipped(s: Seq<Entry>, delivered: Seq<bool>, k: int)
    requires
        0 <= k <= s.len(),
        s.len() <= delivered.len(),
    ensures
        skipped(s, delivered, k) >= 0,
        skipped(s, delivered, k) > 0 <==> exists|i: int|
            0 <= i < k && (#[trigger] s[i]).amount > 0 && !delivered[i],
    decreases k,
{
    if k > 0 {
        lemma_skipped(s, delivered, k - 1);
        if s[k - 1].amount > 0 && !delivered[k - 1] {
            assert(s[k - 1].amount > 0 && !delivered[k - 1]);
        }
    }
}

/// A book without positive lines sums up to nothing.
proof fn lemma_all_clear(s: Seq<Entry>)
    requires
        book_wf(s),
        forall|i: int| 0 <= i < s.len() ==> (#[trigger] s[i]).amount <= 0,
    ensures
        total(s) == 0,
    decreases s.len(),
{
    if s.len() > 0 {
        let t = s.drop_last();
        assert forall|i: int| 0 <= i < t.len() implies (#[trigger] t[i]).amount <= 0 by {
            assert(t[i] == s[i]);
        }
        lemma_book_drop_last(s);
        lemma_all_clear(t);
        assert(s.last() == s[s.len() - 1]);
    }
}

/// Skipped transfers can be made up for: as long as the campaign is not settled, another
/// run is not refused, and one in which the token lets everything through clears the
/// whole book. Collecting then has turned all that was pledged into funds raised; a refund
/// or cancellation has paid all back and ends the campaign.
pub proof fn law_skipped_lines_can_be_retried(
    kind: BatchKind,
    e: EnvView,
    first: Seq<bool>,
    second: Seq<bool>,
)
    requires
        e.campaign.wf(),
        e.campaign.status is Active,
        ledger(kind, e.campaign).len() <= first.len(),
        ledger(kind, e.campaign).len() <= second.len(),
        forall|i: int| 0 <= i < second.len() ==> second[i],
    ensures
        ({
            let c = e.campaign;
            let m = batch_result(kind, e, first);
            let n = batch_result(kind, m, second).campaign;
            &&& kind is CollectPledges ==> {
                &&& collect_refusal(m) == collect_refusal(e)
                &&& n.total_pledged == 0
                &&& n.total_raised == c.total_raised + c.total_pledged
                &&& n.status is Active
            }
            &&& kind !is CollectPledges && m.campaign.status is Active ==> {
                &&& refund_refusal(e) is None ==> refund_refusal(m) is None
                &&& cancel_refusal(e) is None ==> cancel_refusal(m) is None
                &&& n.total_raised == c.total_raised - total(c.contributions)
                &&& n.status == (if kind is Refund {
                    Status::Refunded
                } else {
                    Status::Cancelled
                })
            }
            &&& ledger(kind, n).len() == ledger(kind, c).len()
            &&& forall|i: int|
                0 <= i < ledger(kind, n).len() ==> (#[trigger] ledger(kind, n)[i]).amount == 0
        }),
{
    let c = e.campaign;
    let s = ledger(kind, c);
    let len = s.len() as int;
    let m = batch_result(kind, e, first);
    let t = ledger(kind, m.campaign);
    assert(t == settled(s, first, len));
    lemma_settled(s, first, len);
    lemma_settled(t, second, len);
    let u = settled(t, second, len);
    assert(ledger(kind, batch_result(kind, m, second).campaign) == u);
    lemma_all_clear(u);
    lemma_skipped(t, second, len);
}

// Payout

/// A payout splits what was raised into the platform's fee and the creator's share and
/// leaves nothing over; the creator always gets something.
pub proof fn law_payout_is_complete(e: EnvView)
    requires
        e.campaign.wf(),
        withdraw_refusal(e) is None,
    ensures
        ({
            let c = e.campaign;
            let fee = platform_fee(c);
            let payout = c.total_raised - fee;
            &&& fee + payout == c.total_raised
            &&& 0 <= fee < c.total_raised
            &&& payout > 0
            &&& c.platform_config is None ==> fee == 0
            &&& after_withdrawal(c).total_raised == 0
        }),
{
    if let Some(config) = e.campaign.platform_config {
        lemma_fee_bounds(e.campaign.total_raised, config.fee_bps);
    }
}

/// What an effect moves from `from` to `to` for good.
pub open spec fn flow(effect: Effect<Seq<u8>>, from: Address, to: Address) -> int {
    match effect {
        Effect::Transfer { from: payer, to: payee, amount, .. } => if payer == from && payee
            == to {
            amount as int
        } else {
            0
        },
        _ => 0,
    }
}

/// What a list of effects moves from `from` to `to` for good.
pub open spec fn total_flow(effects: Seq<Effect<Seq<u8>>>, from: Address, to: Address) -> int
    decreases effects.len(),
{
    if effects.len() == 0 {
        0
    } else {
        total_flow(effects.drop_last(), from, to) + flow(effects.last(), from, to)
    }
}

/// Flows of joined lists add up.
proof fn lemma_flow_add(
    a: Seq<Effect<Seq<u8>>>,
    b: Seq<Effect<Seq<u8>>>,
    from: Address,
    to: Address,
)
    ensures
        total_flow(a + b, from, to) == total_flow(a, from, to) + total_flow(b, from, to),
    decreases b.len(),
{
    if b.len() == 0 {
        assert(a + b =~= a);
    } else {
        assert((a + b).drop_last() =~= a + b.drop_last());
        lemma_flow_add(a, b.drop_last(), from, to);
    }
}

/// A list without transfers moves nothing.
proof fn lemma_no_flow(a: Seq<Effect<Seq<u8>>>, from: Address, to: Address)
    requires
        forall|i: int| 0 <= i < a.len() ==> (#[trigger] a[i]) !is Transfer,
    ensures
        total_flow(a, from, to) == 0,
    decreases a.len(),
{
    if a.len() > 0 {
        assert forall|i: int| 0 <= i < a.drop_last().len() implies (
        #[trigger] a.drop_last()[i]) !is Transfer by {
            assert(a.drop_last()[i] == a[i]);
        }
        lemma_no_flow(a.drop_last(), from, to);
        assert(a.last() == a[a.len() - 1]);
    }
}

/// A single effect moves what it moves.
proof fn lemma_single_flow(effect: Effect<Seq<u8>>, from: Address, to: Address)
    ensures
        total_flow(seq![effect], from, to) == flow(effect, from, to),
{
    reveal_with_fuel(total_flow, 2);
    assert(seq![effect].drop_last() =~= Seq::empty());
}

/// A contribution moves exactly its amount from the contributor to the contract.
pub proof fn law_contribution_moves_its_amount(e: EnvView, who: Address, amount: i128)
    ensures
        total_flow(contribution_effects(e, who, amount), who, e.contract) == amount,
{
    let c = e.campaign;
    let x = amount as int;
    let to = e.contract;
    let transfer = Effect::<Seq<u8>>::Transfer { token: c.token, from: who, to, amount };
    let head = seq![instance_bump()];
    let paid = seq![transfer];
    let rest = seq![persistent_bump(DataKey::Contribution(who))] + goal_effects(c, x)
        + bonus_goal_effects(c, x) + stretch_goal_effects(c, x) + joining_effects(
        !listed(c.contributions, who),
        DataKey::Contributors,
    ) + seq![
        publication(
            Event::<Seq<u8>>::Contributed {
                backer: who,
                amount,
                total_raised: (c.total_raised + amount) as i128,
            },
        ),
    ];
    assert(contribution_effects(e, who, amount) =~= head + paid + rest);
    lemma_flow_add(head + paid, rest, who, to);
    lemma_flow_add(head, paid, who, to);
    lemma_no_flow(head, who, to);
    lemma_no_flow(rest, who, to);
    lemma_single_flow(transfer, who, to);
}

/// A single refund moves exactly what stands to the contributor's name from the contract
/// to the contributor.
pub proof fn law_refund_moves_what_was_put_in(e: EnvView, who: Address)
    requires
        e.campaign.wf(),
    ensures
        total_flow(refund_single_effects(e, who), e.contract, who) == amount_of(
            e.campaign.contributions,
            who,
        ),
{
    let effects = refund_single_effects(e, who);
    let from = e.contract;
    let head = seq![effects[0], effects[1]];
    let paid = seq![effects[2]];
    let tail = seq![effects[3]];
    assert(effects =~= head + paid + tail);
    lemma_amount_nonneg(e.campaign.contributions, who);
    lemma_flow_add(head + paid, tail, from, who);
    lemma_flow_add(head, paid, from, who);
    lemma_no_flow(head, from, who);
    lemma_no_flow(tail, from, who);
    lemma_single_flow(effects[2], from, who);
}

/// A payout moves exactly the fee to the platform and exactly the rest to the creator
/// (to an address that is both, the whole).
pub proof fn law_payout_moves_what_was_raised(e: EnvView)
    requires
        e.campaign.wf(),
        withdraw_refusal(e) is None,
        e.campaign.total_raised <= i128::MAX,
    ensures
        ({
            let c = e.campaign;
            let effects = withdrawal_effects(e);
            &&& c.platform_config is None ==> total_flow(effects, e.contract, c.creator)
                == c.total_raised
            &&& c.platform_config matches Some(config) ==> {
                &&& config.address == c.creator ==> total_flow(effects, e.contract, c.creator)
                    == c.total_raised
                &&& config.address != c.creator ==> total_flow(
                    effects,
                    e.contract,
                    config.address,
                ) == platform_fee(c) && total_flow(effects, e.contract, c.creator)
                    == c.total_raised - platform_fee(c)
            }
        }),
{
    let c = e.campaign;
    law_payout_is_complete(e);
    lemma_payout_flow(e, c.creator);
    if let Some(config) = c.platform_config {
        lemma_payout_flow(e, config.address);
    }
}

/// What a payout moves to one address.
proof fn lemma_payout_flow(e: EnvView, to: Address)
    requires
        e.campaign.wf(),
        withdraw_refusal(e) is None,
        e.campaign.total_raised <= i128::MAX,
    ensures
        total_flow(withdrawal_effects(e), e.contract, to) == (
        if e.campaign.platform_config is Some && e.campaign.platform_config->0.address == to {
            platform_fee(e.campaign)
        } else {
            0
        }) + (if e.campaign.creator == to {
            e.campaign.total_raised - platform_fee(e.campaign)
        } else {
            0
        }),
{
    let c = e.campaign;
    let from = e.contract;
    law_payout_is_complete(e);
    let head = seq![instance_bump()];
    let fees = fee_effects(e, platform_fee(c));
    let payout = (c.total_raised - platform_fee(c)) as i128;
    let share = Effect::<Seq<u8>>::Transfer { token: c.token, from, to: c.creator, amount: payout };
    let nfts = nft_effects(c.nft_contract, c.contributions);
    let tail = seq![
        publication(
            Event::<Seq<u8>>::Withdrawn {
                creator: c.creator,
                amount: payout,
                platform_fee: platform_fee(c) as i128,
            },
        ),
    ];
    assert(withdrawal_effects(e) == head + fees + seq![share] + nfts + tail);
    lemma_flow_add(head + fees + seq![share] + nfts, tail, from, to);
    lemma_flow_add(head + fees + seq![share], nfts, from, to);
    lemma_flow_add(head + fees, seq![share], from, to);
    lemma_flow_add(head, fees, from, to);
    lemma_no_flow(head, from, to);
    lemma_no_flow(nfts, from, to);
    lemma_no_flow(tail, from, to);
    lemma_single_flow(share, from, to);
    if c.platform_config is Some && platform_fee(c) > 0 {
        assert(fees =~= seq![fees[0]] + seq![fees[1]]);
        lemma_flow_add(seq![fees[0]], seq![fees[1]], from, to);
        lemma_single_flow(fees[0], from, to);
        lemma_single_flow(fees[1], from, to);
    }
}

/// The reward NFTs go to contributors with something to their name only, to each of
/// them at most once, and to no more than the cap of them.
pub proof fn law_rewards_are_earned(nft_contract: Address, s: Seq<Entry>)
    requires
        book_wf(s),
    ensures
        ({
            let mints = mint_effects(nft_contract, s);
            &&& mints.len() == minted_count(s) <= MAX_NFT_MINT_BATCH
            &&& forall|i: int|
                0 <= i < mints.len() ==> (#[trigger] mints[i] matches Effect::Mint {
                    nft_contract: by,
                    to,
                } && by == nft_contract && listed(s, to) && amount_of(s, to) > 0)
            &&& mints.no_duplicates()
        }),
{
    let chosen = eligible(s);
    lemma_eligible(s);
    let mints = mint_effects(nft_contract, s);
    assert forall|i: int| 0 <= i < mints.len() implies (#[trigger] mints[i] matches Effect::Mint {
        nft_contract: by,
        to,
    } && by == nft_contract && listed(s, to) && amount_of(s, to) > 0) by {
        assert(mints[i] == Effect::<Seq<u8>>::Mint { nft_contract, to: chosen[i].who });
        let j = choose|j: int| 0 <= j < s.len() && s[j] == chosen[i];
        lemma_place_unique(s, j);
    }
    assert forall|i: int, j: int|
        0 <= i < mints.len() && 0 <= j < mints.len() && i != j implies mints[i] != mints[j] by {
        assert(mints[i] == Effect::<Seq<u8>>::Mint { nft_contract, to: chosen[i].who });
        assert(mints[j] == Effect::<Seq<u8>>::Mint { nft_contract, to: chosen[j].who });
    }
}

/// The eligible lines come from the book, are positive, and name nobody twice.
proof fn lemma_eligible(s: Seq<Entry>)
    requires
        book_wf(s),
    ensures
        forall|i: int|
            0 <= i < eligible(s).len() ==> (#[trigger] eligible(s)[i]).amount > 0 && exists|j: int|
                0 <= j < s.len() && s[j] == eligible(s)[i],
        forall|i: int, j: int|
            0 <= i < j < eligible(s).len() ==> eligible(s)[i].who != eligible(s)[j].who,
    decreases s.len(),
{
    reveal(Seq::filter);
    if s.len() > 0 {
        let t = s.drop_last();
        lemma_book_drop_last(s);
        lemma_eligible(t);
        assert forall|i: int| 0 <= i < eligible(s).len() implies (
        #[trigger] eligible(s)[i]).amount > 0 && exists|j: int|
            0 <= j < s.len() && s[j] == eligible(s)[i] by {
            if i < eligible(t).len() {
                assert(eligible(s)[i] == eligible(t)[i]);
                let j = choose|j: int| 0 <= j < t.len() && t[j] == eligible(t)[i];
                assert(s[j] == eligible(s)[i]);
            } else {
                assert(s[s.len() - 1] == eligible(s)[i]);
            }
        }
        assert forall|i: int, j: int|
            0 <= i < j < eligible(s).len() implies eligible(s)[i].who != eligible(s)[j].who by {
            assert(eligible(s)[i] == eligible(t)[i]);
            if j < eligible(t).len() {
                assert(eligible(s)[j] == eligible(t)[j]);
            } else {
                let p = choose|p: int| 0 <= p < t.len() && t[p] == eligible(t)[i];
                assert(s[p] == eligible(s)[i]);
                assert(s[s.len() - 1] == eligible(s)[j]);
            }
        }
    }
}

// The course of a campaign

/// Once a campaign is no longer active, nothing moves in or out of it any more.
pub proof fn law_an_ended_campaign_stays_ended(
    e: EnvView,
    who: Address,
    amount: i128,
    verified: bool,
    decimals: u32,
    title: Option<Seq<u8>>,
    description: Option<Seq<u8>>,
    socials: Option<Seq<u8>>,
)
    requires
        e.campaign.status !is Active,
    ensures
        contribute_refusal(e, who, amount, verified, decimals) == Some(
            ContractError::CampaignNotActive,
        ),
        collect_refusal(e) == Some(ContractError::CampaignNotActive),
        withdraw_refusal(e) == Some(ContractError::CampaignNotActive),
        refund_refusal(e) == Some(ContractError::CampaignNotActive),
        refund_single_refusal(e, who) == Some(ContractError::CampaignNotActive),
        cancel_refusal(e) == Some(ContractError::CampaignNotActive),
        metadata_refusal(e, who, title, description, socials) == Some(
            ContractError::CampaignNotActive,
        ),
{
}

/// A payout ends the campaign: it cannot be had twice, and no refund follows it.
pub proof fn law_no_second_payout(e: EnvView, who: Address)
    requires
        withdraw_refusal(e) is None,
    ensures
        ({
            let after = e.with_campaign(after_withdrawal(e.campaign));
            &&& withdraw_refusal(after) == Some(ContractError::CampaignNotActive)
            &&& refund_refusal(after) == Some(ContractError::CampaignNotActive)
            &&& refund_single_refusal(after, who) == Some(ContractError::CampaignNotActive)
            &&& cancel_refusal(after) == Some(ContractError::CampaignNotActive)
        }),
{
}

/// Payout and refund exclude each other: at no time are both to be had.
pub proof fn law_payout_and_refund_exclude_each_other(e: EnvView, who: Address)
    ensures
        withdraw_refusal(e) is None ==> refund_refusal(e) == Some(ContractError::GoalReached)
            && refund_single_refusal(e, who) == Some(ContractError::GoalReached),
        refund_refusal(e) is None ==> withdraw_refusal(e) is Some,
        refund_single_refusal(e, who) is None ==> withdraw_refusal(e) is Some,
{
}

/// Contributing ends where settling begins: a campaign takes contributions and pledges
/// up to its deadline and pays out, collects or refunds after it.
pub proof fn law_deadline_parts_taking_from_settling(
    e: EnvView,
    who: Address,
    amount: i128,
    verified: bool,
    decimals: u32,
)
    ensures
        contribute_refusal(e, who, amount, verified, decimals) is None ==> {
            &&& withdraw_refusal(e) is Some
            &&& collect_refusal(e) is Some
            &&& refund_refusal(e) is Some
            &&& refund_single_refusal(e, who) is Some
        },
        pledge_refusal(e, who, amount, verified) is None ==> {
            &&& withdraw_refusal(e) is Some
            &&& collect_refusal(e) is Some
            &&& refund_refusal(e) is Some
            &&& refund_single_refusal(e, who) is Some
        },
{
}

/// While a milestone schedule stands, neither a payout in one piece nor a cancellation
/// nor a collection of pledges is possible.
pub proof fn law_milestones_block_wholesale_settlement(e: EnvView)
    requires
        e.campaign.status is Active,
        e.campaign.milestones.len() > 0,
    ensures
        withdraw_refusal(e) == Some(ContractError::MilestoneModeActive),
        cancel_refusal(e) == Some(ContractError::MilestoneModeActive),
        collect_refusal(e) == Some(ContractError::MilestoneModeActive),
{
}

/// A refund gives back what was contributed, once: after a contribution, a refund takes
/// off the total all that the contributor ever put in and leaves everybody else's
/// standing alone, and another refund finds nothing. For somebody new the total is then
/// back where it was.
pub proof fn law_refund_undoes_contributions(
    e: EnvView,
    later: EnvView,
    who: Address,
    amount: i128,
    verified: bool,
    decimals: u32,
)
    requires
        e.campaign.wf(),
        contribute_refusal(e, who, amount, verified, decimals) is None,
        later.campaign == after_contribution(e.campaign, who, amount),
        refund_single_refusal(later, who) is None,
    ensures
        ({
            let n = after_refund_single(later.campaign, who);
            &&& n.total_raised == e.campaign.total_raised - amount_of(e.campaign.contributions, who)
            &&& !listed(e.campaign.contributions, who) ==> n.total_raised == e.campaign.total_raised
            &&& amount_of(n.contributions, who) == 0
            &&& forall|other: Address|
                other != who ==> #[trigger] amount_of(n.contributions, other) == amount_of(
                    e.campaign.contributions,
                    other,
                )
            &&& refund_single_refusal(later.with_campaign(n), who) == Some(
                ContractError::NothingToRefund,
            )
        }),
{
    let c = e.campaign;
    lemma_amount_nonneg(c.contributions, who);
    lemma_with_amount(c.contributions, who, (amount_of(c.contributions, who) + amount) as i128);
    let m = later.campaign;
    lemma_with_amount(m.contributions, who, 0);
}

/// A campaign that missed its goal can be refunded to every single contributor: nobody's
/// refund is in the way of anybody else's.
pub proof fn law_refunds_do_not_compete(e: EnvView, who: Address, other: Address)
    requires
        e.campaign.wf(),
        who != other,
        refund_single_refusal(e, who) is None,
        refund_single_refusal(e, other) is None,
    ensures
        ({
            let n = after_refund_single(e.campaign, who);
            &&& refund_single_refusal(e.with_campaign(n), other) is None
            &&& amount_of(n.contributions, other) == amount_of(e.campaign.contributions, other)
        }),
{
    lemma_amount_nonneg(e.campaign.contributions, who);
    lemma_with_amount(e.campaign.contributions, who, 0);
}

// Milestones

/// What the first `k` milestones of a schedule amount to.
pub open spec fn milestones_total(s: Seq<Milestone<Seq<u8>>>, k: int) -> int
    decreases k,
{
    if k <= 0 {
        0
    } else {
        milestones_total(s, k - 1) + s[k - 1].amount
    }
}

/// The milestones of a fresh schedule amount to what its rows do.
proof fn lemma_fresh_schedule(rows: Seq<MilestoneInput<Seq<u8>>>, voting_deadline: u64, k: int)
    requires
        0 <= k <= rows.len(),
    ensures
        milestones_total(fresh_schedule(rows, voting_deadline), k) == schedule_total(rows, k),
    decreases k,
{
    if k > 0 {
        lemma_fresh_schedule(rows, voting_deadline, k - 1);
    }
}

/// A schedule that is accepted shares out exactly what has been raised: its milestones, all
/// pending and with different ids, sum up to the total, which is kept as their basis.
pub proof fn law_schedule_shares_out_what_was_raised(
    e: EnvView,
    policy: MilestonePolicy,
    creator: Address,
    rows: Seq<MilestoneInput<Seq<u8>>>,
)
    requires
        proposal_refusal(e, policy, creator, rows) is None,
        e.campaign.total_raised <= i128::MAX,
        e.campaign.goal > 0,
    ensures
        ({
            let n = after_proposal(e, policy, rows);
            let s = n.milestones;
            &&& s.len() > 0
            &&& milestones_total(s, s.len() as int) == n.milestone_basis == n.total_raised
            &&& n.total_raised == e.campaign.total_raised
            &&& forall|i: int|
                0 <= i < s.len() ==> (#[trigger] s[i]).status is Pending && s[i].amount > 0
            &&& forall|i: int, j: int| 0 <= i < j < s.len() ==> s[i].id != s[j].id
        }),
{
    lemma_fresh_schedule(rows, (e.now + policy.voting_period) as u64, rows.len() as int);
    assert forall|i: int| 0 <= i < rows.len() implies rows[i].amount > 0 by {
        assert(row_fits(policy, rows[i]));
    }
}

/// A schedule is proposed once: after it no other is accepted, and the ways of settling the
/// campaign in one piece are closed.
pub proof fn law_schedule_is_proposed_once(
    e: EnvView,
    policy: MilestonePolicy,
    creator: Address,
    rows: Seq<MilestoneInput<Seq<u8>>>,
    others: Seq<MilestoneInput<Seq<u8>>>,
)
    requires
        proposal_refusal(e, policy, creator, rows) is None,
    ensures
        ({
            let after = e.with_campaign(after_proposal(e, policy, rows));
            &&& proposal_refusal(after, policy, creator, others) == Some(
                ContractError::MilestonesAlreadyProposed,
            )
            &&& withdraw_refusal(after) == Some(ContractError::MilestoneModeActive)
            &&& cancel_refusal(after) == Some(ContractError::MilestoneModeActive)
            &&& collect_refusal(after) == Some(ContractError::MilestoneModeActive)
        }),
{
}

/// A schedule can be proposed where a payout could be had, and only there.
pub proof fn law_proposal_opens_with_the_payout(e: EnvView)
    requires
        e.campaign.milestones.len() == 0,
    ensures
        proposal_guard(e, e.campaign.creator) is None <==> withdraw_refusal(e) is None,
{
}

/// Changing a milestone but not its id leaves every milestone where it is found.
proof fn lemma_place_stays(
    s: Seq<Milestone<Seq<u8>>>,
    i: int,
    m: Milestone<Seq<u8>>,
    id: u32,
    k: int,
)
    requires
        0 <= i < s.len(),
        m.id == s[i].id,
        0 <= k,
    ensures
        milestone_place(s.update(i, m), id, k) == milestone_place(s, id, k),
    decreases s.len() - k,
{
    if k < s.len() {
        lemma_place_stays(s, i, m, id, k + 1);
    }
}

/// A vote counts once and with its weight: the milestone then reads with the voter's
/// contribution added to the chosen side and nothing to the other, every other milestone
/// reads as before, and the voter cannot vote on it again.
pub proof fn law_vote_counts_once(
    e: EnvView,
    thresholds: VoteThresholds,
    voter: Address,
    milestone_id: u32,
    approve: bool,
    again: bool,
    other_id: u32,
)
    requires
        vote_refusal(e, voter, milestone_id, approve) is None,
        other_id != milestone_id,
    ensures
        ({
            let c = e.campaign;
            let n = after_vote(c, thresholds, voter, milestone_id, approve);
            let weight = amount_of(c.contributions, voter);
            let before = find_milestone(c.milestones, milestone_id, 0);
            let after = find_milestone(n.milestones, milestone_id, 0);
            &&& before is Some && after is Some
            &&& weight > 0
            &&& approve ==> after->0.yes_weight == before->0.yes_weight + weight
                && after->0.no_weight == before->0.no_weight
            &&& !approve ==> after->0.no_weight == before->0.no_weight + weight
                && after->0.yes_weight == before->0.yes_weight
            &&& after->0.amount == before->0.amount
            &&& find_milestone(n.milestones, other_id, 0) == find_milestone(
                c.milestones,
                other_id,
                0,
            )
            &&& n.milestone_votes.contains(MilestoneVoteKey { milestone_id, voter })
            &&& vote_refusal(e.with_campaign(n), voter, milestone_id, again) == Some(
                if after->0.status is Pending {
                    ContractError::AlreadyVoted
                } else {
                    ContractError::MilestoneNotPending
                },
            )
        }),
{
    let c = e.campaign;
    let i = milestone_place(c.milestones, milestone_id, 0);
    let n = after_vote(c, thresholds, voter, milestone_id, approve);
    lemma_find_at_place(c.milestones, milestone_id, 0);
    lemma_find_at_place(n.milestones, milestone_id, 0);
    lemma_find_at_place(c.milestones, other_id, 0);
    lemma_find_at_place(n.milestones, other_id, 0);
    lemma_place_stays(c.milestones, i, n.milestones[i], milestone_id, 0);
    lemma_place_stays(c.milestones, i, n.milestones[i], other_id, 0);
    let key = MilestoneVoteKey { milestone_id, voter };
    assert(n.milestone_votes[c.milestone_votes.len() as int] == key);
}

/// Silence rejects, and every decision is final: a vote that was finalized reads as
/// rejected, and a milestone that is not pending takes no vote and is not finalized.
pub proof fn law_decisions_are_final(
    e: EnvView,
    voter: Address,
    milestone_id: u32,
    approve: bool,
)
    ensures
        finalize_refusal(e, milestone_id) is None ==> {
            let after = find_milestone(
                after_finalizing(e.campaign, milestone_id).milestones,
                milestone_id,
                0,
            );
            after is Some && after->0.status is Rejected
        },
        find_milestone(e.campaign.milestones, milestone_id, 0) matches Some(m)
            ==> m.status !is Pending ==> {
            &&& vote_refusal(e, voter, milestone_id, approve) == Some(
                ContractError::MilestoneNotPending,
            )
            &&& finalize_refusal(e, milestone_id) == Some(ContractError::MilestoneNotPending)
        },
{
    let c = e.campaign;
    let i = milestone_place(c.milestones, milestone_id, 0);
    lemma_find_at_place(c.milestones, milestone_id, 0);
    if finalize_refusal(e, milestone_id) is None {
        let n = after_finalizing(c, milestone_id);
        lemma_find_at_place(n.milestones, milestone_id, 0);
        lemma_place_stays(c.milestones, i, n.milestones[i], milestone_id, 0);
    }
}

/// A release pays the milestone's amount out once, split between the platform's fee and the
/// creator's share: the total raised falls by the amount, the milestone then reads as
/// released, and it cannot be released again.
pub proof fn law_release_pays_once(e: EnvView, creator: Address, milestone_id: u32)
    requires
        e.campaign.wf(),
        release_refusal(e, creator, milestone_id) is None,
    ensures
        ({
            let c = e.campaign;
            let n = after_release(c, milestone_id);
            let m = c.milestones[milestone_place(c.milestones, milestone_id, 0)];
            let fee = fee_for(c, m.amount as int);
            &&& 0 <= fee < m.amount
            &&& fee + (m.amount - fee) == c.total_raised - n.total_raised
            &&& find_milestone(n.milestones, milestone_id, 0) == Some(
                Milestone { status: MilestoneStatus::Released, ..m },
            )
            &&& release_refusal(e.with_campaign(n), creator, milestone_id) == Some(
                ContractError::MilestoneNotApproved,
            )
        }),
{
    let c = e.campaign;
    let i = milestone_place(c.milestones, milestone_id, 0);
    let n = after_release(c, milestone_id);
    lemma_release_wf(e, creator, milestone_id);
    lemma_find_at_place(c.milestones, milestone_id, 0);
    lemma_find_at_place(n.milestones, milestone_id, 0);
    lemma_place_stays(c.milestones, i, n.milestones[i], milestone_id, 0);
    if let Some(config) = c.platform_config {
        lemma_fee_bounds(c.milestones[i].amount as int, config.fee_bps);
    }
}

/// A claim pays the contributor's share out once: the total raised falls by it, and a second
/// claim pays nothing and changes nothing.
pub proof fn law_second_claim_pays_nothing(e: EnvView, contributor: Address, milestone_id: u32)
    requires
        claim_refusal(e, contributor, milestone_id) is None,
    ensures
        ({
            let c = e.campaign;
            let after = claimed(e, contributor, milestone_id);
            let again = claimed(after, contributor, milestone_id);
            &&& c.total_raised - after.campaign.total_raised == share_of(
                c,
                contributor,
                milestone_id,
            ) > 0
            &&& claim_refusal(after, contributor, milestone_id) == Some(
                ContractError::NothingToRefund,
            )
            &&& again.campaign == after.campaign
            &&& again.outbox == after.outbox
        }),
{
    let c = e.campaign;
    let n = after_claim(c, contributor, milestone_id);
    let key = MilestoneRefundKey { milestone_id, contributor };
    assert(n.milestone_refunds_claimed[c.milestone_refunds_claimed.len() as int] == key);
}

/// The shares of one milestone never exceed its amount: if every contributor claims theirs,
/// the milestone still covers them all.
pub proof fn law_shares_stay_within_the_milestone(c: CampaignView, i: int)
    requires
        c.wf(),
        0 <= i < c.milestones.len(),
    ensures
        shares_total(
            c.milestones[i].amount as int,
            c.contributions,
            c.milestone_basis as int,
            c.contributions.len() as int,
        ) <= c.milestones[i].amount,
{
    lemma_shares_within(
        c.milestones[i].amount as int,
        c.contributions,
        c.milestone_basis as int,
    );
}

/// A schedule is covered from the start, and stays so through votes, releases and claims: the
/// total raised is at least what the schedule still owes, so that every release and every
/// claim that is accepted can be paid. (Refunds that open because releases took the total
/// below the goal take from the same funds.)
pub proof fn law_schedule_stays_covered(
    e: EnvView,
    policy: MilestonePolicy,
    rows: Seq<MilestoneInput<Seq<u8>>>,
    thresholds: VoteThresholds,
    who: Address,
    milestone_id: u32,
    approve: bool,
)
    requires
        e.campaign.wf(),
        e.campaign.total_raised <= i128::MAX,
    ensures
        proposal_refusal(e, policy, who, rows) is None ==> covered(after_proposal(e, policy, rows)),
        covered(e.campaign) && vote_refusal(e, who, milestone_id, approve) is None ==> covered(
            after_vote(e.campaign, thresholds, who, milestone_id, approve),
        ),
        covered(e.campaign) && finalize_refusal(e, milestone_id) is None ==> covered(
            after_finalizing(e.campaign, milestone_id),
        ),
        covered(e.campaign) && release_refusal(e, who, milestone_id) is None ==> {
            let c = e.campaign;
            let m = c.milestones[milestone_place(c.milestones, milestone_id, 0)];
            0 < m.amount <= c.total_raised && covered(after_release(c, milestone_id))
        },
        covered(e.campaign) && claim_refusal(e, who, milestone_id) is None ==> {
            let c = e.campaign;
            0 < share_of(c, who, milestone_id) <= c.total_raised && covered(
                after_claim(c, who, milestone_id),
            )
        },
{
    let c = e.campaign;
    let i = milestone_place(c.milestones, milestone_id, 0);
    lemma_find_at_place(c.milestones, milestone_id, 0);
    if proposal_refusal(e, policy, who, rows) is None {
        lemma_proposal_wf(e, policy, who, rows);
    }
    if vote_refusal(e, who, milestone_id, approve) is None {
        let n = after_vote(c, thresholds, who, milestone_id, approve);
        lemma_decision_wf(c, n, i, n.milestones[i]);
    }
    if finalize_refusal(e, milestone_id) is None {
        let n = after_finalizing(c, milestone_id);
        lemma_decision_wf(c, n, i, n.milestones[i]);
    }
    if release_refusal(e, who, milestone_id) is None {
        lemma_release_wf(e, who, milestone_id);
    }
    if claim_refusal(e, who, milestone_id) is None {
        lemma_claim_wf(e, who, milestone_id);
    }
}

/// The part of an account book that is about `who`.
pub open spec fn own_line(s: Seq<Entry>, who: Address) -> Seq<Entry> {
    if listed(s, who) {
        seq![s[place_of(s, who)]]
    } else {
        Seq::empty()
    }
}

/// `d` holds of the campaign `c` the terms, and of the books and records the part that is
/// about `who`.
pub open spec fn narrowed(c: CampaignView, d: CampaignView, who: Address) -> bool {
    &&& d.contributions == own_line(c.contributions, who)
    &&& d.pledges == own_line(c.pledges, who)
    &&& forall|key: MilestoneVoteKey| #[trigger]
        d.milestone_votes.contains(key) <==> c.milestone_votes.contains(key) && key.voter == who
    &&& forall|key: MilestoneRefundKey| #[trigger]
        d.milestone_refunds_claimed.contains(key) <==> c.milestone_refunds_claimed.contains(key)
            && key.contributor == who
    &&& d == (CampaignView {
        contributions: d.contributions,
        pledges: d.pledges,
        total_pledged: amount_of(c.pledges, who),
        milestone_votes: d.milestone_votes,
        milestone_refunds_claimed: d.milestone_refunds_claimed,
        ..c
    })
}

/// What the own line holds.
proof fn lemma_own_line(s: Seq<Entry>, who: Address)
    requires
        book_wf(s),
    ensures
        book_wf(own_line(s, who)),
        own_line(s, who).len() <= s.len(),
        listed(own_line(s, who), who) == listed(s, who),
        amount_of(own_line(s, who), who) == amount_of(s, who),
        total(own_line(s, who)) == amount_of(s, who),
        0 <= amount_of(s, who) <= total(s),
{
    let t = own_line(s, who);
    lemma_amount_nonneg(s, who);
    lemma_total_nonneg(s);
    reveal_with_fuel(total, 2);
    if listed(s, who) {
        let p = place_of(s, who);
        assert(t[0].who == who);
        lemma_place_unique(t, 0);
        lemma_line_within_total(s, p);
        assert(t.drop_last() =~= Seq::empty());
    }
}

/// One contributor's unclaimed share is part of all that are unclaimed.
proof fn lemma_own_unclaimed(
    m: Milestone<Seq<u8>>,
    c: CampaignView,
    d: CampaignView,
    who: Address,
    k: int,
)
    requires
        book_wf(c.contributions),
        narrowed(c, d, who),
        m.amount > 0,
        0 < c.milestone_basis,
        0 <= k <= c.contributions.len(),
    ensures
        ({
            let basis = c.milestone_basis as int;
            let all = unclaimed_shares(m, c.contributions, c.milestone_refunds_claimed, basis, k);
            let t = d.contributions;
            let own = unclaimed_shares(
                m,
                t,
                d.milestone_refunds_claimed,
                basis,
                t.len() as int,
            );
            &&& 0 <= all
            &&& listed(c.contributions, who) && place_of(c.contributions, who) < k ==> own <= all
            &&& !listed(c.contributions, who) ==> own == 0
        }),
    decreases k,
{
    reveal_with_fuel(unclaimed_shares, 2);
    let s = c.contributions;
    let basis = c.milestone_basis as int;
    if k > 0 {
        lemma_own_unclaimed(m, c, d, who, k - 1);
        lemma_share(m.amount as int, s[k - 1].amount as int, basis);
        let key = MilestoneRefundKey { milestone_id: m.id, contributor: who };
        assert(d.milestone_refunds_claimed.contains(key)
            == c.milestone_refunds_claimed.contains(key));
    }
}

/// What is owed with a view to one contributor is part of all that is owed.
proof fn lemma_own_owed(c: CampaignView, d: CampaignView, who: Address, k: int)
    requires
        c.wf(),
        narrowed(c, d, who),
        0 <= k <= c.milestones.len(),
    ensures
        owed(
            c.milestones,
            d.contributions,
            d.milestone_refunds_claimed,
            c.milestone_basis as int,
            k,
        ) <= owed(
            c.milestones,
            c.contributions,
            c.milestone_refunds_claimed,
            c.milestone_basis as int,
            k,
        ),
    decreases k,
{
    if k > 0 {
        lemma_own_owed(c, d, who, k - 1);
        lemma_own_unclaimed(c.milestones[k - 1], c, d, who, c.contributions.len() as int);
    }
}

/// What a sequence holds after one more item.
proof fn lemma_push_contains<A>(s: Seq<A>, x: A, y: A)
    ensures
        s.push(x).contains(y) <==> s.contains(y) || y == x,
{
    if s.contains(y) {
        assert(s.push(x)[s.index_of(y)] == y);
    }
    assert(s.push(x)[s.len() as int] == x);
}

/// Whoever asks for a refund, votes, claims a share or is put before the KYC gate needs
/// nobody else's lines or records: the part of the campaign that is about `who` is
/// well-formed, decides in the same way, asks the same of the host, and is then again the
/// part that is about `who`.
pub proof fn law_own_records_are_enough(
    e: EnvView,
    f: EnvView,
    who: Address,
    amount: int,
    milestone_id: u32,
    thresholds: VoteThresholds,
    approve: bool,
)
    requires
        e.campaign.wf(),
        narrowed(e.campaign, f.campaign, who),
        f == e.with_campaign(f.campaign),
    ensures
        f.campaign.wf(),
        amount_of(f.campaign.contributions, who) == amount_of(e.campaign.contributions, who),
        needs_approval(f.campaign, who, amount) == needs_approval(e.campaign, who, amount),
        refund_single_refusal(f, who) == refund_single_refusal(e, who),
        refund_single_effects(f, who) == refund_single_effects(e, who),
        refund_single_refusal(e, who) is None ==> narrowed(
            after_refund_single(e.campaign, who),
            after_refund_single(f.campaign, who),
            who,
        ),
        vote_refusal(f, who, milestone_id, approve) == vote_refusal(e, who, milestone_id, approve),
        vote_effects(f.campaign, thresholds, who, milestone_id, approve) == vote_effects(
            e.campaign,
            thresholds,
            who,
            milestone_id,
            approve,
        ),
        vote_refusal(e, who, milestone_id, approve) is None ==> narrowed(
            after_vote(e.campaign, thresholds, who, milestone_id, approve),
            after_vote(f.campaign, thresholds, who, milestone_id, approve),
            who,
        ),
        claim_refusal(f, who, milestone_id) == claim_refusal(e, who, milestone_id),
        claim_effects(f, who, milestone_id) == claim_effects(e, who, milestone_id),
        claim_refusal(e, who, milestone_id) is None ==> narrowed(
            after_claim(e.campaign, who, milestone_id),
            after_claim(f.campaign, who, milestone_id),
            who,
        ),
{
    let c = e.campaign;
    let d = f.campaign;
    lemma_own_line(c.contributions, who);
    lemma_own_line(c.pledges, who);
    if c.milestones.len() > 0 {
        lemma_own_owed(c, d, who, c.milestones.len() as int);
    }
    if refund_single_refusal(e, who) is None {
        let p = place_of(c.contributions, who);
        let s = with_amount(c.contributions, who, 0);
        assert(s[p].who == who);
        lemma_with_amount(c.contributions, who, 0);
        lemma_place_unique(s, p);
        lemma_place_unique(d.contributions, 0);
        assert(with_amount(d.contributions, who, 0) =~= own_line(s, who));
    }
    if vote_refusal(e, who, milestone_id, approve) is None {
        let key = MilestoneVoteKey { milestone_id, voter: who };
        assert forall|k: MilestoneVoteKey| #[trigger]
            d.milestone_votes.push(key).contains(k) <==> c.milestone_votes.push(key).contains(k)
                && k.voter == who by {
            lemma_push_contains(d.milestone_votes, key, k);
            lemma_push_contains(c.milestone_votes, key, k);
        }
    }
    if claim_refusal(e, who, milestone_id) is None {
        let key = MilestoneRefundKey { milestone_id, contributor: who };
        assert forall|k: MilestoneRefundKey| #[trigger]
            d.milestone_refunds_claimed.push(key).contains(k)
                <==> c.milestone_refunds_claimed.push(key).contains(k) && k.contributor == who by {
            lemma_push_contains(d.milestone_refunds_claimed, key, k);
            lemma_push_contains(c.milestone_refunds_claimed, key, k);
        }
    }
}

// Reading back

/// What an update of the metadata writes is what the queries then read; a field that the
/// update leaves alone reads as before.
pub proof fn law_metadata_reads_back(current: Option<Seq<u8>>, text: Seq<u8>)
    ensures
        text_or_empty(updated(current, Some(text))) == text,
        text_or_empty(updated(current, None)) == text_or_empty(current),
{
}

/// An upgrade can be undone: a rollback after it, whatever hash was put in force, brings
/// back the code that the upgrade named as the current one, and changes nothing stored.
pub proof fn law_upgrade_can_be_undone(
    e: EnvView,
    new_wasm_hash: WasmHash,
    current_wasm_hash: WasmHash,
    restored_hash: WasmHash,
)
    requires
        Some(restored_hash) == upgraded(
            e,
            new_wasm_hash,
            current_wasm_hash,
        ).campaign.previous_wasm_hash,
    ensures
        ({
            let between = upgraded(e, new_wasm_hash, current_wasm_hash);
            let after = rolled_back(between, restored_hash);
            &&& restored_hash == current_wasm_hash
            &&& after.campaign == between.campaign
            &&& after.outbox[between.outbox.len() as int + 1] == Effect::<Seq<u8>>::UpdateWasm {
                hash: current_wasm_hash,
            }
            &&& forall|i: int|
                0 <= i < after.outbox.len() && i > between.outbox.len() + 1 ==> (
                #[trigger] after.outbox[i]) !is UpdateWasm
        }),
{
}

// Figures

/// Progress runs from 0 to 10,000 basis points and reaches the end exactly when the
/// target is met.
pub proof fn law_progress_is_on_scale(raised: int, target: int)
    requires
        raised >= 0,
        target > 0,
    ensures
        0 <= progress_bps(raised, target) <= 10_000,
        progress_bps(raised, target) == 10_000 <==> raised >= target,
{
    let q = raised * 10_000 / target;
    assert(q >= 0) by (nonlinear_arith)
        requires
            q == raised * 10_000 / target,
            raised >= 0,
            target > 0,
    ;
    if raised >= target {
        assert(q >= 10_000) by (nonlinear_arith)
            requires
                q == raised * 10_000 / target,
                raised >= target,
                target > 0,
        ;
    } else {
        assert(q < 10_000) by (nonlinear_arith)
            requires
                q == raised * 10_000 / target,
                0 <= raised < target,
        ;
    }
}

/// The largest contribution is one that stands in the book, or 0 for an empty book, and
/// no contribution exceeds it; while a campaign runs and no milestone schedule shares its
/// funds out, it does not exceed the total.
pub proof fn law_largest_contribution_is_one(c: CampaignView)
    requires
        c.wf(),
    ensures
        ({
            let s = c.contributions;
            let top = largest(s, s.len() as int);
            &&& forall|i: int| 0 <= i < s.len() ==> (#[trigger] s[i]).amount <= top
            &&& top == 0 || exists|i: int| 0 <= i < s.len() && (#[trigger] s[i]).amount == top
            &&& c.status is Active && c.milestones.len() == 0 ==> 0 <= top <= c.total_raised
        }),
{
    let s = c.contributions;
    lemma_largest(s, s.len() as int);
    lemma_total_nonneg(s);
    let top = largest(s, s.len() as int);
    if top != 0 {
        let i = choose|i: int| 0 <= i < s.len() && (#[trigger] s[i]).amount == top;
        lemma_line_within_total(s, i);
    }
}

/// What `largest` is among the first `k` lines.
proof fn lemma_largest(s: Seq<Entry>, k: int)
    requires
        0 <= k <= s.len(),
    ensures
        largest(s, k) >= 0,
        forall|i: int| 0 <= i < k ==> (#[trigger] s[i]).amount <= largest(s, k),
        largest(s, k) == 0 || exists|i: int|
            0 <= i < k && (#[trigger] s[i]).amount == largest(s, k),
    decreases k,
{
    if k > 0 {
        lemma_largest(s, k - 1);
        if s[k - 1].amount > largest(s, k - 1) {
            assert(s[k - 1].amount == largest(s, k));
        }
    }
}

} // verus!
