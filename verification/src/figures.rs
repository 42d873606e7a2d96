//! The figures and names that a campaign shows to those who watch it.

use vstd::prelude::*;

use crate::batch::BatchKind;
use crate::book::Entry;
use crate::campaign::CampaignView;
use crate::goals::{first_unmet, progress_bps, truncated};
use crate::milestone_release::{find_milestone, lemma_find_at_place, lemma_numbered};
use crate::queries::{largest, stats};
use crate::types::ContractError;
use crate::withdraw_event_emission::Event;

verus! {

/// Whether `q` is `a` divided by the positive `b` and rounded towards 0.
pub open spec fn is_quotient(a: int, b: int, q: int) -> bool {
    if a >= 0 {
        q >= 0 && q * b <= a < (q + 1) * b
    } else {
        q <= 0 && (-q) * b <= -a < (-q + 1) * b
    }
}

/// Division rounds towards 0.
pub proof fn law_division_rounds_towards_zero(a: int, b: int)
    requires
        b > 0,
    ensures
        is_quotient(a, b, truncated(a, b)),
        truncated(-a, b) == -truncated(a, b),
{
    let x = if a >= 0 {
        a
    } else {
        -a
    };
    let q = x / b;
    assert(q >= 0 && q * b <= x < (q + 1) * b) by (nonlinear_arith)
        requires
            q == x / b,
            x >= 0,
            b > 0,
    ;
    if a == 0 {
        assert(q == 0) by (nonlinear_arith)
            requires
                q * b <= 0,
                q >= 0,
                b > 0,
        ;
    }
}

/// Progress is the total in basis points of the target, rounded down, up to all of it; without
/// a target there is none.
pub proof fn law_progress_is_in_basis_points(raised: int, target: int)
    requires
        raised >= 0,
    ensures
        target <= 0 ==> progress_bps(raised, target) == 0,
        target > 0 && raised >= target ==> progress_bps(raised, target) == 10_000,
        target > 0 && raised < target ==> {
            let bps = progress_bps(raised, target) as int;
            bps * target <= raised * 10_000 < (bps + 1) * target
        },
{
    if target > 0 {
        let q = raised * 10_000 / target;
        assert(q >= 0 && q * target <= raised * 10_000 < (q + 1) * target) by (nonlinear_arith)
            requires
                q == raised * 10_000 / target,
                raised >= 0,
                target > 0,
        ;
        if raised >= target {
            assert(q >= 10_000) by (nonlinear_arith)
                requires
                    raised * 10_000 < (q + 1) * target,
                    raised >= target,
                    target > 0,
            ;
        } else {
            assert(q < 10_000) by (nonlinear_arith)
                requires
                    q * target <= raised * 10_000,
                    0 <= raised < target,
            ;
        }
    }
}

/// A negative number shows in 32 bits as what is left of their range.
proof fn lemma_wraps(x: i128)
    requires
        -4_294_967_296 <= x < 0,
    ensures
        (x as u32) as int == x + 4_294_967_296,
{
    assert((x as u32) as i128 == x + 4_294_967_296i128) by (bit_vector)
        requires
            -4_294_967_296i128 <= x < 0i128,
    ;
}

/// A total below 0 shows as what its basis points of the target, rounded towards 0, leave of the
/// range of 32 bits.
pub proof fn law_negative_progress_wraps_around(raised: int, target: int, bps: int)
    requires
        raised < 0,
        target > 0,
        is_quotient(raised * 10_000, target, bps),
        -4_294_967_296 <= bps,
    ensures
        progress_bps(raised, target) == (if bps == 0 {
            0
        } else {
            bps + 4_294_967_296
        }),
{
    let x = -(raised * 10_000);
    let q = x / target;
    assert(q == -bps) by (nonlinear_arith)
        requires
            q == x / target,
            target > 0,
            (-bps) * target <= x < (-bps + 1) * target,
    ;
    assert(truncated(raised * 10_000, target) == bps);
    if bps < 0 {
        lemma_wraps(bps as i128);
    }
}

/// The mark that is shown as the next one is the first, in the order in which they were added,
/// that the total falls short of; 0 if the total falls short of none.
pub proof fn law_next_mark_is_the_first_unmet(goals: Seq<i128>, total: int)
    ensures
        ({
            let next = first_unmet(goals, total, 0);
            let unmet = exists|i: int| 0 <= i < goals.len() && total < #[trigger] goals[i];
            &&& !unmet ==> next == 0
            &&& unmet ==> exists|i: int|
                {
                    &&& 0 <= i < goals.len()
                    &&& next == #[trigger] goals[i]
                    &&& total < goals[i]
                    &&& forall|j: int| 0 <= j < i ==> total >= #[trigger] goals[j]
                }
        }),
{
    lemma_first_unmet(goals, total, 0);
}

/// What the first unmet mark from place `k` on is.
proof fn lemma_first_unmet(goals: Seq<i128>, total: int, k: int)
    requires
        0 <= k <= goals.len(),
    ensures
        (forall|i: int| k <= i < goals.len() ==> total >= #[trigger] goals[i]) ==> first_unmet(
            goals,
            total,
            k,
        ) == 0,
        (exists|i: int| k <= i < goals.len() && total < #[trigger] goals[i]) ==> exists|i: int|
            {
                &&& k <= i < goals.len()
                &&& first_unmet(goals, total, k) == #[trigger] goals[i]
                &&& total < goals[i]
                &&& forall|j: int| k <= j < i ==> total >= #[trigger] goals[j]
            },
    decreases goals.len() - k,
{
    if k < goals.len() {
        if total < goals[k] {
            assert(first_unmet(goals, total, k) == goals[k]);
        } else {
            lemma_first_unmet(goals, total, k + 1);
            if exists|i: int| k <= i < goals.len() && total < #[trigger] goals[i] {
                let i = choose|i: int|
                    {
                        &&& k + 1 <= i < goals.len()
                        &&& first_unmet(goals, total, k + 1) == #[trigger] goals[i]
                        &&& total < goals[i]
                        &&& forall|j: int| k + 1 <= j < i ==> total >= #[trigger] goals[j]
                    };
                assert(first_unmet(goals, total, k) == goals[i]);
            }
        }
    }
}

/// The summary shows the total and the goal as they are, how many contributors there are, what
/// they gave on average, and the progress towards the goal.
pub proof fn law_summary_shows_the_campaign(c: CampaignView)
    requires
        c.wf(),
        i128::MIN <= c.total_raised <= i128::MAX,
    ensures
        ({
            let r = stats(c);
            let count = c.contributions.len() as int;
            &&& r.total_raised == c.total_raised
            &&& r.goal == c.goal
            &&& r.progress_bps == progress_bps(c.total_raised, c.goal as int)
            &&& r.contributor_count == count
            &&& count == 0 ==> r.average_contribution == 0 && r.largest_contribution == 0
            &&& count > 0 && c.total_raised > i128::MIN ==> is_quotient(
                c.total_raised,
                count,
                r.average_contribution as int,
            )
            &&& r.largest_contribution >= 0
            &&& forall|i: int|
                0 <= i < count ==> (#[trigger] c.contributions[i]).amount
                    <= r.largest_contribution
            &&& r.largest_contribution == 0 || exists|i: int|
                0 <= i < count && (#[trigger] c.contributions[i]).amount
                    == r.largest_contribution
        }),
{
    let s = c.contributions;
    let count = s.len() as int;
    lemma_largest_line(s, count);
    if count > 0 {
        let q = truncated(c.total_raised, count);
        law_division_rounds_towards_zero(c.total_raised, count);
        if c.total_raised >= 0 {
            assert(q <= c.total_raised) by (nonlinear_arith)
                requires
                    q * count <= c.total_raised,
                    q >= 0,
                    count > 0,
            ;
        } else {
            assert(-q <= -c.total_raised) by (nonlinear_arith)
                requires
                    (-q) * count <= -c.total_raised,
                    q <= 0,
                    count > 0,
            ;
        }
    }
}

/// What the largest amount among the first `k` lines is.
proof fn lemma_largest_line(s: Seq<Entry>, k: int)
    requires
        0 <= k <= s.len(),
    ensures
        0 <= largest(s, k) <= i128::MAX,
        forall|i: int| 0 <= i < k ==> (#[trigger] s[i]).amount <= largest(s, k),
        largest(s, k) == 0 || exists|i: int|
            0 <= i < k && (#[trigger] s[i]).amount == largest(s, k),
    decreases k,
{
    if k > 0 {
        lemma_largest_line(s, k - 1);
        if s[k - 1].amount > largest(s, k - 1) {
            assert(s[k - 1].amount == largest(s, k));
        }
    }
}

/// A milestone is shown under its id, and there is none under any other number.
pub proof fn law_milestones_are_shown_by_id(c: CampaignView, milestone_id: u32)
    requires
        c.wf(),
    ensures
        milestone_id < c.milestones.len() ==> find_milestone(c.milestones, milestone_id, 0) == Some(
            c.milestones[milestone_id as int],
        ),
        milestone_id >= c.milestones.len() ==> find_milestone(c.milestones, milestone_id, 0)
            is None,
{
    if c.milestones.len() > 0 {
        lemma_numbered(c.milestones, milestone_id, 0);
        lemma_find_at_place(c.milestones, milestone_id, 0);
    }
}

/// The numbers under which callers see the errors are 1 to 30, a number of its own for each.
pub proof fn law_errors_keep_their_numbers(error: ContractError, other: ContractError)
    ensures
        1 <= error.spec_code() <= 30,
        error.spec_code() == other.spec_code() ==> error == other,
        error.spec_code() == 1 <==> error is AlreadyInitialized,
        error.spec_code() == 2 <==> error is CampaignEnded,
        error.spec_code() == 3 <==> error is CampaignStillActive,
        error.spec_code() == 4 <==> error is GoalNotReached,
        error.spec_code() == 5 <==> error is GoalReached,
        error.spec_code() == 6 <==> error is Overflow,
        error.spec_code() == 7 <==> error is NothingToRefund,
        error.spec_code() == 8 <==> error is InvalidGoal,
        error.spec_code() == 9 <==> error is InvalidMinContribution,
        error.spec_code() == 10 <==> error is DeadlineTooSoon,
        error.spec_code() == 11 <==> error is InvalidPlatformFee,
        error.spec_code() == 12 <==> error is InvalidBonusGoal,
        error.spec_code() == 13 <==> error is InvalidBonusGoalDescription,
        error.spec_code() == 14 <==> error is ZeroAmount,
        error.spec_code() == 15 <==> error is BelowMinimum,
        error.spec_code() == 16 <==> error is CampaignNotActive,
        error.spec_code() == 17 <==> error is Unauthorized,
        error.spec_code() == 18 <==> error is InvalidParameter,
        error.spec_code() == 19 <==> error is MilestonesAlreadyProposed,
        error.spec_code() == 20 <==> error is InvalidMilestoneSchedule,
        error.spec_code() == 21 <==> error is MilestoneNotFound,
        error.spec_code() == 22 <==> error is MilestoneNotPending,
        error.spec_code() == 23 <==> error is MilestoneNotApproved,
        error.spec_code() == 24 <==> error is AlreadyVoted,
        error.spec_code() == 25 <==> error is NoContributionWeight,
        error.spec_code() == 26 <==> error is MilestoneModeActive,
        error.spec_code() == 27 <==> error is MilestoneNotRejected,
        error.spec_code() == 28 <==> error is KycRequired,
        error.spec_code() == 29 <==> error is KycGateNotConfigured,
        error.spec_code() == 30 <==> error is InvalidTokenAddress,
{
}

/// The names under which events are published are fixed.
pub proof fn law_events_keep_their_names(event: Event<Seq<u8>>)
    ensures
        event is Contributed ==> event.spec_action() == "contributed"@,
        event is GoalReached ==> event.spec_action() == "goal_reached"@,
        event is BonusGoalReached ==> event.spec_action() == "bonus_goal_reached"@,
        event is StretchGoalReached ==> event.spec_action() == "stretch_goal_reached"@,
        event is Withdrawn ==> event.spec_action() == "withdrawn"@,
        event is Refunded ==> event.spec_action() == "refunded"@,
        event is Cancelled ==> event.spec_action() == "cancelled"@,
        event is TransferSkipped ==> event.spec_action() == "transfer_skipped"@,
        event is FeeTransferred ==> event.spec_action() == "fee_transferred"@,
        event is NftBatchMinted ==> event.spec_action() == "nft_batch_minted"@,
        event is Pledged ==> event.spec_action() == "pledged"@,
        event is PledgesCollected ==> event.spec_action() == "pledges_collected"@,
        event is MilestonesProposed ==> event.spec_action() == "milestones_proposed"@,
        event is MilestoneVoteCast ==> event.spec_action() == "milestone_vote_cast"@,
        event is MilestoneResolved ==> event.spec_action() == "milestone_resolved"@,
        event is MilestoneReleased ==> event.spec_action() == "milestone_released"@,
        event is MilestoneRefundClaimed ==> event.spec_action() == "milestone_refund_claimed"@,
        event is MilestoneScheduleCompleted ==> event.spec_action()
            == "milestone_schedule_completed"@,
        event is KycGateConfigured ==> event.spec_action() == "kyc_gate_configured"@,
        event is KycGateToggled ==> event.spec_action() == "kyc_gate_toggled"@,
        event is MetadataUpdated ==> event.spec_action() == "metadata_updated"@,
        event is RoadmapItemAdded ==> event.spec_action() == "roadmap_item_added"@,
        event is Upgrade ==> event.spec_action() == "upgrade"@,
        event is Rollback ==> event.spec_action() == "rollback"@,
        event is KeepAlive ==> event.spec_action() == "keep_alive"@,
{
}

/// The names under which skipped transfers report their batch are fixed.
pub proof fn law_batches_keep_their_names(kind: BatchKind)
    ensures
        kind is CollectPledges ==> kind.spec_context() == "collect_pledges"@,
        kind is Refund ==> kind.spec_context() == "refund"@,
        kind is Cancel ==> kind.spec_context() == "cancel"@,
{
}

} // verus!
