//! Milestone schedules: proposing one, voting on it, finalizing votes.

use crowdfund::milestone_release::majority;
use crowdfund::{
    Address, ContractError, CrowdfundContract, DataKey, Effect, Env, Event, InitParams, Milestone,
    MilestoneInput, MilestonePolicy, MilestoneRefundKey, MilestoneStatus, MilestoneVoteKey,
    PlatformConfig, StateLimits, Status, VoteThresholds, LEDGER_BUMP_AMOUNT, LEDGER_THRESHOLD,
};

const CREATOR: Address = Address { contract: false, hi: 2, lo: 0 };
const TOKEN: Address = Address { contract: true, hi: 2, lo: 1 };
const CROWDFUND: Address = Address { contract: true, hi: 2, lo: 2 };
const PLATFORM: Address = Address { contract: false, hi: 2, lo: 3 };
const ALICE: Address = Address { contract: false, hi: 3, lo: 1 };
const BOB: Address = Address { contract: false, hi: 3, lo: 2 };
const CAROL: Address = Address { contract: false, hi: 3, lo: 3 };

const DEADLINE: u64 = 5_000;
const VOTING_DEADLINE: u64 = DEADLINE + 1 + 100;

const POLICY: MilestonePolicy =
    MilestonePolicy { max_milestones: 3, max_description: 10, voting_period: 100 };

const THRESHOLDS: VoteThresholds = VoteThresholds { approval: 501, rejection: 400 };

/// A campaign after its deadline with 1,000 raised: 300 by Alice, 300 by Bob, 400 by Carol.
fn funded() -> Env {
    let limits = StateLimits {
        max_contributors: 128,
        max_pledgers: 128,
        max_roadmap_items: 32,
        max_stretch_goals: 32,
        max_string_len: 256,
        max_roadmap_description: 280,
        max_title: 128,
        max_description: 2_048,
        max_social_links: 512,
        max_metadata_total: 2_304,
        max_bonus_goal_description: 280,
        min_deadline_offset: 60,
    };
    let params = InitParams {
        admin: CREATOR,
        creator: CREATOR,
        token: TOKEN,
        expected_token_decimals: 7,
        goal: 1_000,
        deadline: DEADLINE,
        min_contribution: 1,
        platform_config: Some(PlatformConfig { address: PLATFORM, fee_bps: 250 }),
        bonus_goal: None,
        bonus_goal_description: None,
    };
    let mut env = match CrowdfundContract::initialize(&None, limits, 0, CROWDFUND, true, params) {
        Ok(env) => env,
        Err(error) => panic!("not initialized: {:?}", error),
    };
    for (who, amount) in [(ALICE, 300), (BOB, 300), (CAROL, 400)] {
        assert_eq!(CrowdfundContract::contribute(&mut env, who, amount, false, 7), Ok(()));
    }
    next(&mut env, DEADLINE + 1);
    env
}

fn next(env: &mut Env, now: u64) {
    env.outbox.clear();
    env.auths.clear();
    env.now = now;
}

fn row(description: &str, amount: i128) -> MilestoneInput<Vec<u8>> {
    MilestoneInput { description: description.as_bytes().to_vec(), amount }
}

fn schedule() -> Vec<MilestoneInput<Vec<u8>>> {
    vec![row("piles", 600), row("deck", 400)]
}

fn propose(env: &mut Env, rows: Vec<MilestoneInput<Vec<u8>>>) -> Result<(), ContractError> {
    CrowdfundContract::propose_milestones(env, POLICY, CREATOR, &rows)
}

fn scheduled() -> Env {
    let mut env = funded();
    assert_eq!(propose(&mut env, schedule()), Ok(()));
    next(&mut env, DEADLINE + 2);
    env
}

fn vote(env: &mut Env, who: Address, id: u32, approve: bool) -> Result<(), ContractError> {
    CrowdfundContract::vote_milestone(env, THRESHOLDS, who, id, approve)
}

fn status(env: &mut Env, id: u32) -> MilestoneStatus {
    match CrowdfundContract::milestone(env, id) {
        Some(milestone) => milestone.status,
        None => panic!("no such milestone"),
    }
}

#[test]
fn a_schedule_shares_out_what_was_raised() {
    let mut env = funded();
    assert_eq!(propose(&mut env, schedule()), Ok(()));
    assert_eq!(env.auths, vec![CREATOR]);
    assert_eq!(
        env.outbox,
        vec![
            Effect::ExtendInstanceTtl {
                threshold: LEDGER_THRESHOLD,
                extend_to: LEDGER_BUMP_AMOUNT,
            },
            Effect::Publish {
                event: Event::MilestonesProposed {
                    creator: CREATOR,
                    count: 2,
                    total_raised: 1_000,
                },
            },
        ]
    );
    assert_eq!(
        CrowdfundContract::milestones(&mut env),
        vec![
            Milestone {
                id: 0,
                description: b"piles".to_vec(),
                amount: 600,
                status: MilestoneStatus::Pending,
                yes_weight: 0,
                no_weight: 0,
                voting_deadline: VOTING_DEADLINE,
            },
            Milestone {
                id: 1,
                description: b"deck".to_vec(),
                amount: 400,
                status: MilestoneStatus::Pending,
                yes_weight: 0,
                no_weight: 0,
                voting_deadline: VOTING_DEADLINE,
            },
        ]
    );
    assert_eq!(CrowdfundContract::milestone_basis(&mut env), 1_000);
    assert_eq!(propose(&mut env, schedule()), Err(ContractError::MilestonesAlreadyProposed));
    let blocked = Err(ContractError::MilestoneModeActive);
    assert_eq!(CrowdfundContract::withdraw(&mut env), blocked);
    assert_eq!(CrowdfundContract::cancel(&mut env, &vec![true; 3]), blocked);
    assert_eq!(CrowdfundContract::collect_pledges(&mut env, &vec![]), blocked);
    assert_eq!(CrowdfundContract::milestone(&mut env, 2), None);
    assert!(!CrowdfundContract::has_voted_milestone(&mut env, 0, ALICE));
}

#[test]
fn a_schedule_must_add_up_and_keep_its_bounds() {
    let mut env = funded();
    for rows in [
        vec![],
        vec![row("piles", 600), row("deck", 399)],
        vec![row("piles", 600), row("deck", 401)],
        vec![row("piles", 1_000), row("deck", 0)],
        vec![row("piles", 1_001), row("deck", -1)],
        vec![row("eleven long", 1_000)],
        vec![row("a", 250), row("b", 250), row("c", 250), row("d", 250)],
        vec![row("piles", 1_000), row("deck", i128::MAX)],
    ] {
        assert_eq!(propose(&mut env, rows), Err(ContractError::InvalidMilestoneSchedule));
    }
    assert!(env.outbox.is_empty());
    assert_eq!(CrowdfundContract::milestones(&mut env), vec![]);
    assert_eq!(propose(&mut env, vec![row("ten bytes!", 1_000)]), Ok(()));
}

#[test]
fn a_schedule_waits_for_deadline_and_goal() {
    let mut env = funded();
    assert_eq!(
        CrowdfundContract::propose_milestones(&mut env, POLICY, ALICE, &schedule()),
        Err(ContractError::Unauthorized)
    );
    assert!(env.auths.is_empty());
    env.now = DEADLINE;
    assert_eq!(propose(&mut env, schedule()), Err(ContractError::CampaignStillActive));
    env.now = DEADLINE + 1;
    env.campaign.total_raised = 999;
    assert_eq!(propose(&mut env, schedule()), Err(ContractError::GoalNotReached));
    env.campaign.total_raised = 1_000;
    assert_eq!(CrowdfundContract::withdraw(&mut env), Ok(()));
    assert_eq!(propose(&mut env, schedule()), Err(ContractError::CampaignNotActive));
}

#[test]
fn votes_weigh_what_was_contributed_and_decide() {
    let mut env = scheduled();
    assert_eq!(vote(&mut env, ALICE, 0, true), Ok(()));
    assert_eq!(env.auths, vec![ALICE]);
    assert_eq!(
        env.outbox,
        vec![
            Effect::ExtendInstanceTtl {
                threshold: LEDGER_THRESHOLD,
                extend_to: LEDGER_BUMP_AMOUNT,
            },
            Effect::ExtendPersistentTtl {
                key: DataKey::MilestoneVote(MilestoneVoteKey { milestone_id: 0, voter: ALICE }),
                threshold: LEDGER_THRESHOLD,
                extend_to: LEDGER_BUMP_AMOUNT,
            },
            Effect::Publish {
                event: Event::MilestoneVoteCast {
                    milestone_id: 0,
                    voter: ALICE,
                    approve: true,
                    weight: 300,
                    yes_weight: 300,
                    no_weight: 0,
                },
            },
        ]
    );
    assert_eq!(status(&mut env, 0), MilestoneStatus::Pending);
    assert!(CrowdfundContract::has_voted_milestone(&mut env, 0, ALICE));
    next(&mut env, VOTING_DEADLINE);
    assert_eq!(vote(&mut env, BOB, 0, true), Ok(()));
    assert_eq!(
        env.outbox.last(),
        Some(&Effect::Publish {
            event: Event::MilestoneResolved {
                milestone_id: 0,
                approved: true,
                yes_weight: 600,
                no_weight: 0,
            },
        })
    );
    assert_eq!(status(&mut env, 0), MilestoneStatus::Approved);
    assert_eq!(vote(&mut env, CAROL, 1, false), Ok(()));
    assert_eq!(status(&mut env, 1), MilestoneStatus::Rejected);
}

#[test]
fn votes_are_refused_for_cause() {
    let mut env = scheduled();
    assert_eq!(vote(&mut env, ALICE, 2, true), Err(ContractError::MilestoneNotFound));
    assert_eq!(vote(&mut env, CREATOR, 0, true), Err(ContractError::NoContributionWeight));
    assert_eq!(vote(&mut env, ALICE, 0, true), Ok(()));
    assert_eq!(vote(&mut env, ALICE, 0, false), Err(ContractError::AlreadyVoted));
    env.campaign.milestones[0].yes_weight = i128::MAX;
    assert_eq!(vote(&mut env, BOB, 0, true), Err(ContractError::Overflow));
    assert_eq!(vote(&mut env, CAROL, 0, false), Ok(()));
    assert_eq!(vote(&mut env, BOB, 0, false), Err(ContractError::MilestoneNotPending));
    env.now = VOTING_DEADLINE + 1;
    assert_eq!(vote(&mut env, BOB, 1, false), Err(ContractError::MilestoneNotPending));
}

#[test]
fn silence_rejects() {
    let mut env = scheduled();
    assert_eq!(vote(&mut env, CAROL, 1, true), Ok(()));
    next(&mut env, VOTING_DEADLINE);
    assert_eq!(
        CrowdfundContract::finalize_milestone_vote(&mut env, 1),
        Err(ContractError::CampaignStillActive)
    );
    assert_eq!(
        CrowdfundContract::finalize_milestone_vote(&mut env, 7),
        Err(ContractError::MilestoneNotFound)
    );
    next(&mut env, VOTING_DEADLINE + 1);
    assert_eq!(CrowdfundContract::finalize_milestone_vote(&mut env, 1), Ok(()));
    assert!(env.auths.is_empty());
    assert_eq!(
        env.outbox.last(),
        Some(&Effect::Publish {
            event: Event::MilestoneResolved {
                milestone_id: 1,
                approved: false,
                yes_weight: 400,
                no_weight: 0,
            },
        })
    );
    assert_eq!(status(&mut env, 1), MilestoneStatus::Rejected);
    assert_eq!(status(&mut env, 0), MilestoneStatus::Pending);
    assert_eq!(
        CrowdfundContract::finalize_milestone_vote(&mut env, 1),
        Err(ContractError::MilestoneNotPending)
    );
}

const BUMP: Effect<Vec<u8>> =
    Effect::ExtendInstanceTtl { threshold: LEDGER_THRESHOLD, extend_to: LEDGER_BUMP_AMOUNT };

/// A campaign whose first milestone (600) is approved and whose second one (400) is rejected.
fn decided() -> Env {
    let mut env = scheduled();
    assert_eq!(vote(&mut env, ALICE, 0, true), Ok(()));
    assert_eq!(vote(&mut env, BOB, 0, true), Ok(()));
    assert_eq!(vote(&mut env, CAROL, 1, false), Ok(()));
    next(&mut env, VOTING_DEADLINE + 1);
    env
}

#[test]
fn an_approved_milestone_is_released_once() {
    let mut env = decided();
    assert_eq!(CrowdfundContract::release_milestone(&mut env, CREATOR, 0), Ok(()));
    assert_eq!(env.auths, vec![CREATOR]);
    // 600 * 250 / 10,000 is 15.
    assert_eq!(
        env.outbox,
        vec![
            BUMP,
            Effect::Transfer { token: TOKEN, from: CROWDFUND, to: PLATFORM, amount: 15 },
            Effect::Publish { event: Event::FeeTransferred { platform: PLATFORM, fee: 15 } },
            Effect::Transfer { token: TOKEN, from: CROWDFUND, to: CREATOR, amount: 585 },
            Effect::Publish {
                event: Event::MilestoneReleased {
                    milestone_id: 0,
                    creator: CREATOR,
                    payout: 585,
                    platform_fee: 15,
                },
            },
        ]
    );
    assert_eq!(status(&mut env, 0), MilestoneStatus::Released);
    assert_eq!(status(&mut env, 1), MilestoneStatus::Rejected);
    assert_eq!(CrowdfundContract::total_raised(&mut env), 400);
    assert_eq!(
        CrowdfundContract::release_milestone(&mut env, CREATOR, 0),
        Err(ContractError::MilestoneNotApproved)
    );
}

#[test]
fn refunds_go_by_what_is_left_of_the_total() {
    let mut env = decided();
    // All of the 1,000 is there: the goal is met.
    let met = Err(ContractError::GoalReached);
    assert_eq!(CrowdfundContract::refund(&mut env, &vec![true; 3]), met);
    assert_eq!(CrowdfundContract::refund_single(&mut env, ALICE), met);
    // With 600 released, 400 are left.
    assert_eq!(CrowdfundContract::release_milestone(&mut env, CREATOR, 0), Ok(()));
    next(&mut env, VOTING_DEADLINE + 2);
    assert_eq!(CrowdfundContract::refund_single(&mut env, ALICE), Ok(()));
    assert_eq!(
        env.outbox[2],
        Effect::Transfer { token: TOKEN, from: CROWDFUND, to: ALICE, amount: 300 }
    );
    assert_eq!(CrowdfundContract::total_raised(&mut env), 100);
    assert_eq!(CrowdfundContract::contribution(&mut env, ALICE), 0);
    assert_eq!(
        CrowdfundContract::claim_milestone_refund(&mut env, ALICE, 1),
        Err(ContractError::NoContributionWeight)
    );
    // The batch pays 300 and 400 back, and the token decides what it lets through.
    assert_eq!(CrowdfundContract::refund(&mut env, &vec![true; 3]), Ok(()));
    assert_eq!(CrowdfundContract::total_raised(&mut env), -600);
    assert_eq!(CrowdfundContract::status(&mut env), Status::Refunded);
    let stats = CrowdfundContract::get_stats(&mut env);
    assert_eq!(stats.average_contribution, -200);
    assert_eq!(stats.largest_contribution, 0);
    // -600 * 10,000 / 1,000 is -6,000, which wraps around.
    assert_eq!(stats.progress_bps, 4_294_961_296);
}

#[test]
fn a_refund_that_skips_somebody_leaves_a_schedule_running() {
    let mut env = decided();
    assert_eq!(CrowdfundContract::release_milestone(&mut env, CREATOR, 0), Ok(()));
    assert_eq!(CrowdfundContract::refund(&mut env, &vec![true, false, false]), Ok(()));
    assert_eq!(CrowdfundContract::total_raised(&mut env), 100);
    assert_eq!(CrowdfundContract::status(&mut env), Status::Active);
    // 400 * 400 / 1,000 is 160.
    assert_eq!(CrowdfundContract::claim_milestone_refund(&mut env, CAROL, 1), Ok(()));
    assert_eq!(CrowdfundContract::total_raised(&mut env), -60);
    let stats = CrowdfundContract::get_stats(&mut env);
    // -60 / 3 is -20; -60 * 10,000 / 1,000 is -600.
    assert_eq!(stats.average_contribution, -20);
    assert_eq!(stats.progress_bps, 4_294_966_696);
}

/// Leaves of the campaign only what is about `who`.
fn narrow(mut env: Env, who: Address) -> Env {
    env.campaign.contributions.entries.retain(|entry| entry.who == who);
    env.campaign.milestone_votes.retain(|key| key.voter == who);
    env.campaign.milestone_refunds_claimed.retain(|key| key.contributor == who);
    env
}

#[test]
fn own_records_are_enough() {
    for who in [ALICE, BOB, CAROL, CREATOR] {
        let mut whole = scheduled();
        assert_eq!(vote(&mut whole, ALICE, 0, true), Ok(()));
        let mut part = scheduled();
        assert_eq!(vote(&mut part, ALICE, 0, true), Ok(()));
        let mut part = narrow(part, who);
        assert_eq!(vote(&mut part, who, 0, true), vote(&mut whole, who, 0, true));
        assert_eq!(part.outbox, whole.outbox);
        assert_eq!(part.campaign.milestones, whole.campaign.milestones);

        let mut whole = decided();
        let mut part = narrow(decided(), who);
        assert_eq!(
            CrowdfundContract::claim_milestone_refund(&mut part, who, 1),
            CrowdfundContract::claim_milestone_refund(&mut whole, who, 1)
        );
        assert_eq!(part.outbox, whole.outbox);
        assert_eq!(part.campaign.total_raised, whole.campaign.total_raised);

        let mut whole = decided();
        assert_eq!(CrowdfundContract::release_milestone(&mut whole, CREATOR, 0), Ok(()));
        let mut part = decided();
        assert_eq!(CrowdfundContract::release_milestone(&mut part, CREATOR, 0), Ok(()));
        let mut part = narrow(part, who);
        assert_eq!(
            CrowdfundContract::refund_single(&mut part, who),
            CrowdfundContract::refund_single(&mut whole, who)
        );
        assert_eq!(part.outbox, whole.outbox);
        assert_eq!(part.campaign.total_raised, whole.campaign.total_raised);
    }
}

#[test]
fn a_small_milestone_may_cost_no_fee() {
    let mut env = funded();
    assert_eq!(propose(&mut env, vec![row("piles", 39), row("deck", 961)]), Ok(()));
    for who in [ALICE, BOB] {
        assert_eq!(vote(&mut env, who, 0, true), Ok(()));
    }
    next(&mut env, DEADLINE + 3);
    // 39 * 250 / 10,000 is 0.975.
    assert_eq!(CrowdfundContract::release_milestone(&mut env, CREATOR, 0), Ok(()));
    assert_eq!(env.outbox.len(), 3);
    assert_eq!(
        env.outbox[1],
        Effect::Transfer { token: TOKEN, from: CROWDFUND, to: CREATOR, amount: 39 }
    );
}

#[test]
fn releases_are_refused_for_cause() {
    let mut env = decided();
    assert_eq!(
        CrowdfundContract::release_milestone(&mut env, ALICE, 0),
        Err(ContractError::Unauthorized)
    );
    assert!(env.auths.is_empty());
    assert_eq!(
        CrowdfundContract::release_milestone(&mut env, CREATOR, 2),
        Err(ContractError::MilestoneNotFound)
    );
    assert_eq!(
        CrowdfundContract::release_milestone(&mut env, CREATOR, 1),
        Err(ContractError::MilestoneNotApproved)
    );
    assert!(env.outbox.is_empty());
    assert_eq!(env.auths, vec![CREATOR, CREATOR]);
}

#[test]
fn a_rejected_milestone_is_refunded_in_shares() {
    let mut env = decided();
    assert_eq!(CrowdfundContract::claim_milestone_refund(&mut env, ALICE, 1), Ok(()));
    assert_eq!(env.auths, vec![ALICE]);
    let key = MilestoneRefundKey { milestone_id: 1, contributor: ALICE };
    // 400 * 300 / 1,000 is 120.
    assert_eq!(
        env.outbox,
        vec![
            BUMP,
            Effect::ExtendPersistentTtl {
                key: DataKey::MilestoneRefundClaimed(key),
                threshold: LEDGER_THRESHOLD,
                extend_to: LEDGER_BUMP_AMOUNT,
            },
            Effect::Transfer { token: TOKEN, from: CROWDFUND, to: ALICE, amount: 120 },
            Effect::Publish {
                event: Event::MilestoneRefundClaimed {
                    milestone_id: 1,
                    contributor: ALICE,
                    amount: 120,
                },
            },
        ]
    );
    assert!(CrowdfundContract::has_claimed_milestone_refund(&mut env, 1, ALICE));
    assert!(!CrowdfundContract::has_claimed_milestone_refund(&mut env, 1, BOB));
    assert_eq!(CrowdfundContract::total_raised(&mut env), 880);
    next(&mut env, VOTING_DEADLINE + 2);
    assert_eq!(
        CrowdfundContract::claim_milestone_refund(&mut env, ALICE, 1),
        Err(ContractError::NothingToRefund)
    );
    assert!(env.outbox.is_empty());
    assert_eq!(CrowdfundContract::claim_milestone_refund(&mut env, BOB, 1), Ok(()));
    assert_eq!(CrowdfundContract::claim_milestone_refund(&mut env, CAROL, 1), Ok(()));
    // 120, 120 and 160 are all of the 400; the approved 600 are still there.
    assert_eq!(CrowdfundContract::total_raised(&mut env), 600);
    assert_eq!(CrowdfundContract::release_milestone(&mut env, CREATOR, 0), Ok(()));
    assert_eq!(CrowdfundContract::total_raised(&mut env), 0);
    assert_eq!(CrowdfundContract::status(&mut env), Status::Active);
}

#[test]
fn claims_are_refused_for_cause() {
    let mut env = decided();
    assert_eq!(
        CrowdfundContract::claim_milestone_refund(&mut env, ALICE, 2),
        Err(ContractError::MilestoneNotFound)
    );
    assert_eq!(
        CrowdfundContract::claim_milestone_refund(&mut env, ALICE, 0),
        Err(ContractError::MilestoneNotRejected)
    );
    assert_eq!(
        CrowdfundContract::claim_milestone_refund(&mut env, CREATOR, 1),
        Err(ContractError::NoContributionWeight)
    );
    assert!(env.outbox.is_empty());
}

#[test]
fn shares_round_down() {
    let mut env = funded();
    assert_eq!(propose(&mut env, vec![row("a", 3), row("b", 2), row("c", 995)]), Ok(()));
    next(&mut env, VOTING_DEADLINE + 1);
    for id in [0, 1] {
        assert_eq!(CrowdfundContract::finalize_milestone_vote(&mut env, id), Ok(()));
    }
    // 3 * 300 / 1,000 is 0.9: nothing to refund. 3 * 400 / 1,000 is 1.2.
    assert_eq!(
        CrowdfundContract::claim_milestone_refund(&mut env, ALICE, 0),
        Err(ContractError::NothingToRefund)
    );
    assert_eq!(CrowdfundContract::claim_milestone_refund(&mut env, CAROL, 0), Ok(()));
    assert_eq!(CrowdfundContract::total_raised(&mut env), 999);
}

#[test]
fn a_majority_is_more_than_half() {
    assert_eq!(majority(1_000), VoteThresholds { approval: 501, rejection: 501 });
    assert_eq!(majority(999), VoteThresholds { approval: 500, rejection: 500 });
    assert_eq!(majority(0), VoteThresholds { approval: 1, rejection: 1 });
}
