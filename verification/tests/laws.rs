//! What holds of the contract as a whole, on concrete values.

use crowdfund::{
    Address, BatchKind, BatchStep, ContractError, CrowdfundContract, Effect, Env, InitParams,
    StateLimits, Status,
};

const CREATOR: Address = Address { contract: false, hi: 5, lo: 0 };
const TOKEN: Address = Address { contract: true, hi: 5, lo: 1 };
const CROWDFUND: Address = Address { contract: true, hi: 5, lo: 2 };
const ALICE: Address = Address { contract: false, hi: 6, lo: 1 };
const BOB: Address = Address { contract: false, hi: 6, lo: 2 };
const CAROL: Address = Address { contract: false, hi: 6, lo: 3 };

const DEADLINE: u64 = 5_000;

fn open(bonus_goal: Option<i128>) -> Env {
    let limits = StateLimits {
        max_contributors: 128,
        max_pledgers: 128,
        max_roadmap_items: 32,
        max_stretch_goals: 32,
        max_string_len: 256,
        max_roadmap_description: 280,
        max_title: 128,
        max_description: 2_048,
        max_social_links: 512,
        max_metadata_total: 2_304,
        max_bonus_goal_description: 280,
        min_deadline_offset: 60,
    };
    let params = InitParams {
        admin: CREATOR,
        creator: CREATOR,
        token: TOKEN,
        expected_token_decimals: 7,
        goal: 900,
        deadline: DEADLINE,
        min_contribution: 1,
        platform_config: None,
        bonus_goal,
        bonus_goal_description: None,
    };
    match CrowdfundContract::initialize(&None, limits, 0, CROWDFUND, true, params) {
        Ok(env) => env,
        Err(error) => panic!("not initialized: {:?}", error),
    }
}

fn fund(env: &mut Env, amounts: [(Address, i128); 3]) {
    for (who, amount) in amounts {
        assert_eq!(CrowdfundContract::contribute(env, who, amount, false, 7), Ok(()));
    }
}

/// What the transfers in the outbox move from `from` to `to`.
fn flow(env: &Env, from: Address, to: Address) -> i128 {
    let mut sum: i128 = 0;
    for effect in &env.outbox {
        if let Effect::Transfer { from: payer, to: payee, amount, .. } = effect {
            if *payer == from && *payee == to {
                sum += *amount;
            }
        }
    }
    sum
}

#[test]
fn collecting_conserves_what_is_committed() {
    for delivered in [
        vec![true, true, true],
        vec![false, true, false],
        vec![false, false, false],
    ] {
        let mut env = open(None);
        fund(&mut env, [(ALICE, 100), (BOB, 1), (CAROL, 2)]);
        for (who, amount) in [(ALICE, 300), (BOB, 400), (CAROL, 500)] {
            assert_eq!(CrowdfundContract::pledge(&mut env, who, amount, false), Ok(()));
        }
        env.now = DEADLINE + 1;
        assert_eq!(CrowdfundContract::collect_pledges(&mut env, &delivered), Ok(()));
        assert_eq!(env.campaign.total_raised + env.campaign.total_pledged, 103 + 1_200);
        assert_eq!(env.campaign.contributions.amount(ALICE), 100);
        assert_eq!(env.campaign.status, Status::Active);
        // Whatever was passed over can be made up for.
        assert_eq!(
            CrowdfundContract::collect_pledges(&mut env, &vec![true, true, true]),
            Ok(())
        );
        assert_eq!(env.campaign.total_raised, 1_303);
        assert_eq!(env.campaign.total_pledged, 0);
    }
}

#[test]
fn paying_back_is_exact_and_settles_once_nobody_is_left() {
    let mut env = open(None);
    fund(&mut env, [(ALICE, 100), (BOB, 200), (CAROL, 300)]);
    env.now = DEADLINE + 1;
    assert_eq!(CrowdfundContract::refund(&mut env, &vec![true, false, true]), Ok(()));
    assert_eq!(env.campaign.total_raised, 200);
    assert_eq!(env.campaign.contributions.amount(BOB), 200);
    assert_eq!(env.campaign.status, Status::Active);
    assert_eq!(CrowdfundContract::refund(&mut env, &vec![true, true, true]), Ok(()));
    assert_eq!(env.campaign.total_raised, 0);
    assert_eq!(env.campaign.status, Status::Refunded);
}

#[test]
fn a_straggler_can_help_themselves() {
    let mut env = open(None);
    fund(&mut env, [(ALICE, 100), (BOB, 200), (CAROL, 300)]);
    env.now = DEADLINE + 1;
    assert_eq!(CrowdfundContract::refund(&mut env, &vec![true, false, true]), Ok(()));
    env.outbox.clear();
    assert_eq!(CrowdfundContract::refund_single(&mut env, BOB), Ok(()));
    assert_eq!(flow(&env, CROWDFUND, BOB), 200);
    assert_eq!(env.campaign.total_raised, 0);
}

#[test]
fn every_line_is_tried_for_what_is_on_it() {
    let mut env = open(None);
    fund(&mut env, [(ALICE, 100), (BOB, 200), (CAROL, 300)]);
    env.outbox.clear();
    let mut batch = match CrowdfundContract::begin_cancel(&mut env) {
        Ok(batch) => batch,
        Err(error) => panic!("refused: {:?}", error),
    };
    assert_eq!(batch.kind, BatchKind::Cancel);
    let mut tried: Vec<(Address, i128)> = Vec::new();
    while batch.advance(&mut env) != BatchStep::Finished {
        match env.outbox.last() {
            Some(Effect::TryTransfer { token, from, to, amount }) => {
                assert_eq!((*token, *from), (TOKEN, CROWDFUND));
                tried.push((*to, *amount));
            }
            other => panic!("no transfer is under way: {:?}", other),
        }
        batch.reply(&mut env, true);
    }
    batch.finish(&mut env);
    assert_eq!(tried, vec![(ALICE, 100), (BOB, 200), (CAROL, 300)]);
    assert_eq!(env.campaign.status, Status::Cancelled);
}

#[test]
fn payout_and_refund_exclude_each_other() {
    for total in [897, 898, 899, 900, 901] {
        let mut env = open(None);
        fund(&mut env, [(ALICE, total - 2), (BOB, 1), (CAROL, 1)]);
        env.now = DEADLINE + 1;
        if total >= 900 {
            assert_eq!(
                CrowdfundContract::refund(&mut env, &vec![true; 3]),
                Err(ContractError::GoalReached)
            );
            env.outbox.clear();
            assert_eq!(CrowdfundContract::withdraw(&mut env), Ok(()));
            assert_eq!(flow(&env, CROWDFUND, CREATOR), total);
        } else {
            assert_eq!(CrowdfundContract::withdraw(&mut env), Err(ContractError::GoalNotReached));
            assert_eq!(CrowdfundContract::refund(&mut env, &vec![true; 3]), Ok(()));
        }
    }
}

#[test]
fn the_deadline_parts_taking_from_settling() {
    let mut env = open(None);
    fund(&mut env, [(ALICE, 900), (BOB, 1), (CAROL, 1)]);
    env.now = DEADLINE;
    assert_eq!(CrowdfundContract::withdraw(&mut env), Err(ContractError::CampaignStillActive));
    assert_eq!(CrowdfundContract::contribute(&mut env, ALICE, 1, false, 7), Ok(()));
    env.now = DEADLINE + 1;
    assert_eq!(
        CrowdfundContract::contribute(&mut env, ALICE, 1, false, 7),
        Err(ContractError::CampaignEnded)
    );
    assert_eq!(CrowdfundContract::withdraw(&mut env), Ok(()));
}

#[test]
fn marks_are_informational() {
    let mut plain = open(None);
    let mut marked = open(Some(950));
    assert_eq!(CrowdfundContract::add_stretch_goal(&mut marked, 901), Ok(()));
    for env in [&mut plain, &mut marked] {
        env.outbox.clear();
        env.auths.clear();
        fund(env, [(ALICE, 900), (BOB, 100), (CAROL, 7)]);
        assert_eq!(flow(env, ALICE, CROWDFUND), 900);
        env.outbox.clear();
        env.now = DEADLINE + 1;
        assert_eq!(CrowdfundContract::withdraw(env), Ok(()));
    }
    assert_eq!(plain.outbox, marked.outbox);
    assert_eq!(plain.auths, marked.auths);
}

#[test]
fn an_open_gate_ignores_the_verdict() {
    for verified in [false, true] {
        let mut env = open(None);
        assert!(CrowdfundContract::kyc_gate_preview(&mut env, ALICE, 1_000, verified));
        assert_eq!(CrowdfundContract::contribute(&mut env, ALICE, 500, verified, 7), Ok(()));
        assert_eq!(CrowdfundContract::pledge(&mut env, ALICE, 500, verified), Ok(()));
    }
}

#[test]
fn the_preview_foretells_the_outcome() {
    for verified in [false, true] {
        for amount in [399, 400, 401] {
            let mut env = open(None);
            fund(&mut env, [(ALICE, 50), (BOB, 1), (CAROL, 1)]);
            assert_eq!(CrowdfundContract::pledge(&mut env, ALICE, 50, false), Ok(()));
            assert_eq!(
                CrowdfundContract::configure_kyc_gate(
                    &mut env,
                    CREATOR,
                    TOKEN,
                    500,
                    b"CH".to_vec()
                ),
                Ok(())
            );
            let allowed = CrowdfundContract::kyc_gate_preview(&mut env, ALICE, amount, verified);
            assert_eq!(allowed, verified || amount < 400);
            let outcome = CrowdfundContract::contribute(&mut env, ALICE, amount, verified, 7);
            assert_eq!(outcome.is_ok(), allowed);
            if !allowed {
                assert_eq!(outcome, Err(ContractError::KycRequired));
            }
        }
    }
}

#[test]
fn a_refused_call_changes_nothing_stored() {
    let mut env = open(None);
    fund(&mut env, [(ALICE, 50), (BOB, 1), (CAROL, 1)]);
    env.outbox.clear();
    assert!(CrowdfundContract::contribute(&mut env, ALICE, 0, false, 7).is_err());
    assert!(CrowdfundContract::pledge(&mut env, ALICE, 0, false).is_err());
    assert!(CrowdfundContract::withdraw(&mut env).is_err());
    assert!(CrowdfundContract::refund(&mut env, &vec![true; 3]).is_err());
    assert!(CrowdfundContract::add_stretch_goal(&mut env, 1).is_err());
    assert!(env.outbox.is_empty());
    assert_eq!(env.campaign.total_raised, 52);
    assert_eq!(env.campaign.contributions.amount(ALICE), 50);
    assert_eq!(env.campaign.stretch_goals, vec![]);
}

/// How often the outbox holds an announcement of the given kind.
fn announced(env: &Env, action: &str) -> usize {
    env.outbox
        .iter()
        .filter(|effect| match effect {
            Effect::Publish { event } => event.action() == action,
            _ => false,
        })
        .count()
}

#[test]
fn marks_are_announced_once_in_a_life() {
    let mut env = open(Some(950));
    assert_eq!(CrowdfundContract::add_stretch_goal(&mut env, 980), Ok(()));
    assert_eq!(CrowdfundContract::add_stretch_goal(&mut env, 980), Ok(()));
    fund(&mut env, [(ALICE, 899), (BOB, 1), (CAROL, 99)]);
    assert_eq!(CrowdfundContract::pledge(&mut env, BOB, 50, false), Ok(()));
    assert_eq!(CrowdfundContract::keep_alive(&mut env), Ok(()));
    // Somebody is refunded by a cancellation that skips the others, and the total falls
    // below every mark; contributions then meet the marks a second time.
    assert_eq!(CrowdfundContract::cancel(&mut env, &vec![true, false, false]), Ok(()));
    assert_eq!(env.campaign.total_raised, 100);
    fund(&mut env, [(ALICE, 899), (BOB, 1), (CAROL, 99)]);
    assert_eq!(CrowdfundContract::add_stretch_goal(&mut env, 980), Ok(()));
    assert_eq!(CrowdfundContract::contribute(&mut env, ALICE, 1, false, 7), Ok(()));
    assert_eq!(announced(&env, "goal_reached"), 1);
    assert_eq!(announced(&env, "bonus_goal_reached"), 1);
    assert_eq!(announced(&env, "stretch_goal_reached"), 1);
}

#[test]
fn every_entry_point_extends_instance_storage() {
    let mut env = open(None);
    let bump = Effect::ExtendInstanceTtl { threshold: 100_000, extend_to: 535_000 };
    assert_eq!(env.outbox, vec![bump.clone()]);
    env.outbox.clear();
    CrowdfundContract::status(&mut env);
    CrowdfundContract::version(&mut env);
    CrowdfundContract::milestones(&mut env);
    CrowdfundContract::milestone(&mut env, 0);
    CrowdfundContract::milestone_basis(&mut env);
    CrowdfundContract::has_voted_milestone(&mut env, 0, ALICE);
    CrowdfundContract::has_claimed_milestone_refund(&mut env, 0, ALICE);
    CrowdfundContract::kyc_gate_config(&mut env);
    CrowdfundContract::kyc_gate_preview(&mut env, ALICE, 1, false);
    assert_eq!(env.outbox, vec![bump; 9]);
}
