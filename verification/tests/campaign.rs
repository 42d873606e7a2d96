//! The course of a campaign: start, contributions, pledges, payout, refunds, metadata,
//! figures.

use crowdfund::{
    Address, CampaignStats, ContractError, CrowdfundContract, DataKey, Effect, Env, Event,
    InitParams, PlatformConfig, RoadmapItem, StateLimits, Status, WasmHash, LEDGER_BUMP_AMOUNT,
    LEDGER_THRESHOLD,
};

const ADMIN: Address = Address { contract: false, hi: 0, lo: 100 };
const CREATOR: Address = Address { contract: false, hi: 0, lo: 101 };
const PLATFORM: Address = Address { contract: false, hi: 0, lo: 102 };
const TOKEN: Address = Address { contract: true, hi: 0, lo: 103 };
const CROWDFUND: Address = Address { contract: true, hi: 0, lo: 104 };
const NFT: Address = Address { contract: true, hi: 0, lo: 105 };
const ALICE: Address = Address { contract: false, hi: 0, lo: 1 };
const BOB: Address = Address { contract: false, hi: 0, lo: 2 };
const CAROL: Address = Address { contract: false, hi: 0, lo: 3 };

const START: u64 = 10_000;
const DEADLINE: u64 = START + 3_600;

const INSTANCE_BUMP: Effect<Vec<u8>> =
    Effect::ExtendInstanceTtl { threshold: LEDGER_THRESHOLD, extend_to: LEDGER_BUMP_AMOUNT };

fn persistent_bump(key: DataKey) -> Effect<Vec<u8>> {
    Effect::ExtendPersistentTtl {
        key,
        threshold: LEDGER_THRESHOLD,
        extend_to: LEDGER_BUMP_AMOUNT,
    }
}

fn publish(event: Event<Vec<u8>>) -> Effect<Vec<u8>> {
    Effect::Publish { event }
}

fn limits() -> StateLimits {
    StateLimits {
        max_contributors: 3,
        max_pledgers: 2,
        max_roadmap_items: 2,
        max_stretch_goals: 3,
        max_string_len: 20,
        max_roadmap_description: 18,
        max_title: 10,
        max_description: 30,
        max_social_links: 15,
        max_metadata_total: 40,
        max_bonus_goal_description: 12,
        min_deadline_offset: 60,
    }
}

fn params() -> InitParams<Vec<u8>> {
    InitParams {
        admin: ADMIN,
        creator: CREATOR,
        token: TOKEN,
        expected_token_decimals: 7,
        goal: 1_000,
        deadline: DEADLINE,
        min_contribution: 10,
        platform_config: None,
        bonus_goal: None,
        bonus_goal_description: None,
    }
}

fn start(params: InitParams<Vec<u8>>) -> Result<Env, ContractError> {
    CrowdfundContract::initialize(&None, limits(), START, CROWDFUND, true, params)
}

fn open(params: InitParams<Vec<u8>>) -> Env {
    match start(params) {
        Ok(env) => env,
        Err(error) => panic!("not initialized: {:?}", error),
    }
}

/// The error with which a campaign cannot start.
fn start_error(params: InitParams<Vec<u8>>) -> ContractError {
    match start(params) {
        Ok(_) => panic!("the campaign started"),
        Err(error) => error,
    }
}

/// Starts a new invocation at time `now`.
fn next(env: &mut Env, now: u64) {
    env.outbox.clear();
    env.auths.clear();
    env.now = now;
}

fn contribute(env: &mut Env, who: Address, amount: i128) -> Result<(), ContractError> {
    next(env, START);
    CrowdfundContract::contribute(env, who, amount, false, 7)
}

/// How often the last invocation published something under the given second topic.
fn count(env: &Env, action: &str) -> usize {
    env.outbox
        .iter()
        .filter(|effect| match effect {
            Effect::Publish { event } => event.action() == action,
            _ => false,
        })
        .count()
}

// Start

#[test]
fn a_campaign_starts_with_nothing_in_it() {
    let mut env = open(InitParams {
        bonus_goal: Some(1_500),
        bonus_goal_description: Some(b"a second one".to_vec()),
        platform_config: Some(PlatformConfig { address: PLATFORM, fee_bps: 9_999 }),
        ..params()
    });
    assert_eq!(CrowdfundContract::status(&mut env), Status::Active);
    assert_eq!(CrowdfundContract::goal(&mut env), 1_000);
    assert_eq!(CrowdfundContract::deadline(&mut env), DEADLINE);
    assert_eq!(CrowdfundContract::min_contribution(&mut env), 10);
    assert_eq!(CrowdfundContract::token(&mut env), TOKEN);
    assert_eq!(CrowdfundContract::total_raised(&mut env), 0);
    assert_eq!(CrowdfundContract::contributors(&mut env), vec![]);
    assert_eq!(CrowdfundContract::bonus_goal(&mut env), Some(1_500));
    assert_eq!(
        CrowdfundContract::bonus_goal_description(&mut env),
        Some(b"a second one".to_vec())
    );
    assert_eq!(CrowdfundContract::bonus_goal_reached(&mut env), false);
    assert_eq!(CrowdfundContract::nft_contract(&mut env), None);
    assert_eq!(CrowdfundContract::title(&mut env), b"".to_vec());
    assert_eq!(CrowdfundContract::milestones(&mut env), vec![]);
    assert_eq!(CrowdfundContract::milestone_basis(&mut env), 0);
    assert_eq!(CrowdfundContract::version(&mut env), 3);
    assert_eq!(env.outbox, vec![INSTANCE_BUMP; 16]);
}

#[test]
fn a_campaign_starts_once() {
    let stored = Some(open(params()).campaign);
    match CrowdfundContract::initialize(&stored, limits(), START, CROWDFUND, true, params()) {
        Ok(_) => panic!("the campaign started twice"),
        Err(error) => assert_eq!(error, ContractError::AlreadyInitialized),
    }
}

#[test]
fn a_campaign_needs_sound_parameters() {
    assert_eq!(start_error(InitParams { goal: 0, ..params() }), ContractError::InvalidGoal);
    assert_eq!(
        start_error(InitParams { min_contribution: 0, ..params() }),
        ContractError::InvalidMinContribution
    );
    assert_eq!(
        start_error(InitParams { deadline: START + 59, ..params() }),
        ContractError::DeadlineTooSoon
    );
    assert!(start(InitParams { deadline: START + 60, ..params() }).is_ok());
    assert_eq!(
        start_error(InitParams { deadline: 0, ..params() }),
        ContractError::DeadlineTooSoon
    );
    assert_eq!(
        start_error(InitParams {
            platform_config: Some(PlatformConfig { address: PLATFORM, fee_bps: 10_000 }),
            ..params()
        }),
        ContractError::InvalidPlatformFee
    );
    assert_eq!(
        start_error(InitParams { bonus_goal: Some(1_000), ..params() }),
        ContractError::InvalidBonusGoal
    );
    assert_eq!(
        start_error(InitParams {
            bonus_goal: Some(1_001),
            bonus_goal_description: Some(b"thirteen long".to_vec()),
            ..params()
        }),
        ContractError::InvalidBonusGoalDescription
    );
    match CrowdfundContract::initialize(&None, limits(), START, CROWDFUND, false, params()) {
        Ok(_) => panic!("started without a token"),
        Err(error) => assert_eq!(error, ContractError::InvalidTokenAddress),
    }
}

// Contributions

#[test]
fn a_contribution_is_entered_and_sent_out() {
    let mut env = open(params());
    assert_eq!(contribute(&mut env, ALICE, 400), Ok(()));
    assert_eq!(env.auths, vec![ALICE]);
    assert_eq!(
        env.outbox,
        vec![
            INSTANCE_BUMP,
            Effect::Transfer { token: TOKEN, from: ALICE, to: CROWDFUND, amount: 400 },
            persistent_bump(DataKey::Contribution(ALICE)),
            persistent_bump(DataKey::Contributors),
            publish(Event::Contributed { backer: ALICE, amount: 400, total_raised: 400 }),
        ]
    );
    assert_eq!(contribute(&mut env, ALICE, 50), Ok(()));
    assert_eq!(
        env.outbox,
        vec![
            INSTANCE_BUMP,
            Effect::Transfer { token: TOKEN, from: ALICE, to: CROWDFUND, amount: 50 },
            persistent_bump(DataKey::Contribution(ALICE)),
            publish(Event::Contributed { backer: ALICE, amount: 50, total_raised: 450 }),
        ]
    );
    assert_eq!(contribute(&mut env, BOB, 10), Ok(()));
    assert_eq!(CrowdfundContract::contribution(&mut env, ALICE), 450);
    assert_eq!(CrowdfundContract::contribution(&mut env, BOB), 10);
    assert_eq!(CrowdfundContract::contribution(&mut env, CAROL), 0);
    assert_eq!(CrowdfundContract::contributors(&mut env), vec![ALICE, BOB]);
    assert_eq!(CrowdfundContract::total_raised(&mut env), 460);
}

#[test]
fn contributions_are_refused_for_cause() {
    let mut env = open(params());
    assert_eq!(contribute(&mut env, ALICE, 0), Err(ContractError::ZeroAmount));
    assert_eq!(contribute(&mut env, ALICE, 9), Err(ContractError::BelowMinimum));
    assert_eq!(contribute(&mut env, ALICE, -5), Err(ContractError::BelowMinimum));
    next(&mut env, DEADLINE + 1);
    assert_eq!(
        CrowdfundContract::contribute(&mut env, ALICE, 10, false, 7),
        Err(ContractError::CampaignEnded)
    );
    next(&mut env, DEADLINE);
    assert_eq!(
        CrowdfundContract::contribute(&mut env, ALICE, 10, false, 6),
        Err(ContractError::InvalidParameter)
    );
    assert!(env.outbox.is_empty());
    assert_eq!(env.auths, vec![ALICE]);
    assert_eq!(CrowdfundContract::contribute(&mut env, ALICE, 10, false, 7), Ok(()));
    assert_eq!(contribute(&mut env, BOB, i128::MAX), Err(ContractError::Overflow));
    assert_eq!(contribute(&mut env, ALICE, i128::MAX), Err(ContractError::Overflow));
    assert_eq!(env.campaign.total_raised, 10);
    env.campaign.status = Status::Cancelled;
    assert_eq!(contribute(&mut env, ALICE, 0), Err(ContractError::CampaignNotActive));
}

#[test]
fn the_contributor_list_is_bounded() {
    let mut env = open(params());
    for who in [ALICE, BOB, CAROL] {
        assert_eq!(contribute(&mut env, who, 10), Ok(()));
    }
    assert_eq!(contribute(&mut env, PLATFORM, 10), Err(ContractError::InvalidParameter));
    assert_eq!(contribute(&mut env, BOB, 10), Ok(()));
    assert_eq!(CrowdfundContract::contributors(&mut env).len(), 3);
}

#[test]
fn goals_are_announced_once() {
    let mut env = open(InitParams { bonus_goal: Some(1_200), ..params() });
    for milestone in [1_100, 1_300, 1_100] {
        assert_eq!(CrowdfundContract::add_stretch_goal(&mut env, milestone), Ok(()));
    }
    assert_eq!(contribute(&mut env, ALICE, 999), Ok(()));
    assert_eq!(count(&env, "goal_reached"), 0);
    assert_eq!(CrowdfundContract::current_milestone(&mut env), 1_100);
    assert_eq!(contribute(&mut env, ALICE, 201), Ok(()));
    assert_eq!(
        env.outbox,
        vec![
            INSTANCE_BUMP,
            Effect::Transfer { token: TOKEN, from: ALICE, to: CROWDFUND, amount: 201 },
            persistent_bump(DataKey::Contribution(ALICE)),
            publish(Event::GoalReached { total_raised: 1_200, goal: 1_000 }),
            publish(Event::BonusGoalReached { bonus_goal: 1_200 }),
            publish(Event::StretchGoalReached { milestone: 1_100, total_raised: 1_200 }),
            publish(Event::Contributed { backer: ALICE, amount: 201, total_raised: 1_200 }),
        ]
    );
    assert_eq!(CrowdfundContract::bonus_goal_reached(&mut env), true);
    assert_eq!(CrowdfundContract::current_milestone(&mut env), 1_300);
    assert_eq!(contribute(&mut env, BOB, 100), Ok(()));
    assert_eq!(count(&env, "goal_reached"), 0);
    assert_eq!(count(&env, "bonus_goal_reached"), 0);
    assert_eq!(count(&env, "stretch_goal_reached"), 1);
    assert_eq!(CrowdfundContract::current_milestone(&mut env), 0);
    assert_eq!(contribute(&mut env, BOB, 100), Ok(()));
    assert_eq!(count(&env, "stretch_goal_reached"), 0);
}

// Pledges

#[test]
fn a_pledge_moves_nothing_yet() {
    let mut env = open(params());
    next(&mut env, START);
    assert_eq!(CrowdfundContract::pledge(&mut env, ALICE, 300, false), Ok(()));
    assert_eq!(env.auths, vec![ALICE]);
    assert_eq!(
        env.outbox,
        vec![
            INSTANCE_BUMP,
            persistent_bump(DataKey::Pledge(ALICE)),
            persistent_bump(DataKey::Pledgers),
            publish(Event::Pledged { pledger: ALICE, amount: 300 }),
        ]
    );
    next(&mut env, START);
    assert_eq!(CrowdfundContract::pledge(&mut env, ALICE, 20, false), Ok(()));
    assert_eq!(env.outbox.len(), 3);
    assert_eq!(env.campaign.pledges.amount(ALICE), 320);
    assert_eq!(env.campaign.total_pledged, 320);
    assert_eq!(CrowdfundContract::total_raised(&mut env), 0);
}

#[test]
fn pledges_are_refused_for_cause() {
    let mut env = open(params());
    assert_eq!(
        CrowdfundContract::pledge(&mut env, ALICE, 0, false),
        Err(ContractError::BelowMinimum)
    );
    next(&mut env, DEADLINE + 1);
    assert_eq!(
        CrowdfundContract::pledge(&mut env, ALICE, 10, false),
        Err(ContractError::CampaignEnded)
    );
    next(&mut env, DEADLINE);
    assert_eq!(CrowdfundContract::pledge(&mut env, ALICE, 10, false), Ok(()));
    assert_eq!(CrowdfundContract::pledge(&mut env, BOB, 10, false), Ok(()));
    assert_eq!(
        CrowdfundContract::pledge(&mut env, CAROL, 10, false),
        Err(ContractError::InvalidParameter)
    );
    assert_eq!(CrowdfundContract::pledge(&mut env, BOB, 10, false), Ok(()));
}

// Payout

#[test]
fn a_payout_is_split_between_platform_and_creator() {
    let mut env = open(InitParams {
        platform_config: Some(PlatformConfig { address: PLATFORM, fee_bps: 250 }),
        ..params()
    });
    assert_eq!(contribute(&mut env, ALICE, 1_039), Ok(()));
    next(&mut env, START);
    assert_eq!(CrowdfundContract::set_nft_contract(&mut env, CREATOR, NFT), Ok(()));
    next(&mut env, DEADLINE + 1);
    assert_eq!(CrowdfundContract::withdraw(&mut env), Ok(()));
    assert_eq!(env.auths, vec![CREATOR]);
    // 1,039 * 250 / 10,000 is 25.975.
    assert_eq!(
        env.outbox,
        vec![
            INSTANCE_BUMP,
            Effect::Transfer { token: TOKEN, from: CROWDFUND, to: PLATFORM, amount: 25 },
            publish(Event::FeeTransferred { platform: PLATFORM, fee: 25 }),
            Effect::Transfer { token: TOKEN, from: CROWDFUND, to: CREATOR, amount: 1_014 },
            Effect::Mint { nft_contract: NFT, to: ALICE },
            publish(Event::NftBatchMinted { minted_count: 1 }),
            publish(Event::Withdrawn { creator: CREATOR, amount: 1_014, platform_fee: 25 }),
        ]
    );
    assert_eq!(CrowdfundContract::status(&mut env), Status::Successful);
    assert_eq!(CrowdfundContract::total_raised(&mut env), 0);
}

#[test]
fn a_payout_without_platform_goes_to_the_creator() {
    let mut env = open(params());
    assert_eq!(contribute(&mut env, ALICE, 1_000), Ok(()));
    next(&mut env, DEADLINE + 1);
    assert_eq!(CrowdfundContract::withdraw(&mut env), Ok(()));
    assert_eq!(
        env.outbox,
        vec![
            INSTANCE_BUMP,
            Effect::Transfer { token: TOKEN, from: CROWDFUND, to: CREATOR, amount: 1_000 },
            publish(Event::Withdrawn { creator: CREATOR, amount: 1_000, platform_fee: 0 }),
        ]
    );
}

#[test]
fn a_fee_that_rounds_to_nothing_leaves_all_to_the_creator() {
    for fee_bps in [0, 1, 9] {
        let mut env = open(InitParams {
            platform_config: Some(PlatformConfig { address: PLATFORM, fee_bps }),
            ..params()
        });
        assert_eq!(contribute(&mut env, ALICE, 1_000), Ok(()));
        next(&mut env, DEADLINE + 1);
        // 1,000 * 9 / 10,000 is 0.9.
        assert_eq!(CrowdfundContract::withdraw(&mut env), Ok(()));
        assert_eq!(
            env.outbox,
            vec![
                INSTANCE_BUMP,
                Effect::Transfer { token: TOKEN, from: CROWDFUND, to: CREATOR, amount: 1_000 },
                publish(Event::Withdrawn { creator: CREATOR, amount: 1_000, platform_fee: 0 }),
            ]
        );
        assert_eq!(CrowdfundContract::total_raised(&mut env), 0);
        assert_eq!(CrowdfundContract::status(&mut env), Status::Successful);
    }
}

#[test]
fn a_payout_waits_for_deadline_and_goal() {
    let mut env = open(params());
    assert_eq!(contribute(&mut env, ALICE, 999), Ok(()));
    next(&mut env, DEADLINE);
    assert_eq!(CrowdfundContract::withdraw(&mut env), Err(ContractError::CampaignStillActive));
    assert_eq!(env.auths, vec![CREATOR]);
    next(&mut env, DEADLINE + 1);
    assert_eq!(CrowdfundContract::withdraw(&mut env), Err(ContractError::GoalNotReached));
}

#[test]
fn after_a_payout_nothing_moves_any_more() {
    let mut env = open(params());
    assert_eq!(contribute(&mut env, ALICE, 1_000), Ok(()));
    next(&mut env, DEADLINE + 1);
    assert_eq!(CrowdfundContract::withdraw(&mut env), Ok(()));
    next(&mut env, DEADLINE + 2);
    let ended = Err(ContractError::CampaignNotActive);
    assert_eq!(CrowdfundContract::withdraw(&mut env), ended);
    assert_eq!(CrowdfundContract::refund(&mut env, &vec![true]), ended);
    assert_eq!(CrowdfundContract::refund_single(&mut env, ALICE), ended);
    assert_eq!(CrowdfundContract::cancel(&mut env, &vec![true]), ended);
    assert_eq!(CrowdfundContract::collect_pledges(&mut env, &vec![]), ended);
    assert_eq!(CrowdfundContract::contribute(&mut env, BOB, 10, true, 7), ended);
    assert_eq!(
        CrowdfundContract::update_metadata(&mut env, CREATOR, None, None, None),
        ended
    );
    assert!(env.outbox.is_empty());
}

// Refunds

#[test]
fn a_single_refund_gives_back_what_was_put_in_once() {
    let mut env = open(params());
    assert_eq!(contribute(&mut env, ALICE, 300), Ok(()));
    assert_eq!(contribute(&mut env, BOB, 200), Ok(()));
    next(&mut env, DEADLINE);
    assert_eq!(
        CrowdfundContract::refund_single(&mut env, ALICE),
        Err(ContractError::CampaignStillActive)
    );
    next(&mut env, DEADLINE + 1);
    assert_eq!(CrowdfundContract::refund_single(&mut env, ALICE), Ok(()));
    assert_eq!(env.auths, vec![ALICE]);
    assert_eq!(
        env.outbox,
        vec![
            INSTANCE_BUMP,
            persistent_bump(DataKey::Contribution(ALICE)),
            Effect::Transfer { token: TOKEN, from: CROWDFUND, to: ALICE, amount: 300 },
            publish(Event::Refunded { backer: ALICE, amount: 300 }),
        ]
    );
    assert_eq!(CrowdfundContract::total_raised(&mut env), 200);
    assert_eq!(CrowdfundContract::contribution(&mut env, ALICE), 0);
    assert_eq!(CrowdfundContract::contribution(&mut env, BOB), 200);
    assert_eq!(
        CrowdfundContract::refund_single(&mut env, ALICE),
        Err(ContractError::NothingToRefund)
    );
    assert_eq!(
        CrowdfundContract::refund_single(&mut env, CAROL),
        Err(ContractError::NothingToRefund)
    );
    assert_eq!(CrowdfundContract::refund_single(&mut env, BOB), Ok(()));
    assert_eq!(CrowdfundContract::total_raised(&mut env), 0);
}

#[test]
fn a_single_refund_needs_a_missed_goal() {
    let mut env = open(params());
    assert_eq!(contribute(&mut env, ALICE, 1_000), Ok(()));
    next(&mut env, DEADLINE + 1);
    assert_eq!(
        CrowdfundContract::refund_single(&mut env, ALICE),
        Err(ContractError::GoalReached)
    );
}

// Metadata and roadmap

#[test]
fn metadata_reads_back() {
    let mut env = open(params());
    next(&mut env, START);
    assert_eq!(
        CrowdfundContract::update_metadata(
            &mut env,
            CREATOR,
            Some(b"Bridge".to_vec()),
            None,
            Some(b"@bridge".to_vec()),
        ),
        Ok(())
    );
    assert_eq!(env.auths, vec![CREATOR]);
    assert_eq!(
        env.outbox,
        vec![
            INSTANCE_BUMP,
            publish(Event::MetadataUpdated {
                creator: CREATOR,
                title_updated: true,
                description_updated: false,
                socials_updated: true,
            }),
        ]
    );
    assert_eq!(CrowdfundContract::title(&mut env), b"Bridge".to_vec());
    assert_eq!(CrowdfundContract::description(&mut env), b"".to_vec());
    assert_eq!(CrowdfundContract::socials(&mut env), b"@bridge".to_vec());
    assert_eq!(
        CrowdfundContract::update_metadata(
            &mut env,
            CREATOR,
            None,
            Some(b"Across the river".to_vec()),
            None,
        ),
        Ok(())
    );
    assert_eq!(CrowdfundContract::title(&mut env), b"Bridge".to_vec());
    assert_eq!(CrowdfundContract::description(&mut env), b"Across the river".to_vec());
}

#[test]
fn metadata_is_refused_for_cause() {
    let mut env = open(params());
    let refused = Err(ContractError::InvalidParameter);
    assert_eq!(
        CrowdfundContract::update_metadata(&mut env, ADMIN, None, None, None),
        Err(ContractError::Unauthorized)
    );
    assert!(env.auths.is_empty());
    assert_eq!(
        CrowdfundContract::update_metadata(&mut env, CREATOR, Some(vec![b'x'; 11]), None, None),
        refused
    );
    assert_eq!(
        CrowdfundContract::update_metadata(&mut env, CREATOR, None, Some(vec![b'x'; 31]), None),
        refused
    );
    assert_eq!(
        CrowdfundContract::update_metadata(&mut env, CREATOR, None, None, Some(vec![b'x'; 16])),
        refused
    );
    assert_eq!(
        CrowdfundContract::update_metadata(&mut env, CREATOR, None, Some(vec![b'x'; 30]), None),
        Ok(())
    );
    // Together with the 30 bytes that are stored these would be 41.
    assert_eq!(
        CrowdfundContract::update_metadata(
            &mut env,
            CREATOR,
            Some(vec![b'x'; 5]),
            None,
            Some(vec![b'x'; 6]),
        ),
        refused
    );
    assert_eq!(
        CrowdfundContract::update_metadata(
            &mut env,
            CREATOR,
            Some(vec![b'x'; 5]),
            None,
            Some(vec![b'x'; 5]),
        ),
        Ok(())
    );
}

#[test]
fn the_roadmap_grows_within_bounds() {
    let mut env = open(params());
    let refused = Err(ContractError::InvalidParameter);
    next(&mut env, START);
    assert_eq!(
        CrowdfundContract::add_roadmap_item(&mut env, START, b"too late".to_vec()),
        refused
    );
    assert_eq!(CrowdfundContract::add_roadmap_item(&mut env, START + 1, vec![]), refused);
    assert_eq!(
        CrowdfundContract::add_roadmap_item(&mut env, START + 1, vec![b'x'; 21]),
        refused
    );
    assert!(env.outbox.is_empty());
    next(&mut env, START);
    assert_eq!(
        CrowdfundContract::add_roadmap_item(&mut env, START + 1, b"piles".to_vec()),
        Ok(())
    );
    assert_eq!(env.auths, vec![CREATOR]);
    assert_eq!(
        env.outbox,
        vec![
            INSTANCE_BUMP,
            publish(Event::RoadmapItemAdded { date: START + 1, description: b"piles".to_vec() }),
        ]
    );
    // Accepted at 20 bytes, but too long for a roadmap that is to grow further.
    assert_eq!(
        CrowdfundContract::add_roadmap_item(&mut env, START + 2, vec![b'x'; 20]),
        Ok(())
    );
    assert_eq!(
        CrowdfundContract::roadmap(&mut env),
        vec![
            RoadmapItem { date: START + 1, description: b"piles".to_vec() },
            RoadmapItem { date: START + 2, description: vec![b'x'; 20] },
        ]
    );
    assert_eq!(
        CrowdfundContract::add_roadmap_item(&mut env, START + 3, b"deck".to_vec()),
        refused
    );
    env.limits.max_roadmap_items = 3;
    assert_eq!(
        CrowdfundContract::add_roadmap_item(&mut env, START + 3, b"deck".to_vec()),
        refused
    );
    env.limits.max_roadmap_description = 20;
    assert_eq!(
        CrowdfundContract::add_roadmap_item(&mut env, START + 3, b"deck".to_vec()),
        Ok(())
    );
}

#[test]
fn stretch_goals_lie_beyond_the_goal_and_are_bounded() {
    let mut env = open(params());
    let refused = Err(ContractError::InvalidParameter);
    assert_eq!(CrowdfundContract::current_milestone(&mut env), 0);
    next(&mut env, START);
    assert_eq!(CrowdfundContract::add_stretch_goal(&mut env, 1_000), refused);
    assert_eq!(env.auths, vec![CREATOR]);
    for milestone in [1_001, 3_000, 2_000] {
        assert_eq!(CrowdfundContract::add_stretch_goal(&mut env, milestone), Ok(()));
    }
    assert_eq!(CrowdfundContract::add_stretch_goal(&mut env, 4_000), refused);
    assert_eq!(env.campaign.stretch_goals, vec![1_001, 3_000, 2_000]);
}

// NFT contract, upgrade

#[test]
fn the_creator_names_the_nft_contract() {
    let mut env = open(params());
    next(&mut env, START);
    assert_eq!(
        CrowdfundContract::set_nft_contract(&mut env, ADMIN, NFT),
        Err(ContractError::Unauthorized)
    );
    assert!(env.auths.is_empty());
    assert_eq!(CrowdfundContract::set_nft_contract(&mut env, CREATOR, NFT), Ok(()));
    assert_eq!(env.auths, vec![CREATOR]);
    assert_eq!(CrowdfundContract::nft_contract(&mut env), Some(NFT));
}

#[test]
fn an_upgrade_can_be_undone() {
    let mut env = open(params());
    let current = WasmHash { hi: 1, lo: 2 };
    let new = WasmHash { hi: 3, lo: 4 };
    next(&mut env, START);
    CrowdfundContract::upgrade(&mut env, new, current);
    assert_eq!(env.auths, vec![ADMIN]);
    assert_eq!(
        env.outbox,
        vec![
            INSTANCE_BUMP,
            Effect::UpdateWasm { hash: new },
            publish(Event::Upgrade {
                admin: ADMIN,
                current_wasm_hash: current,
                new_wasm_hash: new,
            }),
        ]
    );
    next(&mut env, START);
    assert_eq!(CrowdfundContract::rollback_upgrade(&mut env), current);
    assert_eq!(env.auths, vec![ADMIN]);
    assert_eq!(
        env.outbox,
        vec![
            INSTANCE_BUMP,
            Effect::UpdateWasm { hash: current },
            publish(Event::Rollback { admin: ADMIN, restored_hash: current }),
        ]
    );
}

// Figures, rent

#[test]
fn figures_are_exact() {
    let mut env = open(InitParams { bonus_goal: Some(1_500), ..params() });
    assert_eq!(
        CrowdfundContract::get_stats(&mut env),
        CampaignStats {
            total_raised: 0,
            goal: 1_000,
            progress_bps: 0,
            contributor_count: 0,
            average_contribution: 0,
            largest_contribution: 0,
        }
    );
    assert_eq!(contribute(&mut env, ALICE, 200), Ok(()));
    assert_eq!(contribute(&mut env, BOB, 433), Ok(()));
    assert_eq!(contribute(&mut env, CAROL, 35), Ok(()));
    assert_eq!(
        CrowdfundContract::get_stats(&mut env),
        CampaignStats {
            total_raised: 668,
            goal: 1_000,
            progress_bps: 6_680,
            contributor_count: 3,
            average_contribution: 222,
            largest_contribution: 433,
        }
    );
    // 668 * 10,000 / 1,500 is 4,453.3.
    assert_eq!(CrowdfundContract::bonus_goal_progress_bps(&mut env), 4_453);
    assert_eq!(contribute(&mut env, CAROL, 2_000), Ok(()));
    assert_eq!(CrowdfundContract::get_stats(&mut env).progress_bps, 10_000);
    assert_eq!(CrowdfundContract::bonus_goal_progress_bps(&mut env), 10_000);
}

#[test]
fn there_is_no_progress_towards_a_bonus_goal_that_is_not_set() {
    let mut env = open(params());
    assert_eq!(contribute(&mut env, ALICE, 200), Ok(()));
    assert_eq!(CrowdfundContract::bonus_goal_progress_bps(&mut env), 0);
    assert_eq!(CrowdfundContract::bonus_goal_reached(&mut env), false);
    assert_eq!(CrowdfundContract::bonus_goal_description(&mut env), None);
}

#[test]
fn keeping_alive_extends_what_is_stored() {
    let mut env = open(params());
    next(&mut env, START);
    assert_eq!(CrowdfundContract::keep_alive(&mut env), Ok(()));
    assert_eq!(env.outbox, vec![INSTANCE_BUMP, publish(Event::KeepAlive)]);
    assert!(env.auths.is_empty());
    assert_eq!(contribute(&mut env, ALICE, 200), Ok(()));
    assert_eq!(CrowdfundContract::pledge(&mut env, BOB, 200, false), Ok(()));
    next(&mut env, START);
    assert_eq!(CrowdfundContract::keep_alive(&mut env), Ok(()));
    assert_eq!(
        env.outbox,
        vec![
            INSTANCE_BUMP,
            persistent_bump(DataKey::Contributors),
            persistent_bump(DataKey::Pledgers),
            publish(Event::KeepAlive),
        ]
    );
}

#[test]
fn errors_have_their_numbers() {
    assert_eq!(ContractError::AlreadyInitialized.code(), 1);
    assert_eq!(ContractError::NothingToRefund.code(), 7);
    assert_eq!(ContractError::InvalidParameter.code(), 18);
    assert_eq!(ContractError::MilestoneModeActive.code(), 26);
    assert_eq!(ContractError::InvalidTokenAddress.code(), 30);
}
