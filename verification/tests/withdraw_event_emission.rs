//! Events: what is published, under which topic; and the minting of reward NFTs.

use crowdfund::withdraw_event_emission::{
    emit_cancelled, emit_contributed, emit_fee_transferred, emit_goal_reached,
    emit_kyc_gate_configured, emit_kyc_gate_toggled, emit_milestone_refund_claimed,
    emit_milestone_released, emit_milestone_resolved, emit_milestone_schedule_completed,
    emit_milestone_vote_cast, emit_milestones_proposed, emit_nft_batch_minted, emit_refunded,
    emit_stretch_goal_reached, emit_transfer_skipped, emit_withdrawn, mint_nfts_in_batch,
};
use crowdfund::{
    Address, BatchKind, CrowdfundContract, Effect, Entry, Env, Event, InitParams, KycGateConfig,
    StateLimits, MAX_NFT_MINT_BATCH,
};

const WHO: Address = Address { contract: false, hi: 7, lo: 1 };
const NFT: Address = Address { contract: true, hi: 7, lo: 2 };

fn env() -> Env {
    let limits = StateLimits {
        max_contributors: 128,
        max_pledgers: 128,
        max_roadmap_items: 32,
        max_stretch_goals: 32,
        max_string_len: 256,
        max_roadmap_description: 280,
        max_title: 128,
        max_description: 2_048,
        max_social_links: 512,
        max_metadata_total: 2_304,
        max_bonus_goal_description: 280,
        min_deadline_offset: 60,
    };
    let params = InitParams {
        admin: WHO,
        creator: WHO,
        token: NFT,
        expected_token_decimals: 7,
        goal: 1_000,
        deadline: 10_000,
        min_contribution: 1,
        platform_config: None,
        bonus_goal: None,
        bonus_goal_description: None,
    };
    let contract = Address { contract: true, hi: 7, lo: 3 };
    match CrowdfundContract::initialize(&None, limits, 0, contract, true, params) {
        Ok(mut env) => {
            env.outbox.clear();
            env
        }
        Err(error) => panic!("not initialized: {:?}", error),
    }
}

/// The one event in the outbox.
fn published(env: &Env) -> Event<Vec<u8>> {
    assert_eq!(env.outbox.len(), 1);
    match &env.outbox[0] {
        Effect::Publish { event } => event.clone(),
        other => panic!("not an event: {:?}", other),
    }
}

#[test]
fn emit_fee_transferred_accepts_positive() {
    let mut env = env();
    emit_fee_transferred(&mut env, WHO, 1);
    assert_eq!(published(&env), Event::FeeTransferred { platform: WHO, fee: 1 });
}

#[test]
fn emit_nft_batch_minted_accepts_positive() {
    let mut env = env();
    emit_nft_batch_minted(&mut env, 1);
    assert_eq!(published(&env), Event::NftBatchMinted { minted_count: 1 });
}

#[test]
fn emit_withdrawn_accepts_valid_args() {
    let mut env = env();
    emit_withdrawn(&mut env, WHO, 1_000, 0);
    assert_eq!(
        published(&env),
        Event::Withdrawn { creator: WHO, amount: 1_000, platform_fee: 0 }
    );
}

#[test]
fn emit_withdrawn_accepts_nonzero_fee() {
    let mut env = env();
    emit_withdrawn(&mut env, WHO, 950, 50);
    assert_eq!(
        published(&env),
        Event::Withdrawn { creator: WHO, amount: 950, platform_fee: 50 }
    );
}

#[test]
fn emit_milestone_released_accepts_valid_args() {
    let mut env = env();
    emit_milestone_released(&mut env, 0, WHO, 1_000, 50);
    assert_eq!(
        published(&env),
        Event::MilestoneReleased { milestone_id: 0, creator: WHO, payout: 1_000, platform_fee: 50 }
    );
}

#[test]
fn emit_milestone_refund_claimed_accepts_positive_amount() {
    let mut env = env();
    emit_milestone_refund_claimed(&mut env, 0, WHO, 500);
    assert_eq!(
        published(&env),
        Event::MilestoneRefundClaimed { milestone_id: 0, contributor: WHO, amount: 500 }
    );
}

#[test]
fn events_go_out_under_their_topics() {
    let mut env = env();
    emit_contributed(&mut env, WHO, 5, 15);
    emit_goal_reached(&mut env, 15, 10);
    emit_refunded(&mut env, WHO, 5);
    emit_cancelled(&mut env);
    emit_transfer_skipped(&mut env, WHO, 5, BatchKind::Cancel);
    emit_stretch_goal_reached(&mut env, 12, 15);
    emit_milestones_proposed(&mut env, WHO, 2, 15);
    emit_milestone_vote_cast(&mut env, 1, WHO, true, 5, 5, 0);
    emit_milestone_resolved(&mut env, 1, true, 9, 1);
    emit_milestone_schedule_completed(&mut env, 10, 5);
    let config = KycGateConfig {
        verifier: NFT,
        threshold: 100,
        enabled: true,
        jurisdiction: b"US".to_vec(),
    };
    emit_kyc_gate_configured(&mut env, &config);
    emit_kyc_gate_toggled(&mut env, false);
    let topics: Vec<&str> = env
        .outbox
        .iter()
        .map(|effect| match effect {
            Effect::Publish { event } => event.action(),
            other => panic!("not an event: {:?}", other),
        })
        .collect();
    assert_eq!(
        topics,
        vec![
            "contributed",
            "goal_reached",
            "refunded",
            "cancelled",
            "transfer_skipped",
            "stretch_goal_reached",
            "milestones_proposed",
            "milestone_vote_cast",
            "milestone_resolved",
            "milestone_schedule_completed",
            "kyc_gate_configured",
            "kyc_gate_toggled",
        ]
    );
    assert_eq!(
        env.outbox[10],
        Effect::Publish {
            event: Event::KycGateConfigured {
                verifier: NFT,
                threshold: 100,
                jurisdiction: b"US".to_vec(),
            },
        }
    );
}

#[test]
fn rewards_go_to_backers_with_something_to_their_name() {
    let mut env = env();
    for n in 0..4u128 {
        let who = Address { contract: false, hi: 8, lo: n };
        env.campaign.contributions.entries.push(Entry { who, amount: (n % 2) as i128 });
    }
    assert_eq!(mint_nfts_in_batch(&mut env, None), 0);
    assert!(env.outbox.is_empty());
    assert_eq!(mint_nfts_in_batch(&mut env, Some(NFT)), 2);
    assert_eq!(
        env.outbox,
        vec![
            Effect::Mint { nft_contract: NFT, to: Address { contract: false, hi: 8, lo: 1 } },
            Effect::Mint { nft_contract: NFT, to: Address { contract: false, hi: 8, lo: 3 } },
            Effect::Publish { event: Event::NftBatchMinted { minted_count: 2 } },
        ]
    );
}

#[test]
fn rewards_are_capped() {
    let mut env = env();
    for n in 0..60u128 {
        let who = Address { contract: false, hi: 8, lo: n };
        env.campaign.contributions.entries.push(Entry { who, amount: 1 });
    }
    assert_eq!(mint_nfts_in_batch(&mut env, Some(NFT)), 50);
    assert_eq!(MAX_NFT_MINT_BATCH, 50);
    assert_eq!(env.outbox.len(), 51);
    assert_eq!(
        env.outbox[49],
        Effect::Mint { nft_contract: NFT, to: Address { contract: false, hi: 8, lo: 49 } }
    );
}

#[test]
fn no_rewards_without_backers() {
    let mut env = env();
    assert_eq!(mint_nfts_in_batch(&mut env, Some(NFT)), 0);
    assert!(env.outbox.is_empty());
}
