//! Batches over a token that refuses to serve blocklisted addresses: a batch passes over
//! such a participant, leaves the participant's line to be tried again, and settles the
//! campaign only once nobody was passed over.

use crowdfund::{
    Address, BatchKind, BatchStep, ContractError, CrowdfundContract, Effect, Env, Event,
    InitParams, StateLimits, Status,
};
use std::collections::{HashMap, HashSet};

/// A token with a compliance blocklist.
struct BlocklistToken {
    balances: HashMap<Address, i128>,
    frozen: HashSet<Address>,
}

impl BlocklistToken {
    fn mint(&mut self, to: Address, amount: i128) {
        *self.balances.entry(to).or_insert(0) += amount;
    }

    fn set_frozen(&mut self, who: Address, frozen: bool) {
        if frozen {
            self.frozen.insert(who);
        } else {
            self.frozen.remove(&who);
        }
    }

    fn balance(&self, id: Address) -> i128 {
        *self.balances.get(&id).unwrap_or(&0)
    }

    /// Moves tokens and returns whether it worked.
    fn try_transfer(&mut self, from: Address, to: Address, amount: i128) -> bool {
        if self.frozen.contains(&from) || self.frozen.contains(&to) || self.balance(from) < amount {
            return false;
        }
        *self.balances.entry(from).or_insert(0) -= amount;
        *self.balances.entry(to).or_insert(0) += amount;
        true
    }
}

/// A ledger with one campaign and its token.
struct World {
    env: Env,
    token: BlocklistToken,
}

const ALICE: Address = Address { contract: false, hi: 0, lo: 1 };
const BOB: Address = Address { contract: false, hi: 0, lo: 2 };
const CAROL: Address = Address { contract: false, hi: 0, lo: 3 };
const CREATOR: Address = Address { contract: false, hi: 0, lo: 9 };
const TOKEN: Address = Address { contract: true, hi: 0, lo: 20 };
const CROWDFUND: Address = Address { contract: true, hi: 0, lo: 21 };

const START: u64 = 1_000;
const DEADLINE: u64 = START + 3_600;

fn limits() -> StateLimits {
    StateLimits {
        max_contributors: 128,
        max_pledgers: 128,
        max_roadmap_items: 32,
        max_stretch_goals: 32,
        max_string_len: 256,
        max_roadmap_description: 280,
        max_title: 128,
        max_description: 2_048,
        max_social_links: 512,
        max_metadata_total: 2_304,
        max_bonus_goal_description: 280,
        min_deadline_offset: 60,
    }
}

fn started(goal: i128) -> Env {
    let params = InitParams {
        admin: CREATOR,
        creator: CREATOR,
        token: TOKEN,
        expected_token_decimals: 7,
        goal,
        deadline: DEADLINE,
        min_contribution: 1,
        platform_config: None,
        bonus_goal: None,
        bonus_goal_description: None,
    };
    match CrowdfundContract::initialize(&None, limits(), START, CROWDFUND, true, params) {
        Ok(env) => env,
        Err(error) => panic!("not initialized: {:?}", error),
    }
}

fn setup(goal: i128) -> World {
    World {
        env: started(goal),
        token: BlocklistToken { balances: HashMap::new(), frozen: HashSet::new() },
    }
}

impl World {
    /// Starts a new invocation.
    fn invoke(&mut self) {
        self.env.outbox.clear();
        self.env.auths.clear();
    }

    fn set_timestamp(&mut self, now: u64) {
        self.env.now = now;
    }

    fn pledge(&mut self, who: Address, amount: i128) {
        self.invoke();
        assert_eq!(CrowdfundContract::pledge(&mut self.env, who, amount, false), Ok(()));
        assert_eq!(self.env.auths, vec![who]);
    }

    fn contribute(&mut self, who: Address, amount: i128) {
        self.invoke();
        assert_eq!(CrowdfundContract::contribute(&mut self.env, who, amount, false, 7), Ok(()));
        for effect in self.env.outbox.clone() {
            if let Effect::Transfer { token, from, to, amount } = effect {
                assert_eq!(token, TOKEN);
                assert!(self.token.try_transfer(from, to, amount));
            }
        }
    }

    /// Runs a batch step by step against the token.
    fn run(&mut self, kind: BatchKind) {
        self.invoke();
        let opened = match kind {
            BatchKind::CollectPledges => CrowdfundContract::begin_collect_pledges(&mut self.env),
            BatchKind::Refund => CrowdfundContract::begin_refund(&mut self.env),
            BatchKind::Cancel => CrowdfundContract::begin_cancel(&mut self.env),
        };
        let mut batch = match opened {
            Ok(batch) => batch,
            Err(error) => panic!("refused: {:?}", error),
        };
        loop {
            match batch.advance(&mut self.env) {
                BatchStep::Sent => match self.env.outbox.last() {
                    Some(Effect::TryTransfer { token, from, to, amount }) => {
                        assert_eq!(*token, TOKEN);
                        let delivered = self.token.try_transfer(*from, *to, *amount);
                        batch.reply(&mut self.env, delivered);
                    }
                    other => panic!("no transfer is under way: {:?}", other),
                },
                BatchStep::NothingOwed => {}
                BatchStep::Finished => break,
            }
        }
        batch.finish(&mut self.env);
    }

    /// Counts the events of the last invocation with the given second topic.
    fn count_events(&self, action: &str) -> usize {
        self.env
            .outbox
            .iter()
            .filter(|effect| match effect {
                Effect::Publish { event } => event.action() == action,
                _ => false,
            })
            .count()
    }

    fn total_raised(&self) -> i128 {
        self.env.campaign.total_raised
    }

    fn total_pledged(&self) -> i128 {
        self.env.campaign.total_pledged
    }

    fn pledge_of(&self, who: Address) -> i128 {
        self.env.campaign.pledges.amount(who)
    }

    fn contribution_of(&self, who: Address) -> i128 {
        self.env.campaign.contributions.amount(who)
    }
}

#[test]
fn test_collect_pledges_skips_frozen_pledger() {
    let mut world = setup(900);
    for who in [ALICE, BOB, CAROL] {
        world.token.mint(who, 1_000);
        world.pledge(who, 300);
    }

    world.token.set_frozen(BOB, true);
    world.set_timestamp(DEADLINE + 1);
    world.run(BatchKind::CollectPledges);

    assert_eq!(world.count_events("transfer_skipped"), 1);
    assert_eq!(world.total_raised(), 600);
    assert_eq!(world.total_pledged(), 300);
    assert_eq!(world.pledge_of(ALICE), 0);
    assert_eq!(world.pledge_of(CAROL), 0);
    assert_eq!(world.pledge_of(BOB), 300);
    assert_eq!(world.token.balance(CROWDFUND), 600);
    assert_eq!(world.token.balance(BOB), 1_000);
}

#[test]
fn test_collect_pledges_retryable_after_unfreeze() {
    let mut world = setup(900);
    for who in [ALICE, BOB, CAROL] {
        world.token.mint(who, 1_000);
        world.pledge(who, 300);
    }

    world.token.set_frozen(BOB, true);
    world.set_timestamp(DEADLINE + 1);
    world.run(BatchKind::CollectPledges);
    assert_eq!(world.total_pledged(), 300);

    world.token.set_frozen(BOB, false);
    world.run(BatchKind::CollectPledges);

    assert_eq!(world.total_raised(), 900);
    assert_eq!(world.total_pledged(), 0);
    assert_eq!(world.pledge_of(BOB), 0);
    assert_eq!(world.token.balance(CROWDFUND), 900);
}

#[test]
fn test_refund_skips_frozen_contributor_and_stays_active() {
    let mut world = setup(1_000);
    for who in [ALICE, BOB, CAROL] {
        world.token.mint(who, 100);
        world.contribute(who, 100);
    }

    world.token.set_frozen(BOB, true);
    world.set_timestamp(DEADLINE + 1);
    world.run(BatchKind::Refund);

    assert_eq!(world.count_events("transfer_skipped"), 1);
    assert_eq!(CrowdfundContract::status(&mut world.env), Status::Active);
    assert_eq!(world.total_raised(), 100);
    assert_eq!(world.contribution_of(ALICE), 0);
    assert_eq!(world.contribution_of(CAROL), 0);
    assert_eq!(world.contribution_of(BOB), 100);
    assert_eq!(world.token.balance(CROWDFUND), 100);

    world.token.set_frozen(BOB, false);
    world.run(BatchKind::Refund);

    assert_eq!(CrowdfundContract::status(&mut world.env), Status::Refunded);
    assert_eq!(world.total_raised(), 0);
    assert_eq!(world.token.balance(CROWDFUND), 0);
}

#[test]
fn test_cancel_skips_frozen_contributor_and_stays_active() {
    let mut world = setup(1_000);
    for who in [ALICE, BOB, CAROL] {
        world.token.mint(who, 100);
        world.contribute(who, 100);
    }

    world.token.set_frozen(BOB, true);
    world.run(BatchKind::Cancel);

    assert_eq!(world.count_events("cancelled"), 0);
    assert_eq!(world.count_events("transfer_skipped"), 1);
    assert_eq!(CrowdfundContract::status(&mut world.env), Status::Active);
    assert_eq!(world.total_raised(), 100);
    assert_eq!(world.contribution_of(BOB), 100);

    world.token.set_frozen(BOB, false);
    world.run(BatchKind::Cancel);

    assert_eq!(world.count_events("cancelled"), 1);
    assert_eq!(CrowdfundContract::status(&mut world.env), Status::Cancelled);
    assert_eq!(world.total_raised(), 0);
}

#[test]
fn a_line_is_cleared_while_its_transfer_is_under_way() {
    let mut world = setup(900);
    world.token.mint(ALICE, 1_000);
    world.pledge(ALICE, 900);
    world.set_timestamp(DEADLINE + 1);
    world.invoke();
    let mut batch = match CrowdfundContract::begin_collect_pledges(&mut world.env) {
        Ok(batch) => batch,
        Err(error) => panic!("refused: {:?}", error),
    };
    assert_eq!(batch.advance(&mut world.env), BatchStep::Sent);
    assert_eq!(world.pledge_of(ALICE), 0);
    assert_eq!(batch.outstanding, 900);
    batch.reply(&mut world.env, false);
    assert_eq!(world.pledge_of(ALICE), 900);
    assert_eq!(
        world.env.outbox.last(),
        Some(&Effect::Publish {
            event: Event::TransferSkipped {
                participant: ALICE,
                amount: 900,
                context: BatchKind::CollectPledges,
            },
        })
    );
    assert_eq!(BatchKind::CollectPledges.context(), "collect_pledges");
    assert_eq!(batch.advance(&mut world.env), BatchStep::Finished);
    batch.finish(&mut world.env);
    assert_eq!(world.total_raised(), 0);
    assert_eq!(world.total_pledged(), 900);
}

#[test]
fn a_batch_in_one_go_does_what_its_steps_do() {
    let mut steps = setup(900);
    let mut at_once = setup(900);
    for world in [&mut steps, &mut at_once] {
        for who in [ALICE, BOB, CAROL] {
            world.token.mint(who, 1_000);
            world.pledge(who, 300);
        }
        world.token.set_frozen(BOB, true);
        world.set_timestamp(DEADLINE + 1);
    }
    steps.run(BatchKind::CollectPledges);
    at_once.invoke();
    let delivered = vec![true, false, true];
    assert_eq!(CrowdfundContract::collect_pledges(&mut at_once.env, &delivered), Ok(()));
    assert_eq!(steps.env.outbox, at_once.env.outbox);
    for who in [ALICE, BOB, CAROL] {
        assert_eq!(steps.pledge_of(who), at_once.pledge_of(who));
    }
    assert_eq!(at_once.total_raised(), 600);
    assert_eq!(at_once.total_pledged(), 300);
    assert_eq!(
        at_once.env.outbox.last(),
        Some(&Effect::Publish { event: Event::PledgesCollected { collected_total: 600 } })
    );
}

#[test]
fn a_line_with_nothing_on_it_is_passed_over() {
    let mut world = setup(1_000);
    for who in [ALICE, BOB] {
        world.token.mint(who, 100);
        world.contribute(who, 100);
    }
    world.set_timestamp(DEADLINE + 1);
    world.invoke();
    assert_eq!(CrowdfundContract::refund_single(&mut world.env, ALICE), Ok(()));
    world.invoke();
    // The outcome noted for a line that owes nothing plays no part.
    assert_eq!(CrowdfundContract::refund(&mut world.env, &vec![false, true]), Ok(()));
    assert_eq!(CrowdfundContract::status(&mut world.env), Status::Refunded);
    assert_eq!(world.total_raised(), 0);
    let tried = world
        .env
        .outbox
        .iter()
        .filter(|effect| matches!(effect, Effect::TryTransfer { .. }))
        .count();
    assert_eq!(tried, 1);
}

#[test]
fn batches_are_refused_out_of_season() {
    let mut world = setup(1_000);
    world.token.mint(ALICE, 2_000);
    world.contribute(ALICE, 500);
    world.pledge(BOB, 499);
    world.invoke();
    assert_eq!(
        CrowdfundContract::collect_pledges(&mut world.env, &vec![]),
        Err(ContractError::CampaignStillActive)
    );
    assert_eq!(
        CrowdfundContract::refund(&mut world.env, &vec![]),
        Err(ContractError::CampaignStillActive)
    );
    world.set_timestamp(DEADLINE);
    assert_eq!(
        CrowdfundContract::refund(&mut world.env, &vec![]),
        Err(ContractError::CampaignStillActive)
    );
    world.set_timestamp(DEADLINE + 1);
    assert_eq!(
        CrowdfundContract::collect_pledges(&mut world.env, &vec![]),
        Err(ContractError::GoalNotReached)
    );
    assert!(world.env.outbox.is_empty());
    assert!(world.env.auths.is_empty());
    assert_eq!(CrowdfundContract::cancel(&mut world.env, &vec![true]), Ok(()));
    assert_eq!(world.env.auths, vec![CREATOR]);
    assert_eq!(
        CrowdfundContract::cancel(&mut world.env, &vec![true]),
        Err(ContractError::CampaignNotActive)
    );
    assert_eq!(
        CrowdfundContract::refund(&mut world.env, &vec![true]),
        Err(ContractError::CampaignNotActive)
    );
    assert_eq!(
        CrowdfundContract::collect_pledges(&mut world.env, &vec![true]),
        Err(ContractError::CampaignNotActive)
    );
}

#[test]
fn a_refund_needs_a_missed_goal() {
    let mut world = setup(1_000);
    world.token.mint(ALICE, 1_000);
    world.contribute(ALICE, 1_000);
    world.set_timestamp(DEADLINE + 1);
    world.invoke();
    assert_eq!(
        CrowdfundContract::refund(&mut world.env, &vec![true]),
        Err(ContractError::GoalReached)
    );
}
