//! The pluggable KYC/AML gate: the ungated path, the gated path, who may configure it,
//! and the on/off switch.

use crowdfund::kyc_gate::verifier_to_ask;
use crowdfund::{
    Address, ContractError, CrowdfundContract, Effect, Env, Event, InitParams, KycGateConfig,
    StateLimits,
};
use std::collections::HashSet;

/// An attestation contract.
struct Verifier {
    verified: HashSet<Address>,
}

impl Verifier {
    fn is_verified(&self, who: Address) -> bool {
        self.verified.contains(&who)
    }

    fn set_verified(&mut self, who: Address, verified: bool) {
        if verified {
            self.verified.insert(who);
        } else {
            self.verified.remove(&who);
        }
    }
}

/// A ledger with one campaign and one verifier.
struct World {
    env: Env,
    verifier: Verifier,
}

const ADMIN: Address = Address { contract: false, hi: 1, lo: 1 };
const CREATOR: Address = Address { contract: false, hi: 1, lo: 2 };
const BACKER: Address = Address { contract: false, hi: 1, lo: 3 };
const TOKEN: Address = Address { contract: true, hi: 1, lo: 4 };
const VERIFIER: Address = Address { contract: true, hi: 1, lo: 5 };
const CROWDFUND: Address = Address { contract: true, hi: 1, lo: 6 };

fn jurisdiction() -> Vec<u8> {
    b"US".to_vec()
}

fn setup() -> World {
    let limits = StateLimits {
        max_contributors: 128,
        max_pledgers: 128,
        max_roadmap_items: 32,
        max_stretch_goals: 32,
        max_string_len: 256,
        max_roadmap_description: 280,
        max_title: 128,
        max_description: 2_048,
        max_social_links: 512,
        max_metadata_total: 2_304,
        max_bonus_goal_description: 280,
        min_deadline_offset: 60,
    };
    let params = InitParams {
        admin: ADMIN,
        creator: CREATOR,
        token: TOKEN,
        expected_token_decimals: 7,
        goal: 1_000_000,
        deadline: 3_600,
        min_contribution: 1_000,
        platform_config: None,
        bonus_goal: None,
        bonus_goal_description: None,
    };
    match CrowdfundContract::initialize(&None, limits, 0, CROWDFUND, true, params) {
        Ok(env) => World {
            env,
            verifier: Verifier { verified: HashSet::new() },
        },
        Err(error) => panic!("not initialized: {:?}", error),
    }
}

impl World {
    /// Asks the verifier, where the campaign wants it asked.
    fn verdict(&self, who: Address, amount: i128) -> bool {
        match verifier_to_ask(&self.env, who, amount) {
            Some(address) => {
                assert_eq!(address, VERIFIER);
                self.verifier.is_verified(who)
            }
            None => false,
        }
    }

    fn contribute(&mut self, who: Address, amount: i128) -> Result<(), ContractError> {
        let verified = self.verdict(who, amount);
        CrowdfundContract::contribute(&mut self.env, who, amount, verified, 7)
    }

    fn pledge(&mut self, who: Address, amount: i128) -> Result<(), ContractError> {
        let verified = self.verdict(who, amount);
        CrowdfundContract::pledge(&mut self.env, who, amount, verified)
    }

    fn preview(&mut self, who: Address, amount: i128) -> bool {
        let verified = self.verdict(who, amount);
        CrowdfundContract::kyc_gate_preview(&mut self.env, who, amount, verified)
    }

    fn configure(&mut self, admin: Address, threshold: i128) -> Result<(), ContractError> {
        CrowdfundContract::configure_kyc_gate(
            &mut self.env,
            admin,
            VERIFIER,
            threshold,
            jurisdiction(),
        )
    }

    fn total_raised(&mut self) -> i128 {
        CrowdfundContract::total_raised(&mut self.env)
    }
}

#[test]
fn contribute_succeeds_without_kyc_gate_configured() {
    let mut world = setup();
    assert_eq!(world.contribute(BACKER, 500_000), Ok(()));
    assert_eq!(world.total_raised(), 500_000);
    assert!(CrowdfundContract::kyc_gate_config(&mut world.env).is_none());
}

#[test]
fn pledge_succeeds_without_kyc_gate_configured() {
    let mut world = setup();
    assert_eq!(world.pledge(BACKER, 500_000), Ok(()));
    assert!(CrowdfundContract::kyc_gate_config(&mut world.env).is_none());
}

#[test]
fn kyc_gate_preview_is_always_true_when_ungated() {
    let mut world = setup();
    assert!(world.preview(BACKER, 1_000_000_000));
}

#[test]
fn configure_kyc_gate_rejects_non_admin() {
    let mut world = setup();
    assert_eq!(world.configure(CREATOR, 10_000), Err(ContractError::Unauthorized));
    assert!(CrowdfundContract::kyc_gate_config(&mut world.env).is_none());
    assert!(world.env.auths.is_empty());
}

#[test]
fn set_kyc_gate_enabled_before_configure_fails() {
    let mut world = setup();
    assert_eq!(
        CrowdfundContract::set_kyc_gate_enabled(&mut world.env, ADMIN, true),
        Err(ContractError::KycGateNotConfigured)
    );
}

#[test]
fn contribute_blocked_when_over_threshold_and_unverified() {
    let mut world = setup();
    assert_eq!(world.configure(ADMIN, 10_000), Ok(()));
    assert_eq!(world.contribute(BACKER, 50_000), Err(ContractError::KycRequired));
    assert_eq!(world.total_raised(), 0);
}

#[test]
fn contribute_succeeds_when_over_threshold_and_verified() {
    let mut world = setup();
    assert_eq!(world.configure(ADMIN, 10_000), Ok(()));
    world.verifier.set_verified(BACKER, true);
    assert_eq!(world.contribute(BACKER, 50_000), Ok(()));
    assert_eq!(world.total_raised(), 50_000);
}

#[test]
fn contribute_below_threshold_does_not_require_verification() {
    let mut world = setup();
    assert_eq!(world.configure(ADMIN, 10_000), Ok(()));
    assert_eq!(world.contribute(BACKER, 5_000), Ok(()));
    assert_eq!(world.total_raised(), 5_000);
}

#[test]
fn cumulative_across_contribute_and_pledge_triggers_gate() {
    let mut world = setup();
    assert_eq!(world.configure(ADMIN, 10_000), Ok(()));
    assert_eq!(world.contribute(BACKER, 6_000), Ok(()));
    assert_eq!(world.pledge(BACKER, 6_000), Err(ContractError::KycRequired));
    world.verifier.set_verified(BACKER, true);
    assert_eq!(world.pledge(BACKER, 6_000), Ok(()));
}

#[test]
fn disabling_gate_removes_requirement() {
    let mut world = setup();
    assert_eq!(world.configure(ADMIN, 100), Ok(()));
    assert_eq!(
        CrowdfundContract::set_kyc_gate_enabled(&mut world.env, ADMIN, false),
        Ok(())
    );
    assert_eq!(world.contribute(BACKER, 500_000), Ok(()));
    assert_eq!(world.total_raised(), 500_000);
    match CrowdfundContract::kyc_gate_config(&mut world.env) {
        Some(config) => assert_eq!(config.enabled, false),
        None => panic!("the configuration is gone"),
    }
}

#[test]
fn re_enabling_gate_preserves_previously_configured_threshold() {
    let mut world = setup();
    assert_eq!(world.configure(ADMIN, 10_000), Ok(()));
    assert_eq!(
        CrowdfundContract::set_kyc_gate_enabled(&mut world.env, ADMIN, false),
        Ok(())
    );
    assert_eq!(
        CrowdfundContract::set_kyc_gate_enabled(&mut world.env, ADMIN, true),
        Ok(())
    );
    assert_eq!(world.contribute(BACKER, 50_000), Err(ContractError::KycRequired));
    match CrowdfundContract::kyc_gate_config(&mut world.env) {
        Some(config) => assert_eq!(config.threshold, 10_000),
        None => panic!("the configuration is gone"),
    }
}

#[test]
fn kyc_gate_preview_reflects_verification_state() {
    let mut world = setup();
    assert_eq!(world.configure(ADMIN, 10_000), Ok(()));
    assert!(world.preview(BACKER, 5_000));
    assert!(!world.preview(BACKER, 10_000));
    world.verifier.set_verified(BACKER, true);
    assert!(world.preview(BACKER, 10_000));
}

#[test]
fn configuring_is_announced_and_signed_by_the_admin() {
    let mut world = setup();
    assert_eq!(world.configure(ADMIN, 10_000), Ok(()));
    assert_eq!(world.env.auths, vec![ADMIN]);
    assert_eq!(
        world.env.outbox.last(),
        Some(&Effect::Publish {
            event: Event::KycGateConfigured {
                verifier: VERIFIER,
                threshold: 10_000,
                jurisdiction: jurisdiction(),
            },
        })
    );
    assert_eq!(
        CrowdfundContract::kyc_gate_config(&mut world.env),
        Some(KycGateConfig {
            verifier: VERIFIER,
            threshold: 10_000,
            enabled: true,
            jurisdiction: jurisdiction(),
        })
    );
    assert_eq!(
        CrowdfundContract::set_kyc_gate_enabled(&mut world.env, CREATOR, false),
        Err(ContractError::Unauthorized)
    );
    assert_eq!(
        CrowdfundContract::set_kyc_gate_enabled(&mut world.env, ADMIN, false),
        Ok(())
    );
    assert_eq!(
        world.env.outbox.last(),
        Some(&Effect::Publish { event: Event::KycGateToggled { enabled: false } })
    );
}

#[test]
fn nobody_is_asked_below_the_threshold() {
    let mut world = setup();
    assert_eq!(verifier_to_ask(&world.env, BACKER, 1_000_000), None);
    assert_eq!(world.configure(ADMIN, 10_000), Ok(()));
    assert_eq!(verifier_to_ask(&world.env, BACKER, 9_999), None);
    assert_eq!(verifier_to_ask(&world.env, BACKER, 10_000), Some(VERIFIER));
    // A sum beyond the range of the type counts as reaching the threshold.
    assert_eq!(world.contribute(BACKER, 9_000), Ok(()));
    assert_eq!(verifier_to_ask(&world.env, BACKER, 999), None);
    assert_eq!(verifier_to_ask(&world.env, BACKER, i128::MAX), Some(VERIFIER));
}
