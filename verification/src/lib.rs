//! The rules of a crowdfunding campaign.
//!
//! A campaign's stored state and one invocation of the contract are plain values
//! (`Campaign`, `Env`). Each entry point of `CrowdfundContract` is a function on them:
//! it decides, updates the state, and records in the outbox what the ledger host has
//! to carry out (transfers, mints, events, rent extensions). Answers that only other
//! contracts can give (the token's decimals, a verifier's verdict, whether a transfer
//! went through) come in as arguments.

pub mod acceptance;
pub mod accounts;
pub mod admin_upgrade_mechanism;
pub mod batch;
pub mod book;
pub mod campaign;
pub mod contract_state_size;
pub mod contribute;
pub mod crowdfund_initialize_function;
pub mod env;
pub mod figures;
pub mod goals;
pub mod history;
pub mod kyc_gate;
pub mod laws;
pub mod metadata;
pub mod milestone_accounts;
pub mod milestone_release;
pub mod outbox;
pub mod queries;
pub mod refund_single_token;
pub mod settings;
pub mod types;
pub mod withdraw;
pub mod withdraw_event_emission;

pub use batch::{Batch, BatchKind, BatchStep};
pub use book::{Book, Entry};
pub use campaign::Campaign;
pub use contract_state_size::StateLimits;
pub use crowdfund_initialize_function::InitParams;
pub use env::{
    bump_persistent, extend_instance_ttl, Effect, Env, LEDGER_BUMP_AMOUNT, LEDGER_THRESHOLD,
};
pub use milestone_release::{MilestonePolicy, VoteThresholds};
pub use types::{
    Address, CampaignStats, ContractError, CrowdfundContract, DataKey, KycGateConfig, Milestone,
    MilestoneInput, MilestoneRefundKey, MilestoneStatus, MilestoneVoteKey, PlatformConfig,
    RoadmapItem, Status, Text, WasmHash,
};
pub use withdraw_event_emission::{Event, MAX_NFT_MINT_BATCH};
