//! The contract's events, and the batch that mints reward NFTs.

use vstd::prelude::*;

use crate::batch::BatchKind;
use crate::book::Entry;
use crate::env::{publication, Effect, Env};
use crate::types::{copy_text, Address, KycGateConfig, Text, WasmHash};

verus! {

/// How many NFTs one call mints at most.
pub const MAX_NFT_MINT_BATCH: u32 = 50;

/// What the contract publishes. `S` is `Text` in running code and a sequence of bytes
/// in contracts.
#[derive(Clone, Debug, PartialEq, Eq)]
pub enum Event<S> {
    /// A contribution came in.
    Contributed { backer: Address, amount: i128, total_raised: i128 },
    /// The goal was met for the first time.
    GoalReached { total_raised: i128, goal: i128 },
    /// The bonus goal was met for the first time.
    BonusGoalReached { bonus_goal: i128 },
    /// A stretch goal was met for the first time; informational only.
    StretchGoalReached { milestone: i128, total_raised: i128 },
    /// The creator was paid out.
    Withdrawn { creator: Address, amount: i128, platform_fee: i128 },
    /// A backer was paid back.
    Refunded { backer: Address, amount: i128 },
    /// The campaign was cancelled.
    Cancelled,
    /// A transfer inside a batch failed and was passed over.
    TransferSkipped { participant: Address, amount: i128, context: BatchKind },
    /// The platform was paid its fee.
    FeeTransferred { platform: Address, fee: i128 },
    /// Reward NFTs were minted.
    NftBatchMinted { minted_count: u32 },
    /// A pledge was made.
    Pledged { pledger: Address, amount: i128 },
    /// Pledges were collected.
    PledgesCollected { collected_total: i128 },
    /// A milestone schedule was proposed.
    MilestonesProposed { creator: Address, count: u32, total_raised: i128 },
    /// A vote on a milestone was cast.
    MilestoneVoteCast {
        milestone_id: u32,
        voter: Address,
        approve: bool,
        weight: i128,
        yes_weight: i128,
        no_weight: i128,
    },
    /// A milestone was approved or rejected.
    MilestoneResolved { milestone_id: u32, approved: bool, yes_weight: i128, no_weight: i128 },
    /// A milestone was paid out.
    MilestoneReleased { milestone_id: u32, creator: Address, payout: i128, platform_fee: i128 },
    /// A share of a rejected milestone was paid back.
    MilestoneRefundClaimed { milestone_id: u32, contributor: Address, amount: i128 },
    /// Every milestone is settled.
    MilestoneScheduleCompleted { total_released: i128, total_refunded: i128 },
    /// The KYC gate was configured.
    KycGateConfigured { verifier: Address, threshold: i128, jurisdiction: S },
    /// The KYC gate was switched on or off.
    KycGateToggled { enabled: bool },
    /// Metadata was updated; the flags say which fields.
    MetadataUpdated {
        creator: Address,
        title_updated: bool,
        description_updated: bool,
        socials_updated: bool,
    },
    /// A roadmap item was added.
    RoadmapItemAdded { date: u64, description: S },
    /// The contract's code was replaced.
    Upgrade { admin: Address, current_wasm_hash: WasmHash, new_wasm_hash: WasmHash },
    /// The contract's previous code was restored.
    Rollback { admin: Address, restored_hash: WasmHash },
    /// Storage lifetimes were extended on request.
    KeepAlive,
}

impl View for Event<Text> {
    type V = Event<Seq<u8>>;

    open spec fn view(&self) -> Event<Seq<u8>> {
        match *self {
            Event::Contributed { backer, amount, total_raised } => Event::Contributed {
                backer,
                amount,
                total_raised,
            },
            Event::GoalReached { total_raised, goal } => Event::GoalReached { total_raised, goal },
            Event::BonusGoalReached { bonus_goal } => Event::BonusGoalReached { bonus_goal },
            Event::StretchGoalReached { milestone, total_raised } => Event::StretchGoalReached {
                milestone,
                total_raised,
            },
            Event::Withdrawn { creator, amount, platform_fee } => Event::Withdrawn {
                creator,
                amount,
                platform_fee,
            },
            Event::Refunded { backer, amount } => Event::Refunded { backer, amount },
            Event::Cancelled => Event::Cancelled,
            Event::TransferSkipped { participant, amount, context } => Event::TransferSkipped {
                participant,
                amount,
                context,
            },
            Event::FeeTransferred { platform, fee } => Event::FeeTransferred { platform, fee },
            Event::NftBatchMinted { minted_count } => Event::NftBatchMinted { minted_count },
            Event::Pledged { pledger, amount } => Event::Pledged { pledger, amount },
            Event::PledgesCollected { collected_total } => Event::PledgesCollected {
                collected_total,
            },
            Event::MilestonesProposed {
                creator,
                count,
                total_raised,
            } => Event::MilestonesProposed {
                creator,
                count,
                total_raised,
            },
            Event::MilestoneVoteCast {
                milestone_id,
                voter,
                approve,
                weight,
                yes_weight,
                no_weight,
            } => Event::MilestoneVoteCast {
                milestone_id,
                voter,
                approve,
                weight,
                yes_weight,
                no_weight,
            },
            Event::MilestoneResolved {
                milestone_id,
                approved,
                yes_weight,
                no_weight,
            } => Event::MilestoneResolved {
                milestone_id,
                approved,
                yes_weight,
                no_weight,
            },
            Event::MilestoneReleased {
                milestone_id,
                creator,
                payout,
                platform_fee,
            } => Event::MilestoneReleased {
                milestone_id,
                creator,
                payout,
                platform_fee,
            },
            Event::MilestoneRefundClaimed {
                milestone_id,
                contributor,
                amount,
            } => Event::MilestoneRefundClaimed {
                milestone_id,
                contributor,
                amount,
            },
            Event::MilestoneScheduleCompleted {
                total_released,
                total_refunded,
            } => Event::MilestoneScheduleCompleted {
                total_released,
                total_refunded,
            },
            Event::KycGateConfigured {
                verifier,
                threshold,
                jurisdiction,
            } => Event::KycGateConfigured {
                verifier,
                threshold,
                jurisdiction: jurisdiction@,
            },
            Event::KycGateToggled { enabled } => Event::KycGateToggled { enabled },
            Event::MetadataUpdated {
                creator,
                title_updated,
                description_updated,
                socials_updated,
            } => Event::MetadataUpdated {
                creator,
                title_updated,
                description_updated,
                socials_updated,
            },
            Event::RoadmapItemAdded { date, description } => Event::RoadmapItemAdded {
                date,
                description: description@,
            },
            Event::Upgrade { admin, current_wasm_hash, new_wasm_hash } => Event::Upgrade {
                admin,
                current_wasm_hash,
                new_wasm_hash,
            },
            Event::Rollback { admin, restored_hash } => Event::Rollback { admin, restored_hash },
            Event::KeepAlive => Event::KeepAlive,
        }
    }
}

impl<S> Event<S> {
    /// The second topic under which the event is published (the first one is
    /// `crowdfund` for all of them).
    pub open spec fn spec_action(self) -> Seq<char> {
        match self {
            Event::Contributed { .. } => "contributed"@,
            Event::GoalReached { .. } => "goal_reached"@,
            Event::BonusGoalReached { .. } => "bonus_goal_reached"@,
            Event::StretchGoalReached { .. } => "stretch_goal_reached"@,
            Event::Withdrawn { .. } => "withdrawn"@,
            Event::Refunded { .. } => "refunded"@,
            Event::Cancelled => "cancelled"@,
            Event::TransferSkipped { .. } => "transfer_skipped"@,
            Event::FeeTransferred { .. } => "fee_transferred"@,
            Event::NftBatchMinted { .. } => "nft_batch_minted"@,
            Event::Pledged { .. } => "pledged"@,
            Event::PledgesCollected { .. } => "pledges_collected"@,
            Event::MilestonesProposed { .. } => "milestones_proposed"@,
            Event::MilestoneVoteCast { .. } => "milestone_vote_cast"@,
            Event::MilestoneResolved { .. } => "milestone_resolved"@,
            Event::MilestoneReleased { .. } => "milestone_released"@,
            Event::MilestoneRefundClaimed { .. } => "milestone_refund_claimed"@,
            Event::MilestoneScheduleCompleted { .. } => "milestone_schedule_completed"@,
            Event::KycGateConfigured { .. } => "kyc_gate_configured"@,
            Event::KycGateToggled { .. } => "kyc_gate_toggled"@,
            Event::MetadataUpdated { .. } => "metadata_updated"@,
            Event::RoadmapItemAdded { .. } => "roadmap_item_added"@,
            Event::Upgrade { .. } => "upgrade"@,
            Event::Rollback { .. } => "rollback"@,
            Event::KeepAlive => "keep_alive"@,
        }
    }

    /// Returns the second topic under which the event is published.
    pub fn action(&self) -> (r: &'static str)
        ensures
            r@ == self.spec_action(),
    {
        match self {
            Event::Contributed { .. } => "contributed",
            Event::GoalReached { .. } => "goal_reached",
            Event::BonusGoalReached { .. } => "bonus_goal_reached",
            Event::StretchGoalReached { .. } => "stretch_goal_reached",
            Event::Withdrawn { .. } => "withdrawn",
            Event::Refunded { .. } => "refunded",
            Event::Cancelled => "cancelled",
            Event::TransferSkipped { .. } => "transfer_skipped",
            Event::FeeTransferred { .. } => "fee_transferred",
            Event::NftBatchMinted { .. } => "nft_batch_minted",
            Event::Pledged { .. } => "pledged",
            Event::PledgesCollected { .. } => "pledges_collected",
            Event::MilestonesProposed { .. } => "milestones_proposed",
            Event::MilestoneVoteCast { .. } => "milestone_vote_cast",
            Event::MilestoneResolved { .. } => "milestone_resolved",
            Event::MilestoneReleased { .. } => "milestone_released",
            Event::MilestoneRefundClaimed { .. } => "milestone_refund_claimed",
            Event::MilestoneScheduleCompleted { .. } => "milestone_schedule_completed",
            Event::KycGateConfigured { .. } => "kyc_gate_configured",
            Event::KycGateToggled { .. } => "kyc_gate_toggled",
            Event::MetadataUpdated { .. } => "metadata_updated",
            Event::RoadmapItemAdded { .. } => "roadmap_item_added",
            Event::Upgrade { .. } => "upgrade",
            Event::Rollback { .. } => "rollback",
            Event::KeepAlive => "keep_alive",
        }
    }
}

/// Publishes that a contribution came in.
pub fn emit_contributed(env: &mut Env, backer: Address, amount: i128, total_raised: i128)
    ensures
        final(env)@ == old(env)@.send(
            publication(Event::Contributed { backer, amount, total_raised }),
        ),
{
    env.record(Effect::Publish { event: Event::Contributed { backer, amount, total_raised } });
}

/// Publishes that the goal was met.
pub fn emit_goal_reached(env: &mut Env, total_raised: i128, goal: i128)
    ensures
        final(env)@ == old(env)@.send(publication(Event::GoalReached { total_raised, goal })),
{
    env.record(Effect::Publish { event: Event::GoalReached { total_raised, goal } });
}

/// Publishes the payout to the creator, which must be positive.
pub fn emit_withdrawn(env: &mut Env, creator: Address, amount: i128, platform_fee: i128)
    requires
        amount > 0,
    ensures
        final(env)@ == old(env)@.send(
            publication(Event::Withdrawn { creator, amount, platform_fee }),
        ),
{
    env.record(Effect::Publish { event: Event::Withdrawn { creator, amount, platform_fee } });
}

/// Publishes that a backer was paid back.
pub fn emit_refunded(env: &mut Env, backer: Address, amount: i128)
    ensures
        final(env)@ == old(env)@.send(publication(Event::Refunded { backer, amount })),
{
    env.record(Effect::Publish { event: Event::Refunded { backer, amount } });
}

/// Publishes that the campaign was cancelled.
pub fn emit_cancelled(env: &mut Env)
    ensures
        final(env)@ == old(env)@.send(publication(Event::Cancelled)),
{
    env.record(Effect::Publish { event: Event::Cancelled });
}

/// Publishes that a transfer inside a batch failed and was passed over. The
/// participant's line stays as it was, so that it can be tried again.
pub fn emit_transfer_skipped(env: &mut Env, participant: Address, amount: i128, context: BatchKind)
    ensures
        final(env)@ == old(env)@.send(
            publication(Event::TransferSkipped { participant, amount, context }),
        ),
{
    env.record(Effect::Publish { event: Event::TransferSkipped { participant, amount, context } });
}

/// Publishes that a stretch goal was met. Purely informational: it changes neither
/// fees nor minting nor the release of funds.
pub fn emit_stretch_goal_reached(env: &mut Env, milestone: i128, total_raised: i128)
    ensures
        final(env)@ == old(env)@.send(
            publication(Event::StretchGoalReached { milestone, total_raised }),
        ),
{
    env.record(Effect::Publish { event: Event::StretchGoalReached { milestone, total_raised } });
}

/// Publishes the platform's fee, which must be positive.
pub fn emit_fee_transferred(
    env: &mut Env,
    platform: Address,
    fee: i128,
)
    requires
        fee > 0,
    ensures
        final(env)@ == old(env)@.send(publication(Event::FeeTransferred { platform, fee })),
{
    env.record(Effect::Publish { event: Event::FeeTransferred { platform, fee } });
}

/// Publishes how many NFTs were minted; there must be some.
pub fn emit_nft_batch_minted(env: &mut Env, minted_count: u32)
    requires
        minted_count > 0,
    ensures
        final(env)@ == old(env)@.send(publication(Event::NftBatchMinted { minted_count })),
{
    env.record(Effect::Publish { event: Event::NftBatchMinted { minted_count } });
}

/// Publishes a proposed milestone schedule.
pub fn emit_milestones_proposed(env: &mut Env, creator: Address, count: u32, total_raised: i128)
    ensures
        final(env)@ == old(env)@.send(
            publication(Event::MilestonesProposed { creator, count, total_raised }),
        ),
{
    env.record(
        Effect::Publish { event: Event::MilestonesProposed { creator, count, total_raised } },
    );
}

/// Publishes a vote on a milestone.
pub fn emit_milestone_vote_cast(
    env: &mut Env,
    milestone_id: u32,
    voter: Address,
    approve: bool,
    weight: i128,
    yes_weight: i128,
    no_weight: i128,
)
    ensures
        final(env)@ == old(env)@.send(
            publication(
                Event::MilestoneVoteCast {
                    milestone_id,
                    voter,
                    approve,
                    weight,
                    yes_weight,
                    no_weight,
                },
            ),
        ),
{
    env.record(
        Effect::Publish {
            event: Event::MilestoneVoteCast {
                milestone_id,
                voter,
                approve,
                weight,
                yes_weight,
                no_weight,
            },
        },
    );
}

/// Publishes how a milestone was resolved.
pub fn emit_milestone_resolved(
    env: &mut Env,
    milestone_id: u32,
    approved: bool,
    yes_weight: i128,
    no_weight: i128,
)
    ensures
        final(env)@ == old(env)@.send(
            publication(Event::MilestoneResolved { milestone_id, approved, yes_weight, no_weight }),
        ),
{
    env.record(
        Effect::Publish {
            event: Event::MilestoneResolved { milestone_id, approved, yes_weight, no_weight },
        },
    );
}

/// Publishes the payout of a milestone, which must be positive.
pub fn emit_milestone_released(
    env: &mut Env,
    milestone_id: u32,
    creator: Address,
    payout: i128,
    platform_fee: i128,
)
    requires
        payout > 0,
    ensures
        final(env)@ == old(env)@.send(
            publication(
                Event::MilestoneReleased { milestone_id, creator, payout, platform_fee },
            ),
        ),
{
    env.record(
        Effect::Publish {
            event: Event::MilestoneReleased { milestone_id, creator, payout, platform_fee },
        },
    );
}

/// Publishes a refund out of a rejected milestone, which must be positive.
pub fn emit_milestone_refund_claimed(
    env: &mut Env,
    milestone_id: u32,
    contributor: Address,
    amount: i128,
)
    requires
        amount > 0,
    ensures
        final(env)@ == old(env)@.send(
            publication(Event::MilestoneRefundClaimed { milestone_id, contributor, amount }),
        ),
{
    env.record(
        Effect::Publish {
            event: Event::MilestoneRefundClaimed { milestone_id, contributor, amount },
        },
    );
}

/// Publishes that every milestone is settled. When a schedule counts as completed is for the
/// caller to say.
pub fn emit_milestone_schedule_completed(env: &mut Env, total_released: i128, total_refunded: i128)
    ensures
        final(env)@ == old(env)@.send(
            publication(Event::MilestoneScheduleCompleted { total_released, total_refunded }),
        ),
{
    env.record(
        Effect::Publish {
            event: Event::MilestoneScheduleCompleted { total_released, total_refunded },
        },
    );
}

/// Publishes the configuration of the KYC gate.
pub fn emit_kyc_gate_configured(env: &mut Env, config: &KycGateConfig<Text>)
    ensures
        final(env)@ == old(env)@.send(
            publication(
                Event::KycGateConfigured {
                    verifier: config.verifier,
                    threshold: config.threshold,
                    jurisdiction: config.jurisdiction@,
                },
            ),
        ),
{
    env.record(
        Effect::Publish {
            event: Event::KycGateConfigured {
                verifier: config.verifier,
                threshold: config.threshold,
                jurisdiction: copy_text(&config.jurisdiction),
            },
        },
    );
}

/// Publishes that the KYC gate was switched on or off.
pub fn emit_kyc_gate_toggled(env: &mut Env, enabled: bool)
    ensures
        final(env)@ == old(env)@.send(publication(Event::KycGateToggled { enabled })),
{
    env.record(Effect::Publish { event: Event::KycGateToggled { enabled } });
}

/// The lines with something standing to the participant's name.
pub open spec fn eligible(s: Seq<Entry>) -> Seq<Entry> {
    s.filter(|e: Entry| e.amount > 0)
}

/// How many NFTs a batch mints: one per eligible contributor, up to the cap.
pub open spec fn minted_count(s: Seq<Entry>) -> nat {
    if eligible(s).len() <= MAX_NFT_MINT_BATCH {
        eligible(s).len()
    } else {
        MAX_NFT_MINT_BATCH as nat
    }
}

/// The mints of a batch: the first eligible contributors, in the order in which they
/// joined.
pub open spec fn mint_effects(nft_contract: Address, s: Seq<Entry>) -> Seq<Effect<Seq<u8>>> {
    eligible(s).take(minted_count(s) as int).map_values(
        |e: Entry| Effect::<Seq<u8>>::Mint { nft_contract, to: e.who },
    )
}

/// Everything that a minting batch asks of the host.
pub open spec fn nft_effects(nft_contract: Option<Address>, s: Seq<Entry>) -> Seq<
    Effect<Seq<u8>>,
> {
    match nft_contract {
        None => Seq::empty(),
        Some(nft) => if minted_count(s) > 0 {
            mint_effects(nft, s).push(
                publication(Event::NftBatchMinted { minted_count: minted_count(s) as u32 }),
            )
        } else {
            Seq::empty()
        },
    }
}

/// Mints NFTs to the contributors with a positive contribution, at most
/// `MAX_NFT_MINT_BATCH` of them. Returns the number minted: 0 without an NFT contract
/// or without eligible contributors.
pub fn mint_nfts_in_batch(env: &mut Env, nft_contract: Option<Address>) -> (minted: u32)
    ensures
        minted == (if nft_contract is Some {
            minted_count(old(env)@.campaign.contributions)
        } else {
            0
        }),
        final(env)@ == old(env)@.send_all(
            nft_effects(nft_contract, old(env)@.campaign.contributions),
        ),
{
    let nft = match nft_contract {
        Some(nft) => nft,
        None => {
            assert(env@ =~= env@.send_all(Seq::empty()));
            return 0;
        },
    };
    let ghost e0 = env@;
    let ghost s = env@.campaign.contributions;
    let mut minted: u32 = 0;
    let mut i: usize = 0;
    assert(s.take(0) =~= Seq::empty());
    reveal(Seq::filter);
    assert(mint_effects(nft, s.take(0)) =~= Seq::empty());
    assert(env@ =~= e0.send_all(mint_effects(nft, s.take(0))));
    while i < env.campaign.contributions.entries.len() && minted < MAX_NFT_MINT_BATCH
        invariant
            i <= s.len(),
            s == env@.campaign.contributions,
            e0.campaign.contributions == s,
            minted == eligible(s.take(i as int)).len(),
            minted <= MAX_NFT_MINT_BATCH,
            env@ == e0.send_all(mint_effects(nft, s.take(i as int))),
        decreases s.len() - i,
    {
        let entry = env.campaign.contributions.entries[i];
        proof {
            reveal(Seq::filter);
            assert(s.take(i + 1).drop_last() =~= s.take(i as int));
            assert(s.take(i + 1).last() == entry);
        }
        if entry.amount > 0 {
            env.record(Effect::Mint { nft_contract: nft, to: entry.who });
            minted = minted + 1;
            proof {
                assert(eligible(s.take(i + 1)) =~= eligible(s.take(i as int)).push(entry));
                assert(mint_effects(nft, s.take(i + 1)) =~= mint_effects(
                    nft,
                    s.take(i as int),
                ).push(Effect::<Seq<u8>>::Mint { nft_contract: nft, to: entry.who }));
                assert(env@ =~= e0.send_all(mint_effects(nft, s.take(i + 1))));
            }
        } else {
            assert(eligible(s.take(i + 1)) =~= eligible(s.take(i as int)));
        }
        i = i + 1;
    }
    proof {
        let p = |e: Entry| e.amount > 0;
        assert(s =~= s.take(i as int) + s.skip(i as int));
        Seq::filter_distributes_over_add(s.take(i as int), s.skip(i as int), p);
        if i == s.len() {
            assert(s.take(i as int) =~= s);
        }
        assert(minted == minted_count(s));
        assert(eligible(s).take(minted as int) =~= eligible(s.take(i as int)).take(minted as int));
        assert(mint_effects(nft, s) =~= mint_effects(nft, s.take(i as int)));
    }
    if minted > 0 {
        emit_nft_batch_minted(env, minted);
    }
    assert(env@ =~= e0.send_all(nft_effects(nft_contract, s)));
    minted
}

} // verus!
