//! Reading a campaign, and keeping its storage alive.

use vstd::prelude::*;

use crate::book::{amount_of, participants, Entry};
use crate::campaign::CampaignView;
use crate::env::{
    bump_persistent, extend_instance_ttl, instance_bump, persistent_bump, publication, Effect, Env,
    EnvView,
};
use crate::goals::{divide, progress_bps, truncated, work_out_progress};
use crate::types::{
    outcome, Address, CampaignStats, ContractError, CrowdfundContract, DataKey, Status,
};
use crate::withdraw_event_emission::Event;

verus! {

/// The version of the contract.
pub const CONTRACT_VERSION: u32 = 3;

/// The largest amount among the first `k` lines of a book; at least 0.
pub open spec fn largest(s: Seq<Entry>, k: int) -> int
    decreases k,
{
    if k <= 0 {
        0
    } else if s[k - 1].amount > largest(s, k - 1) {
        s[k - 1].amount as int
    } else {
        largest(s, k - 1)
    }
}

/// The summary figures of a campaign.
pub open spec fn stats(c: CampaignView) -> CampaignStats {
    CampaignStats {
        total_raised: c.total_raised as i128,
        goal: c.goal,
        progress_bps: progress_bps(c.total_raised, c.goal as int),
        contributor_count: c.contributions.len() as u32,
        average_contribution: if c.contributions.len() == 0 {
            0
        } else {
            truncated(c.total_raised, c.contributions.len() as int) as i128
        },
        largest_contribution: largest(c.contributions, c.contributions.len() as int) as i128,
    }
}

/// Why naming the contract that mints reward NFTs is refused, if it is.
pub open spec fn nft_contract_refusal(e: EnvView, creator: Address) -> Option<ContractError> {
    if creator != e.campaign.creator {
        Some(ContractError::Unauthorized)
    } else {
        None
    }
}

/// The invocation after a call that names the contract that mints reward NFTs.
pub open spec fn nft_contract_set(e: EnvView, creator: Address, nft_contract: Address) -> EnvView {
    if nft_contract_refusal(e, creator) is Some {
        e
    } else {
        e.with_campaign(
            CampaignView { nft_contract: Some(nft_contract), ..e.campaign },
        ).demand(creator).extended()
    }
}

/// What a request to keep storage alive asks of the host, in order.
pub open spec fn keep_alive_effects(c: CampaignView) -> Seq<Effect<Seq<u8>>> {
    seq![instance_bump()] + (if c.contributors_stored {
        seq![persistent_bump(DataKey::Contributors)]
    } else {
        Seq::empty()
    }) + (if c.pledgers_stored {
        seq![persistent_bump(DataKey::Pledgers)]
    } else {
        Seq::empty()
    }) + seq![publication(Event::KeepAlive)]
}

/// Finds the largest amount in a book.
fn find_largest(entries: &Vec<Entry>) -> (r: i128)
    ensures
        r == largest(entries@, entries@.len() as int),
{
    let mut r: i128 = 0;
    let mut i: usize = 0;
    while i < entries.len()
        invariant
            i <= entries@.len(),
            r == largest(entries@, i as int),
        decreases entries@.len() - i,
    {
        if entries[i].amount > r {
            r = entries[i].amount;
        }
        i = i + 1;
    }
    r
}

impl CrowdfundContract {
    /// Returns all contributors, in the order in which they joined.
    pub fn contributors(env: &mut Env) -> (r: Vec<Address>)
        ensures
            r@ == participants(old(env)@.campaign.contributions),
            final(env)@ == old(env)@.extended(),
    {
        extend_instance_ttl(env);
        env.campaign.contributions.participants()
    }

    /// Sets the contract that mints reward NFTs. The caller must be the creator and must
    /// have signed.
    pub fn set_nft_contract(env: &mut Env, creator: Address, nft_contract: Address) -> (r: Result<
        (),
        ContractError,
    >)
        requires
            old(env)@.campaign.wf(),
        ensures
            r == outcome(nft_contract_refusal(old(env)@, creator)),
            final(env)@.campaign.wf(),
            final(env)@ == nft_contract_set(old(env)@, creator, nft_contract),
    {
        if creator != env.campaign.creator {
            return Err(ContractError::Unauthorized);
        }
        env.require_auth(creator);
        extend_instance_ttl(env);
        env.campaign.nft_contract = Some(nft_contract);
        Ok(())
    }

    /// Returns the campaign's status.
    pub fn status(env: &mut Env) -> (r: Status)
        ensures
            r == old(env)@.campaign.status,
            final(env)@ == old(env)@.extended(),
    {
        extend_instance_ttl(env);
        env.campaign.status
    }

    /// Returns what has been raised.
    pub fn total_raised(env: &mut Env) -> (r: i128)
        ensures
            r == old(env)@.campaign.total_raised,
            final(env)@ == old(env)@.extended(),
    {
        extend_instance_ttl(env);
        env.campaign.total_raised
    }

    /// Returns the goal.
    pub fn goal(env: &mut Env) -> (r: i128)
        ensures
            r == old(env)@.campaign.goal,
            final(env)@ == old(env)@.extended(),
    {
        extend_instance_ttl(env);
        env.campaign.goal
    }

    /// Returns the deadline.
    pub fn deadline(env: &mut Env) -> (r: u64)
        ensures
            r == old(env)@.campaign.deadline,
            final(env)@ == old(env)@.extended(),
    {
        extend_instance_ttl(env);
        env.campaign.deadline
    }

    /// Returns what stands to a contributor's name.
    pub fn contribution(env: &mut Env, contributor: Address) -> (r: i128)
        requires
            old(env)@.campaign.wf(),
        ensures
            r == amount_of(old(env)@.campaign.contributions, contributor),
            final(env)@ == old(env)@.extended(),
    {
        extend_instance_ttl(env);
        env.campaign.contributions.amount(contributor)
    }

    /// Returns the smallest contribution that is accepted.
    pub fn min_contribution(env: &mut Env) -> (r: i128)
        ensures
            r == old(env)@.campaign.min_contribution,
            final(env)@ == old(env)@.extended(),
    {
        extend_instance_ttl(env);
        env.campaign.min_contribution
    }

    /// Returns summary figures of the campaign.
    pub fn get_stats(env: &mut Env) -> (r: CampaignStats)
        requires
            old(env)@.campaign.wf(),
            i128::MIN <= old(env)@.campaign.total_raised * 10_000 <= i128::MAX,
        ensures
            r == stats(old(env)@.campaign),
            final(env)@ == old(env)@.extended(),
    {
        extend_instance_ttl(env);
        let total_raised: i128 = env.campaign.total_raised;
        let goal: i128 = env.campaign.goal;
        let progress_bps: u32 = work_out_progress(total_raised, goal);
        let contributor_count: u32 = env.campaign.contributions.entries.len() as u32;
        let average_contribution: i128 = if contributor_count == 0 {
            0
        } else {
            divide(total_raised, contributor_count as i128)
        };
        let largest_contribution: i128 = find_largest(&env.campaign.contributions.entries);
        CampaignStats {
            total_raised,
            goal,
            progress_bps,
            contributor_count,
            average_contribution,
            largest_contribution,
        }
    }

    /// Returns the contract's version.
    pub fn version(env: &mut Env) -> (r: u32)
        ensures
            r == 3,
            final(env)@ == old(env)@.extended(),
    {
        extend_instance_ttl(env);
        CONTRACT_VERSION
    }

    /// Returns the token that contributions are made in.
    pub fn token(env: &mut Env) -> (r: Address)
        ensures
            r == old(env)@.campaign.token,
            final(env)@ == old(env)@.extended(),
    {
        extend_instance_ttl(env);
        env.campaign.token
    }

    /// Returns the contract that mints reward NFTs, if there is one.
    pub fn nft_contract(env: &mut Env) -> (r: Option<Address>)
        ensures
            r == old(env)@.campaign.nft_contract,
            final(env)@ == old(env)@.extended(),
    {
        extend_instance_ttl(env);
        env.campaign.nft_contract
    }

    /// Extends the lifetimes of instance storage and of the two participant lists. Anybody
    /// may ask for it; nothing that is stored changes.
    pub fn keep_alive(env: &mut Env) -> (r: Result<(), ContractError>)
        ensures
            r is Ok,
            final(env)@ == old(env)@.send_all(keep_alive_effects(old(env)@.campaign)),
    {
        let ghost e0 = env@;
        extend_instance_ttl(env);
        if env.campaign.contributors_stored {
            bump_persistent(env, DataKey::Contributors);
        }
        if env.campaign.pledgers_stored {
            bump_persistent(env, DataKey::Pledgers);
        }
        env.record(Effect::Publish { event: Event::KeepAlive });
        assert(env@.outbox =~= e0.outbox + keep_alive_effects(e0.campaign));
        Ok(())
    }
}

} // verus!
