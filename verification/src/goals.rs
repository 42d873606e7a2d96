//! Stretch goals and the bonus goal. They are progress marks for those who watch the
//! campaign: meeting one changes neither fees nor minting nor the release of funds.

use vstd::prelude::*;

use crate::campaign::CampaignView;
use crate::contract_state_size::validate_capacity;
use crate::env::{extend_instance_ttl, Env, EnvView};
use crate::types::{
    copy_optional_text, outcome, text_view, ContractError, CrowdfundContract, Text,
};

verus! {

/// Why adding a stretch goal is refused, if it is.
pub open spec fn stretch_goal_refusal(e: EnvView, milestone: i128) -> Option<ContractError> {
    if milestone > e.campaign.goal && e.campaign.stretch_goals.len() < e.limits.max_stretch_goals {
        None
    } else {
        Some(ContractError::InvalidParameter)
    }
}

/// The invocation after a call that adds a stretch goal.
pub open spec fn stretch_goal_added(e: EnvView, milestone: i128) -> EnvView {
    if stretch_goal_refusal(e, milestone) is Some {
        e.demand(e.campaign.creator)
    } else {
        e.with_campaign(
            CampaignView { stretch_goals: e.campaign.stretch_goals.push(milestone), ..e.campaign },
        ).demand(e.campaign.creator).extended()
    }
}

/// The first of `goals`, from place `k` on, that `total` falls short of; 0 if there is
/// none.
pub open spec fn first_unmet(goals: Seq<i128>, total: int, k: int) -> i128
    decreases goals.len() - k,
{
    if k < 0 || k >= goals.len() {
        0
    } else if total < goals[k] {
        goals[k]
    } else {
        first_unmet(goals, total, k + 1)
    }
}

/// Division by a positive number, rounded towards 0.
pub open spec fn truncated(a: int, b: int) -> int {
    if a >= 0 {
        a / b
    } else {
        -((-a) / b)
    }
}

/// How far `total` is on the way to `target`, in basis points, at most 10,000. (A negative
/// total wraps around.)
pub open spec fn progress_bps(total: int, target: int) -> u32 {
    let raw = truncated(total * 10_000, target);
    if target <= 0 {
        0
    } else if raw > 10_000 {
        10_000
    } else {
        (raw as i128) as u32
    }
}

/// Divides by a positive number and rounds towards 0.
pub fn divide(a: i128, b: i128) -> (r: i128)
    requires
        a > i128::MIN,
        b > 0,
    ensures
        r == truncated(a as int, b as int),
{
    if a >= 0 {
        proof {
            lemma_quotient_within(a as int, b as int);
        }
        a / b
    } else {
        proof {
            lemma_quotient_within(-a as int, b as int);
        }
        -((-a) / b)
    }
}

/// A quotient lies between 0 and what is divided.
proof fn lemma_quotient_within(a: int, b: int)
    requires
        a >= 0,
        b > 0,
    ensures
        0 <= a / b <= a,
{
    assert(0 <= a / b <= a) by (nonlinear_arith)
        requires
            a >= 0,
            b > 0,
    ;
}

/// Works out how far `total` is on the way to `target`.
pub fn work_out_progress(total: i128, target: i128) -> (r: u32)
    requires
        target > 0 ==> i128::MIN <= total * 10_000 <= i128::MAX,
    ensures
        r == progress_bps(total as int, target as int),
{
    if target > 0 {
        let raw: i128 = divide(total * 10_000, target);
        if raw > 10_000 {
            10_000
        } else {
            raw as u32
        }
    } else {
        0
    }
}

impl CrowdfundContract {
    /// Adds a stretch goal. The creator must have signed; the stretch goal must exceed
    /// the goal.
    pub fn add_stretch_goal(env: &mut Env, milestone: i128) -> (r: Result<(), ContractError>)
        requires
            old(env)@.campaign.wf(),
        ensures
            r == outcome(stretch_goal_refusal(old(env)@, milestone)),
            final(env)@.campaign.wf(),
            final(env)@ == stretch_goal_added(old(env)@, milestone),
    {
        let creator = env.campaign.creator;
        env.require_auth(creator);
        if milestone <= env.campaign.goal {
            return Err(ContractError::InvalidParameter);
        }
        if !validate_capacity(env.campaign.stretch_goals.len(), env.limits.max_stretch_goals) {
            return Err(ContractError::InvalidParameter);
        }
        extend_instance_ttl(env);
        env.campaign.stretch_goals.push(milestone);
        Ok(())
    }

    /// Returns the next stretch goal that is not met yet; 0 if there is none.
    pub fn current_milestone(env: &mut Env) -> (r: i128)
        ensures
            r == first_unmet(
                old(env)@.campaign.stretch_goals,
                old(env)@.campaign.total_raised,
                0,
            ),
            final(env)@ == old(env)@.extended(),
    {
        let ghost goals = env@.campaign.stretch_goals;
        let ghost total = env@.campaign.total_raised;
        extend_instance_ttl(env);
        let mut i: usize = 0;
        while i < env.campaign.stretch_goals.len()
            invariant
                i <= goals.len(),
                goals == env@.campaign.stretch_goals,
                total == env@.campaign.total_raised,
                env@ == old(env)@.extended(),
                first_unmet(goals, total, 0) == first_unmet(goals, total, i as int),
            decreases goals.len() - i,
        {
            let milestone: i128 = env.campaign.stretch_goals[i];
            if env.campaign.total_raised < milestone {
                return milestone;
            }
            i = i + 1;
        }
        0
    }

    /// Returns the bonus goal, if there is one.
    pub fn bonus_goal(env: &mut Env) -> (r: Option<i128>)
        ensures
            r == old(env)@.campaign.bonus_goal,
            final(env)@ == old(env)@.extended(),
    {
        extend_instance_ttl(env);
        env.campaign.bonus_goal
    }

    /// Returns the description of the bonus goal, if there is one.
    pub fn bonus_goal_description(env: &mut Env) -> (r: Option<Text>)
        ensures
            text_view(r) == old(env)@.campaign.bonus_goal_description,
            final(env)@ == old(env)@.extended(),
    {
        extend_instance_ttl(env);
        copy_optional_text(&env.campaign.bonus_goal_description)
    }

    /// Returns whether there is a bonus goal and it is met.
    pub fn bonus_goal_reached(env: &mut Env) -> (r: bool)
        ensures
            r == (match old(env)@.campaign.bonus_goal {
                Some(bonus) => old(env)@.campaign.total_raised >= bonus,
                None => false,
            }),
            final(env)@ == old(env)@.extended(),
    {
        extend_instance_ttl(env);
        match env.campaign.bonus_goal {
            Some(bonus) => env.campaign.total_raised >= bonus,
            None => false,
        }
    }

    /// Returns how far the campaign is on the way to its bonus goal, in basis points
    /// (capped at 10,000); 0 without a bonus goal.
    pub fn bonus_goal_progress_bps(env: &mut Env) -> (r: u32)
        requires
            old(env)@.campaign.wf(),
            old(env)@.campaign.bonus_goal is Some ==> i128::MIN
                <= old(env)@.campaign.total_raised * 10_000 <= i128::MAX,
        ensures
            r == (match old(env)@.campaign.bonus_goal {
                Some(bonus) => progress_bps(old(env)@.campaign.total_raised, bonus as int),
                None => 0,
            }),
            final(env)@ == old(env)@.extended(),
    {
        extend_instance_ttl(env);
        match env.campaign.bonus_goal {
            Some(bonus) => work_out_progress(env.campaign.total_raised, bonus),
            None => 0,
        }
    }
}

} // verus!
