//! Contributions and pledges.

use vstd::prelude::*;

use crate::book::{amount_of, book_wf, lemma_with_amount, listed, with_amount};
use crate::campaign::CampaignView;
use crate::contract_state_size::validate_capacity;
use crate::env::{
    bump_persistent, extend_instance_ttl, instance_bump, persistent_bump, publication, Effect, Env,
    EnvView,
};
use crate::kyc_gate::{lets_through, passes_gate};
use crate::types::{outcome, Address, ContractError, CrowdfundContract, DataKey, Status};
use crate::withdraw_event_emission::{
    emit_contributed, emit_goal_reached, emit_stretch_goal_reached, Event,
};

verus! {

/// The stretch goals among the first `k` that a total of `total` meets and that were
/// not announced yet, each once.
pub open spec fn newly_reached(goals: Seq<i128>, announced: Seq<i128>, total: int, k: int) -> Seq<
    i128,
>
    decreases k,
{
    if k <= 0 {
        Seq::empty()
    } else {
        let before = newly_reached(goals, announced, total, k - 1);
        let goal = goals[k - 1];
        if total >= goal && !announced.contains(goal) && !before.contains(goal) {
            before.push(goal)
        } else {
            before
        }
    }
}

/// The announcements of stretch goals.
pub open spec fn stretch_goal_events(reached: Seq<i128>, total_raised: i128) -> Seq<
    Effect<Seq<u8>>,
> {
    reached.map_values(
        |milestone: i128|
            publication(Event::<Seq<u8>>::StretchGoalReached { milestone, total_raised }),
    )
}

/// Whether a contribution that lifts the total from `before` to `after` is the first to
/// meet `goal`.
pub open spec fn crosses(announced: bool, before: int, after: int, goal: int) -> bool {
    !announced && before < goal <= after
}

/// Whether a contribution of `amount` is the first to meet the goal.
pub open spec fn crosses_goal(c: CampaignView, amount: int) -> bool {
    crosses(c.goal_reached_emitted, c.total_raised, c.total_raised + amount, c.goal as int)
}

/// Whether a contribution of `amount` is the first to meet the bonus goal.
pub open spec fn crosses_bonus_goal(c: CampaignView, amount: int) -> bool {
    match c.bonus_goal {
        Some(bonus) => crosses(
            c.bonus_goal_reached_emitted,
            c.total_raised,
            c.total_raised + amount,
            bonus as int,
        ),
        None => false,
    }
}

/// The stretch goals that a contribution of `amount` is the first to meet.
pub open spec fn crossed_stretch_goals(c: CampaignView, amount: int) -> Seq<i128> {
    newly_reached(
        c.stretch_goals,
        c.stretch_goal_reached_emitted,
        c.total_raised + amount,
        c.stretch_goals.len() as int,
    )
}

/// Why a contribution is refused before anybody outside is asked, if it is.
pub open spec fn contribution_refusal(e: EnvView, who: Address, amount: i128) -> Option<
    ContractError,
> {
    let c = e.campaign;
    if c.status !is Active {
        Some(ContractError::CampaignNotActive)
    } else if amount == 0 {
        Some(ContractError::ZeroAmount)
    } else if amount < c.min_contribution {
        Some(ContractError::BelowMinimum)
    } else if e.now > c.deadline {
        Some(ContractError::CampaignEnded)
    } else if !listed(c.contributions, who) && c.contributions.len() >= e.limits.max_contributors {
        Some(ContractError::InvalidParameter)
    } else {
        None
    }
}

/// Why a contribution is refused, if it is, given the verifier's verdict on the
/// contributor and the decimals that the token reports.
pub open spec fn contribute_refusal(
    e: EnvView,
    who: Address,
    amount: i128,
    verified: bool,
    decimals: u32,
) -> Option<ContractError> {
    let c = e.campaign;
    if contribution_refusal(e, who, amount) is Some {
        contribution_refusal(e, who, amount)
    } else if !passes_gate(c, who, amount as int, verified) {
        Some(ContractError::KycRequired)
    } else if decimals != c.token_decimals {
        Some(ContractError::InvalidParameter)
    } else if amount_of(c.contributions, who) + amount > i128::MAX || c.total_raised + amount
        > i128::MAX {
        Some(ContractError::Overflow)
    } else {
        None
    }
}

/// The stored state after a contribution.
pub open spec fn after_contribution(c: CampaignView, who: Address, amount: i128) -> CampaignView {
    CampaignView {
        contributions: with_amount(
            c.contributions,
            who,
            (amount_of(c.contributions, who) + amount) as i128,
        ),
        contributors_stored: true,
        total_raised: c.total_raised + amount,
        goal_reached_emitted: c.goal_reached_emitted || crosses_goal(c, amount as int),
        bonus_goal_reached_emitted: c.bonus_goal_reached_emitted || crosses_bonus_goal(
            c,
            amount as int,
        ),
        stretch_goal_reached_emitted: c.stretch_goal_reached_emitted + crossed_stretch_goals(
            c,
            amount as int,
        ),
        ..c
    }
}

/// The announcement of the goal, where it is due.
pub open spec fn goal_effects(c: CampaignView, amount: int) -> Seq<Effect<Seq<u8>>> {
    if crosses_goal(c, amount) {
        seq![
            publication(
                Event::GoalReached {
                    total_raised: (c.total_raised + amount) as i128,
                    goal: c.goal,
                },
            ),
        ]
    } else {
        Seq::empty()
    }
}

/// The announcement of the bonus goal, where it is due.
pub open spec fn bonus_goal_effects(c: CampaignView, amount: int) -> Seq<Effect<Seq<u8>>> {
    if crosses_bonus_goal(c, amount) {
        seq![publication(Event::BonusGoalReached { bonus_goal: c.bonus_goal->0 })]
    } else {
        Seq::empty()
    }
}

/// The announcements of stretch goals that are due.
pub open spec fn stretch_goal_effects(c: CampaignView, amount: int) -> Seq<Effect<Seq<u8>>> {
    stretch_goal_events(crossed_stretch_goals(c, amount), (c.total_raised + amount) as i128)
}

/// The extension of a list of participants, where somebody joined it.
pub open spec fn joining_effects(joined: bool, list: DataKey) -> Seq<Effect<Seq<u8>>> {
    if joined {
        seq![persistent_bump(list)]
    } else {
        Seq::empty()
    }
}

/// What a contribution asks of the host, in order.
pub open spec fn contribution_effects(e: EnvView, who: Address, amount: i128) -> Seq<
    Effect<Seq<u8>>,
> {
    let c = e.campaign;
    seq![
        instance_bump(),
        Effect::Transfer { token: c.token, from: who, to: e.contract, amount },
        persistent_bump(DataKey::Contribution(who)),
    ] + goal_effects(c, amount as int) + bonus_goal_effects(c, amount as int)
        + stretch_goal_effects(c, amount as int) + joining_effects(
        !listed(c.contributions, who),
        DataKey::Contributors,
    ) + seq![
        publication(
            Event::Contributed {
                backer: who,
                amount,
                total_raised: (c.total_raised + amount) as i128,
            },
        ),
    ]
}

/// The invocation after a call that contributes.
pub open spec fn contributed(
    e: EnvView,
    who: Address,
    amount: i128,
    verified: bool,
    decimals: u32,
) -> EnvView {
    if contribute_refusal(e, who, amount, verified, decimals) is Some {
        e.demand(who)
    } else {
        e.with_campaign(after_contribution(e.campaign, who, amount)).demand(who).send_all(
            contribution_effects(e, who, amount),
        )
    }
}

/// Why a pledge is refused before anybody outside is asked, if it is.
pub open spec fn pledge_admission_refusal(e: EnvView, who: Address, amount: i128) -> Option<
    ContractError,
> {
    let c = e.campaign;
    if amount < c.min_contribution {
        Some(ContractError::BelowMinimum)
    } else if e.now > c.deadline {
        Some(ContractError::CampaignEnded)
    } else if !listed(c.pledges, who) && c.pledges.len() >= e.limits.max_pledgers {
        Some(ContractError::InvalidParameter)
    } else {
        None
    }
}

/// Why a pledge is refused, if it is, given the verifier's verdict on the pledger.
pub open spec fn pledge_refusal(e: EnvView, who: Address, amount: i128, verified: bool) -> Option<
    ContractError,
> {
    if pledge_admission_refusal(e, who, amount) is Some {
        pledge_admission_refusal(e, who, amount)
    } else if !passes_gate(e.campaign, who, amount as int, verified) {
        Some(ContractError::KycRequired)
    } else {
        None
    }
}

/// Whether the total of an accepted pledge stays within its type.
pub open spec fn pledge_in_range(e: EnvView, who: Address, amount: i128, verified: bool) -> bool {
    pledge_refusal(e, who, amount, verified) is None ==> e.campaign.total_pledged + amount
        <= i128::MAX
}

/// The stored state after a pledge.
pub open spec fn after_pledge(c: CampaignView, who: Address, amount: i128) -> CampaignView {
    CampaignView {
        pledges: with_amount(c.pledges, who, (amount_of(c.pledges, who) + amount) as i128),
        pledgers_stored: true,
        total_pledged: c.total_pledged + amount,
        ..c
    }
}

/// What a pledge asks of the host, in order.
pub open spec fn pledge_effects(c: CampaignView, who: Address, amount: i128) -> Seq<
    Effect<Seq<u8>>,
> {
    seq![instance_bump(), persistent_bump(DataKey::Pledge(who))] + joining_effects(
        !listed(c.pledges, who),
        DataKey::Pledgers,
    ) + seq![publication(Event::Pledged { pledger: who, amount })]
}

/// The invocation after a call that pledges.
pub open spec fn pledged(e: EnvView, who: Address, amount: i128, verified: bool) -> EnvView {
    if pledge_refusal(e, who, amount, verified) is Some {
        e.demand(who)
    } else {
        e.with_campaign(after_pledge(e.campaign, who, amount)).demand(who).send_all(
            pledge_effects(e.campaign, who, amount),
        )
    }
}

/// The newly met stretch goals are distinct, met, and were not announced.
pub proof fn lemma_newly_reached(goals: Seq<i128>, announced: Seq<i128>, total: int, k: int)
    requires
        0 <= k <= goals.len(),
    ensures
        newly_reached(goals, announced, total, k).no_duplicates(),
        forall|g: i128|
            #[trigger] newly_reached(goals, announced, total, k).contains(g) <==> total >= g
                && !announced.contains(g) && goals.take(k).contains(g),
    decreases k,
{
    let now = newly_reached(goals, announced, total, k);
    if k > 0 {
        let before = newly_reached(goals, announced, total, k - 1);
        let goal = goals[k - 1];
        lemma_newly_reached(goals, announced, total, k - 1);
        assert(goals.take(k) =~= goals.take(k - 1).push(goal));
        assert forall|g: i128|
            #[trigger] now.contains(g) <==> total >= g && !announced.contains(g) && goals.take(
                k,
            ).contains(g) by {
            assert(goals.take(k - 1).push(goal).contains(g) <==> goals.take(k - 1).contains(g) || g
                == goal) by {
                if goals.take(k - 1).contains(g) {
                    let i = goals.take(k - 1).index_of(g);
                    assert(goals.take(k - 1).push(goal)[i] == g);
                }
                if g == goal {
                    assert(goals.take(k - 1).push(goal)[k - 1] == g);
                }
            }
            assert(before.push(goal).contains(g) <==> before.contains(g) || g == goal) by {
                if before.contains(g) {
                    let i = before.index_of(g);
                    assert(before.push(goal)[i] == g);
                }
                if g == goal {
                    assert(before.push(goal)[before.len() as int] == g);
                }
            }
        }
    }
}

/// A contribution keeps a campaign well-formed.
pub proof fn lemma_contribution_wf(e: EnvView, who: Address, amount: i128)
    requires
        e.campaign.wf(),
        e.campaign.milestones.len() == 0,
        contribution_refusal(e, who, amount) is None,
        e.campaign.total_raised + amount <= i128::MAX,
    ensures
        after_contribution(e.campaign, who, amount).wf(),
{
    let c = e.campaign;
    let n = after_contribution(c, who, amount);
    crate::book::lemma_amount_nonneg(c.contributions, who);
    lemma_with_amount(
        c.contributions,
        who,
        (amount_of(c.contributions, who) + amount) as i128,
    );
    lemma_newly_reached(
        c.stretch_goals,
        c.stretch_goal_reached_emitted,
        c.total_raised + amount,
        c.stretch_goals.len() as int,
    );
    let old_list = c.stretch_goal_reached_emitted;
    let fresh = crossed_stretch_goals(c, amount as int);
    assert forall|i: int, j: int| 0 <= i < (old_list + fresh).len() && 0 <= j < (old_list
        + fresh).len() && i != j implies (old_list + fresh)[i] != (old_list + fresh)[j] by {
        if i < old_list.len() && j >= old_list.len() {
            assert(fresh.contains(fresh[j - old_list.len()]));
            assert(old_list.contains(old_list[i]));
        }
        if j < old_list.len() && i >= old_list.len() {
            assert(fresh.contains(fresh[i - old_list.len()]));
            assert(old_list.contains(old_list[j]));
        }
    }
}

/// A pledge keeps a campaign well-formed.
pub proof fn lemma_pledge_wf(e: EnvView, who: Address, amount: i128)
    requires
        e.campaign.wf(),
        pledge_admission_refusal(e, who, amount) is None,
        e.campaign.total_pledged + amount <= i128::MAX,
    ensures
        after_pledge(e.campaign, who, amount).wf(),
        0 <= amount_of(e.campaign.pledges, who) <= e.campaign.total_pledged,
{
    let c = e.campaign;
    crate::book::lemma_amount_nonneg(c.pledges, who);
    lemma_with_amount(c.pledges, who, (amount_of(c.pledges, who) + amount) as i128);
}

/// Announces the goal where a contribution is the first to meet it.
fn announce_goal(env: &mut Env, total: i128, new_total: i128)
    ensures
        ({
            let c = old(env)@.campaign;
            let due = crosses(
                c.goal_reached_emitted,
                total as int,
                new_total as int,
                c.goal as int,
            );
            final(env)@ == old(env)@.with_campaign(
                CampaignView { goal_reached_emitted: c.goal_reached_emitted || due, ..c },
            ).send_all(
                if due {
                    seq![
                        publication(Event::GoalReached { total_raised: new_total, goal: c.goal }),
                    ]
                } else {
                    Seq::empty()
                },
            )
        }),
{
    let ghost e0 = env@;
    let goal: i128 = env.campaign.goal;
    if !env.campaign.goal_reached_emitted && total < goal && new_total >= goal {
        emit_goal_reached(env, new_total, goal);
        env.campaign.goal_reached_emitted = true;
        assert(env@.outbox =~= e0.outbox + seq![
            publication(Event::GoalReached { total_raised: new_total, goal }),
        ]);
    } else {
        assert(env@.outbox =~= e0.outbox + Seq::empty());
    }
}

/// Announces the bonus goal where a contribution is the first to meet it.
fn announce_bonus_goal(env: &mut Env, total: i128, new_total: i128)
    ensures
        ({
            let c = old(env)@.campaign;
            let due = c.bonus_goal is Some && crosses(
                c.bonus_goal_reached_emitted,
                total as int,
                new_total as int,
                c.bonus_goal->0 as int,
            );
            final(env)@ == old(env)@.with_campaign(
                CampaignView {
                    bonus_goal_reached_emitted: c.bonus_goal_reached_emitted || due,
                    ..c
                },
            ).send_all(
                if due {
                    seq![publication(Event::BonusGoalReached { bonus_goal: c.bonus_goal->0 })]
                } else {
                    Seq::empty()
                },
            )
        }),
{
    let ghost e0 = env@;
    if let Some(bonus_goal) = env.campaign.bonus_goal {
        if !env.campaign.bonus_goal_reached_emitted && total < bonus_goal && new_total
            >= bonus_goal {
            env.record(Effect::Publish { event: Event::BonusGoalReached { bonus_goal } });
            env.campaign.bonus_goal_reached_emitted = true;
            assert(env@.outbox =~= e0.outbox + seq![
                publication(Event::BonusGoalReached { bonus_goal }),
            ]);
            return;
        }
    }
    assert(env@.outbox =~= e0.outbox + Seq::empty());
}

/// Extends a list of participants where somebody joined it.
fn bump_joined(env: &mut Env, joined: bool, list: DataKey)
    ensures
        final(env)@ == old(env)@.send_all(joining_effects(joined, list)),
{
    let ghost e0 = env@;
    if joined {
        bump_persistent(env, list);
    }
    assert(env@.outbox =~= e0.outbox + joining_effects(joined, list));
}

/// Announces the stretch goals that the total newly meets and notes them as announced.
fn announce_stretch_goals(env: &mut Env, total_raised: i128)
    ensures
        final(env)@ == old(env)@.with_campaign(
            CampaignView {
                stretch_goal_reached_emitted: old(env)@.campaign.stretch_goal_reached_emitted
                    + newly_reached(
                    old(env)@.campaign.stretch_goals,
                    old(env)@.campaign.stretch_goal_reached_emitted,
                    total_raised as int,
                    old(env)@.campaign.stretch_goals.len() as int,
                ),
                ..old(env)@.campaign
            },
        ).send_all(
            stretch_goal_events(
                newly_reached(
                    old(env)@.campaign.stretch_goals,
                    old(env)@.campaign.stretch_goal_reached_emitted,
                    total_raised as int,
                    old(env)@.campaign.stretch_goals.len() as int,
                ),
                total_raised,
            ),
        ),
{
    let ghost e0 = env@;
    let ghost goals = env@.campaign.stretch_goals;
    let ghost announced = env@.campaign.stretch_goal_reached_emitted;
    let ghost t = total_raised as int;
    let mut k: usize = 0;
    assert(env@ =~= e0.with_campaign(
        CampaignView {
            stretch_goal_reached_emitted: announced + newly_reached(goals, announced, t, 0),
            ..e0.campaign
        },
    ).send_all(stretch_goal_events(newly_reached(goals, announced, t, 0), total_raised)));
    while k < env.campaign.stretch_goals.len()
        invariant
            k <= goals.len(),
            goals == env@.campaign.stretch_goals,
            t == total_raised,
            env@ == e0.with_campaign(
                CampaignView {
                    stretch_goal_reached_emitted: announced + newly_reached(
                        goals,
                        announced,
                        t,
                        k as int,
                    ),
                    ..e0.campaign
                },
            ).send_all(
                stretch_goal_events(newly_reached(goals, announced, t, k as int), total_raised),
            ),
        decreases goals.len() - k,
    {
        let milestone: i128 = env.campaign.stretch_goals[k];
        let ghost before = newly_reached(goals, announced, t, k as int);
        let known: bool = contains_amount(&env.campaign.stretch_goal_reached_emitted, milestone);
        proof {
            lemma_contains_add(announced, before, milestone);
        }
        if total_raised >= milestone && !known {
            emit_stretch_goal_reached(env, milestone, total_raised);
            env.campaign.stretch_goal_reached_emitted.push(milestone);
            proof {
                let after = newly_reached(goals, announced, t, k + 1);
                assert(after == before.push(milestone));
                assert(announced + after =~= (announced + before).push(milestone));
                assert(stretch_goal_events(after, total_raised) =~= stretch_goal_events(
                    before,
                    total_raised,
                ).push(
                    publication(
                        Event::<Seq<u8>>::StretchGoalReached { milestone, total_raised },
                    ),
                ));
                assert(env@ =~= e0.with_campaign(
                    CampaignView {
                        stretch_goal_reached_emitted: announced + after,
                        ..e0.campaign
                    },
                ).send_all(stretch_goal_events(after, total_raised)));
            }
        }
        k = k + 1;
    }
}

/// Membership in two lists that are joined.
proof fn lemma_contains_add(a: Seq<i128>, b: Seq<i128>, x: i128)
    ensures
        (a + b).contains(x) == (a.contains(x) || b.contains(x)),
{
    if a.contains(x) {
        assert((a + b)[a.index_of(x)] == x);
    }
    if b.contains(x) {
        assert((a + b)[a.len() + b.index_of(x)] == x);
    }
}

/// Whether a list of amounts holds `x`.
fn contains_amount(list: &Vec<i128>, x: i128) -> (r: bool)
    ensures
        r == list@.contains(x),
{
    let mut i: usize = 0;
    while i < list.len()
        invariant
            i <= list@.len(),
            forall|j: int| 0 <= j < i ==> list@[j] != x,
        decreases list@.len() - i,
    {
        if list[i] == x {
            assert(list@[i as int] == x);
            return true;
        }
        i = i + 1;
    }
    false
}

/// Writes an accepted contribution down and sends what follows from it.
fn enter_contribution(
    env: &mut Env,
    contributor: Address,
    amount: i128,
    new_contribution: i128,
    new_total: i128,
)
    requires
        book_wf(old(env)@.campaign.contributions),
        new_contribution == amount_of(old(env)@.campaign.contributions, contributor) + amount,
        new_total == old(env)@.campaign.total_raised + amount,
    ensures
        final(env)@ == old(env)@.with_campaign(
            after_contribution(old(env)@.campaign, contributor, amount),
        ).send_all(contribution_effects(old(env)@, contributor, amount)),
{
    let ghost e0 = env@;
    let ghost c0 = env@.campaign;
    let ghost x = amount as int;
    let total: i128 = env.campaign.total_raised;
    let token = env.campaign.token;
    let contract = env.contract;
    let is_new_contributor: bool = !env.campaign.contributions.lists(contributor);

    extend_instance_ttl(env);
    env.record(Effect::Transfer { token, from: contributor, to: contract, amount });
    env.campaign.contributions.set_amount(contributor, new_contribution);
    env.campaign.contributors_stored = true;
    bump_persistent(env, DataKey::Contribution(contributor));
    env.campaign.total_raised = new_total;
    let ghost head = seq![
        instance_bump(),
        Effect::<Seq<u8>>::Transfer { token, from: contributor, to: contract, amount },
        persistent_bump(DataKey::Contribution(contributor)),
    ];
    let ghost e1 = env@;
    assert(e1.outbox =~= e0.outbox + head);

    announce_goal(env, total, new_total);
    announce_bonus_goal(env, total, new_total);
    announce_stretch_goals(env, new_total);
    bump_joined(env, is_new_contributor, DataKey::Contributors);
    let ghost e2 = env@;
    assert(e2.outbox == e1.outbox + goal_effects(c0, x) + bonus_goal_effects(c0, x)
        + stretch_goal_effects(c0, x) + joining_effects(
        is_new_contributor,
        DataKey::Contributors,
    ));
    emit_contributed(env, contributor, amount, new_total);
    proof {
        let expected = e0.with_campaign(after_contribution(c0, contributor, amount)).send_all(
            contribution_effects(e0, contributor, amount),
        );
        assert(env@.campaign =~= expected.campaign);
        assert(env@.outbox =~= expected.outbox);
        assert(env@ =~= expected);
    }
}

impl CrowdfundContract {
    /// Checks a contribution as far as that is possible without asking anybody outside.
    pub fn admit_contribution(env: &Env, contributor: Address, amount: i128) -> (r: Result<
        (),
        ContractError,
    >)
        requires
            env@.campaign.wf(),
        ensures
            r == outcome(contribution_refusal(env@, contributor, amount)),
    {
        if env.campaign.status != Status::Active {
            return Err(ContractError::CampaignNotActive);
        }
        if amount == 0 {
            return Err(ContractError::ZeroAmount);
        }
        if amount < env.campaign.min_contribution {
            return Err(ContractError::BelowMinimum);
        }
        if env.now > env.campaign.deadline {
            return Err(ContractError::CampaignEnded);
        }
        if !env.campaign.contributions.lists(contributor) && !validate_capacity(
            env.campaign.contributions.entries.len(),
            env.limits.max_contributors,
        ) {
            return Err(ContractError::InvalidParameter);
        }
        Ok(())
    }

    /// Contributes tokens to the campaign.
    ///
    /// The contributor must have signed. `verified` is the KYC verifier's verdict on the
    /// contributor (it plays no part where the KYC gate does not ask for one), `decimals`
    /// what the token reports of itself.
    ///
    /// A milestone schedule is proposed after the deadline, so that nothing is taken in
    /// while one stands; its accounts rest on the clock not running backwards.
    pub fn contribute(
        env: &mut Env,
        contributor: Address,
        amount: i128,
        verified: bool,
        decimals: u32,
    ) -> (r: Result<(), ContractError>)
        requires
            old(env)@.campaign.wf(),
        ensures
            r == outcome(contribute_refusal(old(env)@, contributor, amount, verified, decimals)),
            r is Err || old(env)@.campaign.milestones.len() == 0 ==> final(env)@.campaign.wf(),
            final(env)@ == contributed(old(env)@, contributor, amount, verified, decimals),
    {
        let ghost e0 = env@;
        let ghost c0 = env@.campaign;
        env.require_auth(contributor);
        match CrowdfundContract::admit_contribution(env, contributor, amount) {
            Err(error) => {
                return Err(error);
            },
            Ok(()) => {},
        }
        if !lets_through(env, contributor, amount, verified) {
            return Err(ContractError::KycRequired);
        }
        if decimals != env.campaign.token_decimals {
            return Err(ContractError::InvalidParameter);
        }
        let previous_amount: i128 = env.campaign.contributions.amount(contributor);
        proof {
            crate::book::lemma_amount_nonneg(c0.contributions, contributor);
        }
        let total: i128 = env.campaign.total_raised;
        let new_contribution: i128 = match previous_amount.checked_add(amount) {
            Some(sum) => sum,
            None => {
                return Err(ContractError::Overflow);
            },
        };
        let new_total: i128 = match total.checked_add(amount) {
            Some(sum) => sum,
            None => {
                return Err(ContractError::Overflow);
            },
        };
        proof {
            if c0.milestones.len() == 0 {
                lemma_contribution_wf(e0, contributor, amount);
            }
        }
        enter_contribution(env, contributor, amount, new_contribution, new_total);
        Ok(())
    }

    /// Checks a pledge as far as that is possible without asking anybody outside.
    pub fn admit_pledge(env: &Env, pledger: Address, amount: i128) -> (r: Result<
        (),
        ContractError,
    >)
        requires
            env@.campaign.wf(),
        ensures
            r == outcome(pledge_admission_refusal(env@, pledger, amount)),
    {
        if amount < env.campaign.min_contribution {
            return Err(ContractError::BelowMinimum);
        }
        if env.now > env.campaign.deadline {
            return Err(ContractError::CampaignEnded);
        }
        if !env.campaign.pledges.lists(pledger) && !validate_capacity(
            env.campaign.pledges.entries.len(),
            env.limits.max_pledgers,
        ) {
            return Err(ContractError::InvalidParameter);
        }
        Ok(())
    }

    /// Pledges tokens to the campaign without moving them yet.
    ///
    /// The pledger must have signed. `verified` is the KYC verifier's verdict on the
    /// pledger (it plays no part where the KYC gate does not ask for one).
    pub fn pledge(env: &mut Env, pledger: Address, amount: i128, verified: bool) -> (r: Result<
        (),
        ContractError,
    >)
        requires
            old(env)@.campaign.wf(),
            pledge_in_range(old(env)@, pledger, amount, verified),
        ensures
            r == outcome(pledge_refusal(old(env)@, pledger, amount, verified)),
            final(env)@.campaign.wf(),
            final(env)@ == pledged(old(env)@, pledger, amount, verified),
    {
        let ghost e0 = env@;
        let ghost c0 = env@.campaign;
        env.require_auth(pledger);
        match CrowdfundContract::admit_pledge(env, pledger, amount) {
            Err(error) => {
                return Err(error);
            },
            Ok(()) => {},
        }
        if !lets_through(env, pledger, amount, verified) {
            return Err(ContractError::KycRequired);
        }
        proof {
            lemma_pledge_wf(e0, pledger, amount);
        }
        extend_instance_ttl(env);
        let previous: i128 = env.campaign.pledges.amount(pledger);
        let is_new_pledger: bool = !env.campaign.pledges.lists(pledger);
        env.campaign.pledges.set_amount(pledger, previous + amount);
        env.campaign.pledgers_stored = true;
        bump_persistent(env, DataKey::Pledge(pledger));
        env.campaign.total_pledged = env.campaign.total_pledged + amount;
        bump_joined(env, is_new_pledger, DataKey::Pledgers);
        env.record(Effect::Publish { event: Event::Pledged { pledger, amount } });
        proof {
            let expected = e0.with_campaign(after_pledge(c0, pledger, amount)).demand(
                pledger,
            ).send_all(pledge_effects(c0, pledger, amount));
            assert(env@.campaign =~= expected.campaign);
            assert(env@.outbox =~= expected.outbox);
            assert(env@ =~= expected);
        }
        Ok(())
    }
}

} // verus!
