//! What an accepted call moves, writes down and publishes, said of what was stored before and
//! of the call's arguments: contributions and pledges, payouts, refunds and batches.

use vstd::prelude::*;

use crate::batch::{
    attempt, batch_result, cancel_refusal, cancelled, collect_refusal, collected, lemma_settled,
    moved, refund_refusal, refunded, reply_effects, settled, skipped, walk_effects, walked,
    BatchKind,
};
use crate::book::{
    amount_of, book_wf, lemma_amount_nonneg, lemma_place_unique, lemma_with_amount, listed,
    place_of, total, with_amount, Entry,
};
use crate::campaign::CampaignView;
use crate::contribute::{
    bonus_goal_effects, contribute_refusal, contributed, contribution_effects,
    crossed_stretch_goals, goal_effects, joining_effects, lemma_newly_reached, newly_reached,
    pledge_effects, pledge_refusal, pledged, stretch_goal_effects,
};
use crate::env::{Effect, EnvView};
use crate::outbox::{
    entry_upkeep, goes_on, group_picked, instance_upkeep, lemma_news, lemma_picked_short,
    lemma_picked_uniform, moves, nothing_done, notice, notices, payment, picked, upkeep, Purpose,
};
use crate::refund_single_token::{
    refund_single_effects, refund_single_refusal, refunded_single,
};
use crate::types::{Address, DataKey, PlatformConfig, Status};
use crate::withdraw::{
    fee_effects, fee_for, lemma_fee_bounds, platform_fee, withdraw_refusal, withdrawal_effects,
    withdrawn,
};
use crate::withdraw_event_emission::{mint_effects, minted_count, nft_effects, Event};

verus! {

/// Who must have signed, with `who` among them if `asked`.
pub open spec fn signed_if(e: EnvView, who: Address, asked: bool) -> Seq<Address> {
    if asked {
        e.auths.push(who)
    } else {
        e.auths
    }
}

// Contributions and pledges

/// `after` is the book `before` with `amount` added to what stands to `who`'s name: in the line
/// that is there, or in a new last line. Every other line is as it was.
pub open spec fn is_credited(
    before: Seq<Entry>,
    after: Seq<Entry>,
    who: Address,
    amount: int,
) -> bool {
    &&& listed(after, who)
    &&& amount_of(after, who) == amount_of(before, who) + amount
    &&& after.len() == before.len() + (if listed(before, who) {
        0int
    } else {
        1int
    })
    &&& !listed(before, who) ==> after.last().who == who
    &&& forall|i: int|
        0 <= i < before.len() && before[i].who != who ==> (#[trigger] after[i]) == before[i]
    &&& forall|i: int|
        0 <= i < before.len() && before[i].who == who ==> (#[trigger] after[i]).who == who
    &&& total(after) == total(before) + amount
}

/// Crediting a participant.
proof fn lemma_credited(s: Seq<Entry>, who: Address, amount: i128)
    requires
        book_wf(s),
        amount >= 0,
        amount_of(s, who) + amount <= i128::MAX,
    ensures
        is_credited(
            s,
            with_amount(s, who, (amount_of(s, who) + amount) as i128),
            who,
            amount as int,
        ),
{
    lemma_amount_nonneg(s, who);
    lemma_with_amount(s, who, (amount_of(s, who) + amount) as i128);
    if listed(s, who) {
        let p = place_of(s, who);
        assert forall|i: int| 0 <= i < s.len() && s[i].who != who implies i != p by {
        }
    }
}

/// What stands earlier in `fresh` appears earlier in `goals`.
pub open spec fn in_order_of(goals: Seq<i128>, fresh: Seq<i128>) -> bool {
    forall|i: int, j: int, q: int|
        0 <= i < j < fresh.len() && 0 <= q < goals.len() && #[trigger] goals[q]
            == #[trigger] fresh[j] ==> goals.take(q).contains(#[trigger] fresh[i])
}

/// Newly met stretch goals come in the order in which they were added.
proof fn lemma_news_in_order(goals: Seq<i128>, announced: Seq<i128>, raised: int, k: int)
    requires
        0 <= k <= goals.len(),
    ensures
        in_order_of(goals, newly_reached(goals, announced, raised, k)),
    decreases k,
{
    if k > 0 {
        lemma_news_in_order(goals, announced, raised, k - 1);
        let before = newly_reached(goals, announced, raised, k - 1);
        let fresh = newly_reached(goals, announced, raised, k);
        lemma_newly_reached(goals, announced, raised, k - 1);
        assert forall|i: int, j: int, q: int|
            0 <= i < j < fresh.len() && 0 <= q < goals.len() && #[trigger] goals[q]
                == #[trigger] fresh[j] implies goals.take(q).contains(#[trigger] fresh[i]) by {
            assert(fresh[i] == before[i]);
            if j < before.len() {
                assert(fresh[j] == before[j]);
            } else {
                assert(before.contains(before[i]));
                let p = goals.take(k - 1).index_of(before[i]);
                if q < k - 1 {
                    assert(goals.take(k - 1)[q] == goals[q]);
                }
                assert(goals.take(q)[p] == before[i]);
            }
        }
    }
}

/// The stretch goals that are news at a total of `raised`: those of the campaign that it meets
/// and that were not announced, each once, in the order in which they were added.
pub open spec fn is_news_of_marks(c: CampaignView, raised: int, fresh: Seq<i128>) -> bool {
    &&& fresh.no_duplicates()
    &&& in_order_of(c.stretch_goals, fresh)
    &&& forall|goal: i128| #[trigger]
        fresh.contains(goal) <==> c.stretch_goals.contains(goal) && raised >= goal
            && !c.stretch_goal_reached_emitted.contains(goal)
}

/// Whether a rise from `before` to `after` meets a goal for the first time.
pub open spec fn first_met(announced: bool, before: int, after: int, goal: Option<i128>) -> bool {
    goal matches Some(goal) && !announced && before < goal && after >= goal
}

/// An accepted contribution moves its amount from the contributor to the contract and nothing
/// else; the contributor's standing and the total rise by it. It announces the goal, the bonus
/// goal and each stretch goal that the total now meets and that was not announced before, and
/// notes each as announced; then it is published itself. Nothing else changes.
pub proof fn law_contribution_is_taken_and_announced(
    e: EnvView,
    who: Address,
    amount: i128,
    verified: bool,
    decimals: u32,
)
    requires
        e.campaign.wf(),
        contribute_refusal(e, who, amount, verified, decimals) is None,
    ensures
        ({
            let c = e.campaign;
            let f = contributed(e, who, amount, verified, decimals);
            let n = f.campaign;
            let raised = c.total_raised + amount;
            let goal = first_met(c.goal_reached_emitted, c.total_raised, raised, Some(c.goal));
            let bonus = first_met(
                c.bonus_goal_reached_emitted,
                c.total_raised,
                raised,
                c.bonus_goal,
            );
            let fresh = n.stretch_goal_reached_emitted.skip(
                c.stretch_goal_reached_emitted.len() as int,
            );
            &&& goes_on(e, f)
            &&& f.auths == e.auths.push(who)
            &&& moves(e, f) == seq![payment(c.token, who, e.contract, amount as int)]
            &&& is_credited(c.contributions, n.contributions, who, amount as int)
            &&& n.total_raised == raised
            &&& n.contributors_stored
            &&& n.goal_reached_emitted == (c.goal_reached_emitted || goal)
            &&& n.bonus_goal_reached_emitted == (c.bonus_goal_reached_emitted || bonus)
            &&& n.stretch_goal_reached_emitted == c.stretch_goal_reached_emitted + fresh
            &&& is_news_of_marks(c, raised, fresh)
            &&& n == (CampaignView {
                contributions: n.contributions,
                contributors_stored: n.contributors_stored,
                total_raised: n.total_raised,
                goal_reached_emitted: n.goal_reached_emitted,
                bonus_goal_reached_emitted: n.bonus_goal_reached_emitted,
                stretch_goal_reached_emitted: n.stretch_goal_reached_emitted,
                ..c
            })
            &&& notices(e, f) == (if goal {
                seq![notice(Event::GoalReached { total_raised: raised as i128, goal: c.goal })]
            } else {
                Seq::empty()
            }) + (if bonus {
                seq![notice(Event::BonusGoalReached { bonus_goal: c.bonus_goal->0 })]
            } else {
                Seq::empty()
            }) + fresh.map_values(
                |milestone: i128|
                    notice(
                        Event::StretchGoalReached { milestone, total_raised: raised as i128 },
                    ),
            ) + seq![
                notice(Event::Contributed { backer: who, amount, total_raised: raised as i128 }),
            ]
            &&& upkeep(e, f) == seq![
                instance_upkeep(),
                entry_upkeep(DataKey::Contribution(who)),
            ] + (if listed(c.contributions, who) {
                Seq::empty()
            } else {
                seq![entry_upkeep(DataKey::Contributors)]
            })
        }),
{
    broadcast use group_picked;

    let c = e.campaign;
    let x = amount as int;
    let f = contributed(e, who, amount, verified, decimals);
    let n = f.campaign;
    let raised = c.total_raised + amount;
    let fresh = crossed_stretch_goals(c, x);
    lemma_credited(c.contributions, who, amount);
    let len = c.stretch_goals.len() as int;
    assert(c.stretch_goals.take(len) =~= c.stretch_goals);
    lemma_newly_reached(c.stretch_goals, c.stretch_goal_reached_emitted, raised, len);
    lemma_news_in_order(c.stretch_goals, c.stretch_goal_reached_emitted, raised, len);
    assert(n.stretch_goal_reached_emitted.skip(c.stretch_goal_reached_emitted.len() as int)
        =~= fresh);
    lemma_news(e, f, contribution_effects(e, who, amount));
    let head = seq![
        instance_upkeep(),
        payment(c.token, who, e.contract, x),
        entry_upkeep(DataKey::Contribution(who)),
    ];
    lemma_picked_short(head);
    lemma_picked_short(goal_effects(c, x));
    lemma_picked_short(bonus_goal_effects(c, x));
    lemma_picked_uniform(stretch_goal_effects(c, x), Purpose::Notice);
    lemma_picked_short(joining_effects(!listed(c.contributions, who), DataKey::Contributors));
    let marks = fresh.map_values(
        |milestone: i128|
            notice(
                Event::<Seq<u8>>::StretchGoalReached { milestone, total_raised: raised as i128 },
            ),
    );
    assert(stretch_goal_effects(c, x) =~= marks);
    assert(moves(e, f) =~= seq![payment(c.token, who, e.contract, x)]);
    assert(upkeep(e, f) =~= seq![instance_upkeep(), entry_upkeep(DataKey::Contribution(who))]
        + joining_effects(!listed(c.contributions, who), DataKey::Contributors));
    assert(notices(e, f) =~= goal_effects(c, x) + bonus_goal_effects(c, x) + marks + seq![
        notice(
            Event::<Seq<u8>>::Contributed { backer: who, amount, total_raised: raised as i128 },
        ),
    ]);
}

/// An accepted pledge raises what the pledger has pledged and what is pledged in all by its
/// amount, and moves nothing.
pub proof fn law_pledge_is_noted_and_moves_nothing(
    e: EnvView,
    who: Address,
    amount: i128,
    verified: bool,
)
    requires
        e.campaign.wf(),
        pledge_refusal(e, who, amount, verified) is None,
        e.campaign.total_pledged + amount <= i128::MAX,
    ensures
        ({
            let c = e.campaign;
            let f = pledged(e, who, amount, verified);
            let n = f.campaign;
            &&& goes_on(e, f)
            &&& f.auths == e.auths.push(who)
            &&& moves(e, f).len() == 0
            &&& is_credited(c.pledges, n.pledges, who, amount as int)
            &&& n.total_pledged == c.total_pledged + amount
            &&& n.pledgers_stored
            &&& n == (CampaignView {
                pledges: n.pledges,
                pledgers_stored: n.pledgers_stored,
                total_pledged: n.total_pledged,
                ..c
            })
            &&& notices(e, f) == seq![notice(Event::Pledged { pledger: who, amount })]
            &&& upkeep(e, f) == seq![instance_upkeep(), entry_upkeep(DataKey::Pledge(who))] + (
            if listed(c.pledges, who) {
                Seq::empty()
            } else {
                seq![entry_upkeep(DataKey::Pledgers)]
            })
        }),
{
    broadcast use group_picked;

    let c = e.campaign;
    let f = pledged(e, who, amount, verified);
    lemma_amount_nonneg(c.pledges, who);
    lemma_credited(c.pledges, who, amount);
    lemma_news(e, f, pledge_effects(c, who, amount));
    lemma_picked_short(seq![instance_upkeep(), entry_upkeep(DataKey::Pledge(who))]);
    lemma_picked_short(joining_effects(!listed(c.pledges, who), DataKey::Pledgers));
    assert(moves(e, f) =~= Seq::empty());
    assert(notices(e, f) =~= seq![notice(Event::<Seq<u8>>::Pledged { pledger: who, amount })]);
    assert(upkeep(e, f) =~= seq![instance_upkeep(), entry_upkeep(DataKey::Pledge(who))]
        + joining_effects(!listed(c.pledges, who), DataKey::Pledgers));
}

/// A contribution or pledge that is refused leaves everything as it was; the caller must have
/// signed it even so.
pub proof fn law_refused_commitments_do_nothing(
    e: EnvView,
    who: Address,
    amount: i128,
    verified: bool,
    decimals: u32,
)
    ensures
        contribute_refusal(e, who, amount, verified, decimals) is Some ==> {
            let f = contributed(e, who, amount, verified, decimals);
            nothing_done(e, f) && f.auths == e.auths.push(who)
        },
        pledge_refusal(e, who, amount, verified) is Some ==> {
            let f = pledged(e, who, amount, verified);
            nothing_done(e, f) && f.auths == e.auths.push(who)
        },
{
}

// Payouts

/// Whether `fee` is what the platform is due out of `amount`: its basis points, rounded down.
pub open spec fn is_fee(config: Option<PlatformConfig>, amount: int, fee: int) -> bool {
    match config {
        Some(config) => fee * 10_000 <= amount * config.fee_bps < (fee + 1) * 10_000,
        None => fee == 0,
    }
}

/// The fee is the platform's basis points of the amount, rounded down: no more, and no whole
/// unit less. A larger amount never costs less, and the fee on a sum is that on its parts, give
/// or take a unit.
pub proof fn law_fee_is_its_basis_points(c: CampaignView, amount: int, more: int)
    requires
        c.platform_config matches Some(config) ==> config.fee_bps < 10_000,
        0 <= amount,
        0 <= more,
    ensures
        is_fee(c.platform_config, amount, fee_for(c, amount)),
        fee_for(c, amount) <= fee_for(c, amount + more),
        fee_for(c, amount) + fee_for(c, more) <= fee_for(c, amount + more) <= fee_for(c, amount)
            + fee_for(c, more) + 1,
{
    if let Some(config) = c.platform_config {
        let bps = config.fee_bps as int;
        lemma_fee_bounds(amount, config.fee_bps);
        lemma_fee_bounds(more, config.fee_bps);
        assert((amount + more) * bps == amount * bps + more * bps) by (nonlinear_arith);
    }
}

/// The split of a payout: the platform's fee, if it comes to anything, and the rest for the
/// creator.
pub open spec fn is_split(e: EnvView, amount: int, fee: int) -> bool {
    &&& is_fee(e.campaign.platform_config, amount, fee)
    &&& 0 <= fee
    &&& fee < amount
}

/// The payments of a payout of `amount` with the given fee.
pub open spec fn split_payments(e: EnvView, amount: int, fee: int) -> Seq<
    Effect<Seq<u8>>,
> {
    let c = e.campaign;
    (if fee > 0 {
        seq![payment(c.token, e.contract, c.platform_config->0.address, fee)]
    } else {
        Seq::empty()
    }) + seq![payment(c.token, e.contract, c.creator, amount - fee)]
}

/// The NFTs that are due for the first `k` lines: one for each contributor with something to
/// their name, in the order in which they joined, the first fifty only.
pub open spec fn rewards(nft_contract: Address, s: Seq<Entry>, k: int) -> Seq<Effect<Seq<u8>>>
    decreases k,
{
    if k <= 0 {
        Seq::empty()
    } else {
        let before = rewards(nft_contract, s, k - 1);
        if s[k - 1].amount > 0 && before.len() < 50 {
            before.push(Effect::Mint { nft_contract, to: s[k - 1].who })
        } else {
            before
        }
    }
}

/// The mints of a batch are the rewards that are due.
proof fn lemma_rewards(nft_contract: Address, s: Seq<Entry>, k: int)
    requires
        0 <= k <= s.len(),
    ensures
        mint_effects(nft_contract, s.take(k)) == rewards(nft_contract, s, k),
        minted_count(s.take(k)) == rewards(nft_contract, s, k).len(),
    decreases k,
{
    reveal(Seq::filter);
    let t = s.take(k);
    if k > 0 {
        lemma_rewards(nft_contract, s, k - 1);
        assert(t.drop_last() =~= s.take(k - 1));
        assert(t.last() == s[k - 1]);
        assert(mint_effects(nft_contract, t) =~= rewards(nft_contract, s, k));
    } else {
        assert(t =~= Seq::empty());
        assert(mint_effects(nft_contract, t) =~= rewards(nft_contract, s, 0));
    }
}

/// A payout pays all that is raised: the platform's fee to the platform, all the rest to the
/// creator; then the reward NFTs are minted. The campaign has succeeded, nothing is left of the
/// total, and nothing else that is stored changes.
pub proof fn law_payout_pays_the_creator_and_rewards(e: EnvView)
    requires
        e.campaign.wf(),
        e.campaign.total_raised <= i128::MAX,
        withdraw_refusal(e) is None,
    ensures
        ({
            let c = e.campaign;
            let f = withdrawn(e);
            let n = f.campaign;
            let mints = match c.nft_contract {
                Some(nft) => rewards(nft, c.contributions, c.contributions.len() as int),
                None => Seq::empty(),
            };
            exists|fee: int| #[trigger]
                is_split(e, c.total_raised, fee) && {
                    &&& goes_on(e, f)
                    &&& f.auths == e.auths.push(c.creator)
                    &&& moves(e, f) == split_payments(e, c.total_raised, fee) + mints
                    &&& notices(e, f) == (if fee > 0 {
                        seq![
                            notice(
                                Event::FeeTransferred {
                                    platform: c.platform_config->0.address,
                                    fee: fee as i128,
                                },
                            ),
                        ]
                    } else {
                        Seq::empty()
                    }) + (if mints.len() > 0 {
                        seq![notice(Event::NftBatchMinted { minted_count: mints.len() as u32 })]
                    } else {
                        Seq::empty()
                    }) + seq![
                        notice(
                            Event::Withdrawn {
                                creator: c.creator,
                                amount: (c.total_raised - fee) as i128,
                                platform_fee: fee as i128,
                            },
                        ),
                    ]
                    &&& upkeep(e, f) == seq![instance_upkeep()]
                    &&& n == (CampaignView { total_raised: 0, status: Status::Successful, ..c })
                }
        }),
{
    broadcast use group_picked;

    let c = e.campaign;
    let f = withdrawn(e);
    let s = c.contributions;
    let amount = c.total_raised;
    let fee = platform_fee(c);
    law_fee_is_its_basis_points(c, amount, 0);
    if let Some(config) = c.platform_config {
        lemma_fee_bounds(amount, config.fee_bps);
    }
    lemma_news(e, f, withdrawal_effects(e));
    lemma_picked_short(fee_effects(e, fee));
    if let Some(nft) = c.nft_contract {
        assert(s.take(s.len() as int) =~= s);
        lemma_rewards(nft, s, s.len() as int);
        lemma_picked_uniform(mint_effects(nft, s), Purpose::Move);
    }
    let mints = match c.nft_contract {
        Some(nft) => rewards(nft, s, s.len() as int),
        None => Seq::empty(),
    };
    assert(picked(nft_effects(c.nft_contract, s), Purpose::Move) =~= mints);
    assert(moves(e, f) =~= split_payments(e, amount, fee) + mints);
    assert(upkeep(e, f) =~= seq![instance_upkeep()]);
    assert(is_split(e, amount, fee));
}

/// A payout that is refused leaves everything as it was; the creator must have signed it even
/// so where the campaign runs and has no schedule.
pub proof fn law_refused_payout_does_nothing(e: EnvView)
    requires
        withdraw_refusal(e) is Some,
    ensures
        nothing_done(e, withdrawn(e)),
        withdrawn(e).auths == signed_if(
            e,
            e.campaign.creator,
            e.campaign.status is Active && e.campaign.milestones.len() == 0,
        ),
{
}

// Refunds

/// A refund to one contributor pays exactly what stands to the contributor's name, clears that
/// line, takes it off the total, and touches nothing else. Refused, it does nothing. Either way
/// the contributor must have signed.
pub proof fn law_refund_clears_one_line(e: EnvView, who: Address)
    requires
        e.campaign.wf(),
    ensures
        refunded_single(e, who).auths == e.auths.push(who),
        refund_single_refusal(e, who) is Some ==> nothing_done(e, refunded_single(e, who)),
        refund_single_refusal(e, who) is None ==> {
            let c = e.campaign;
            let f = refunded_single(e, who);
            let n = f.campaign;
            let s = c.contributions;
            let t = n.contributions;
            let amount = amount_of(s, who);
            &&& goes_on(e, f)
            &&& moves(e, f) == seq![payment(c.token, e.contract, who, amount)]
            &&& t.len() == s.len()
            &&& forall|i: int|
                0 <= i < s.len() ==> (#[trigger] t[i]) == (if s[i].who == who {
                    Entry { who, amount: 0 }
                } else {
                    s[i]
                })
            &&& n.total_raised == c.total_raised - amount
            &&& n == (CampaignView { contributions: t, total_raised: n.total_raised, ..c })
            &&& notices(e, f) == seq![
                notice(Event::Refunded { backer: who, amount: amount as i128 }),
            ]
            &&& upkeep(e, f) == seq![
                instance_upkeep(),
                entry_upkeep(DataKey::Contribution(who)),
            ]
        },
{
    if refund_single_refusal(e, who) is None {
        let c = e.campaign;
        let f = refunded_single(e, who);
        let s = c.contributions;
        let t = f.campaign.contributions;
        let p = place_of(s, who);
        lemma_amount_nonneg(s, who);
        assert forall|i: int| 0 <= i < s.len() implies (#[trigger] t[i]) == (if s[i].who == who {
            Entry { who, amount: 0 }
        } else {
            s[i]
        }) by {
            assert(s[p].who == who);
            if s[i].who == who {
                lemma_place_unique(s, i);
            }
        }
        let sent = refund_single_effects(e, who);
        lemma_news(e, f, sent);
        lemma_picked_short(sent);
        assert(moves(e, f) =~= seq![payment(c.token, e.contract, who, amount_of(s, who))]);
        assert(notices(e, f) =~= seq![sent[3]]);
        assert(upkeep(e, f) =~= seq![instance_upkeep(), entry_upkeep(DataKey::Contribution(who))]);
    }
}

// Batches

/// The account book that a batch settles.
pub open spec fn lines(kind: BatchKind, c: CampaignView) -> Seq<Entry> {
    if kind is CollectPledges {
        c.pledges
    } else {
        c.contributions
    }
}

/// The transfers that are tried for the first `k` lines: one for each with something on it, for
/// all that is on it, from a pledger to the contract or from the contract to a contributor.
pub open spec fn tries(kind: BatchKind, e: EnvView, s: Seq<Entry>, k: int) -> Seq<Effect<Seq<u8>>>
    decreases k,
{
    if k <= 0 {
        Seq::empty()
    } else if s[k - 1].amount <= 0 {
        tries(kind, e, s, k - 1)
    } else {
        let who = s[k - 1].who;
        let pledge = kind is CollectPledges;
        tries(kind, e, s, k - 1).push(
            Effect::TryTransfer {
                token: e.campaign.token,
                from: if pledge {
                    who
                } else {
                    e.contract
                },
                to: if pledge {
                    e.contract
                } else {
                    who
                },
                amount: s[k - 1].amount,
            },
        )
    }
}

/// What is published of the first `k` lines: each transfer that failed as skipped, and each
/// that paid a contributor back as refunded.
pub open spec fn reports(kind: BatchKind, s: Seq<Entry>, delivered: Seq<bool>, k: int) -> Seq<
    Effect<Seq<u8>>,
>
    decreases k,
{
    if k <= 0 {
        Seq::empty()
    } else {
        let before = reports(kind, s, delivered, k - 1);
        let line = s[k - 1];
        if line.amount > 0 && !delivered[k - 1] {
            before.push(
                notice(
                    Event::TransferSkipped {
                        participant: line.who,
                        amount: line.amount,
                        context: kind,
                    },
                ),
            )
        } else if line.amount > 0 && kind !is CollectPledges {
            before.push(notice(Event::Refunded { backer: line.who, amount: line.amount }))
        } else {
            before
        }
    }
}

/// The upkeep of the first `k` lines that have something on them.
pub open spec fn line_upkeep(kind: BatchKind, s: Seq<Entry>, k: int) -> Seq<Effect<Seq<u8>>>
    decreases k,
{
    if k <= 0 {
        Seq::empty()
    } else if s[k - 1].amount <= 0 {
        line_upkeep(kind, s, k - 1)
    } else if kind is CollectPledges {
        line_upkeep(kind, s, k - 1).push(entry_upkeep(DataKey::Pledge(s[k - 1].who)))
    } else {
        line_upkeep(kind, s, k - 1).push(entry_upkeep(DataKey::Contribution(s[k - 1].who)))
    }
}

/// Every line that had something on it was tried; those whose transfer went through are
/// cleared, all others are as they were.
pub open spec fn is_worked_off(
    kind: BatchKind,
    e: EnvView,
    f: EnvView,
    delivered: Seq<bool>,
) -> bool {
    let s = lines(kind, e.campaign);
    let t = lines(kind, f.campaign);
    let len = s.len() as int;
    &&& goes_on(e, f)
    &&& moves(e, f) == tries(kind, e, s, len)
    &&& upkeep(e, f) == seq![instance_upkeep()] + line_upkeep(kind, s, len)
    &&& t.len() == s.len()
    &&& forall|i: int|
        0 <= i < len ==> (#[trigger] t[i]).who == s[i].who && t[i].amount == (if s[i].amount > 0
            && delivered[i] {
            0
        } else {
            s[i].amount
        })
}

/// Whether the transfer of every line that had something on it went through.
pub open spec fn all_through(s: Seq<Entry>, delivered: Seq<bool>) -> bool {
    forall|i: int| 0 <= i < s.len() && (#[trigger] s[i]).amount > 0 ==> delivered[i]
}

/// What the walk over a book asks of the host.
proof fn lemma_walk(kind: BatchKind, e: EnvView, s: Seq<Entry>, delivered: Seq<bool>, k: int)
    requires
        0 <= k <= s.len(),
    ensures
        picked(walk_effects(kind, e, s, delivered, k), Purpose::Move) == tries(kind, e, s, k),
        picked(walk_effects(kind, e, s, delivered, k), Purpose::Notice) == reports(
            kind,
            s,
            delivered,
            k,
        ),
        picked(walk_effects(kind, e, s, delivered, k), Purpose::Upkeep) == line_upkeep(kind, s, k),
    decreases k,
{
    broadcast use group_picked;

    if k > 0 {
        lemma_walk(kind, e, s, delivered, k - 1);
        let line = s[k - 1];
        if line.amount > 0 {
            let before = walk_effects(kind, e, s, delivered, k - 1);
            let reply = reply_effects(kind, line, delivered[k - 1]);
            let all = walk_effects(kind, e, s, delivered, k);
            assert(all == before.push(attempt(kind, e, line)) + reply);
            lemma_picked_short(reply);
            assert(picked(all, Purpose::Move) =~= tries(kind, e, s, k));
            assert(picked(all, Purpose::Notice) =~= reports(kind, s, delivered, k));
            assert(picked(all, Purpose::Upkeep) =~= line_upkeep(kind, s, k));
        }
    }
}

/// No transfer was skipped exactly when all went through.
proof fn lemma_none_skipped(s: Seq<Entry>, delivered: Seq<bool>, k: int)
    requires
        0 <= k <= s.len(),
    ensures
        skipped(s, delivered, k) >= 0,
        skipped(s, delivered, k) == 0 <==> forall|i: int|
            0 <= i < k && (#[trigger] s[i]).amount > 0 ==> delivered[i],
    decreases k,
{
    if k > 0 {
        lemma_none_skipped(s, delivered, k - 1);
        if s[k - 1].amount > 0 && !delivered[k - 1] {
            assert(!(0 <= k - 1 < k && s[k - 1].amount > 0 ==> delivered[k - 1]));
        }
    }
}

/// What a batch that was opened as `e` and is closed as `f` comes to; `closing` is what it
/// publishes in the end.
proof fn lemma_batch(
    kind: BatchKind,
    e: EnvView,
    opened: EnvView,
    delivered: Seq<bool>,
    closing: Seq<Effect<Seq<u8>>>,
)
    requires
        opened.campaign == e.campaign,
        opened.limits == e.limits,
        opened.now == e.now,
        opened.contract == e.contract,
        opened.outbox == e.outbox.push(instance_upkeep()),
        lines(kind, e.campaign).len() <= delivered.len(),
        book_wf(lines(kind, e.campaign)),
        batch_result(kind, opened, delivered).outbox == walked(
            kind,
            opened,
            delivered,
            lines(kind, e.campaign).len() as int,
        ).outbox + closing,
        closing.len() <= 1,
        forall|i: int| 0 <= i < closing.len() ==> (#[trigger] closing[i]) is Publish,
    ensures
        is_worked_off(kind, e, batch_result(kind, opened, delivered), delivered),
        notices(e, batch_result(kind, opened, delivered)) == reports(
            kind,
            lines(kind, e.campaign),
            delivered,
            lines(kind, e.campaign).len() as int,
        ) + closing,
        moved(lines(kind, e.campaign), delivered, lines(kind, e.campaign).len() as int) == total(
            lines(kind, e.campaign),
        ) - total(lines(kind, batch_result(kind, opened, delivered).campaign)),
        skipped(lines(kind, e.campaign), delivered, lines(kind, e.campaign).len() as int) == 0
            <==> all_through(lines(kind, e.campaign), delivered),
{
    broadcast use group_picked;

    let s = lines(kind, e.campaign);
    let len = s.len() as int;
    let f = batch_result(kind, opened, delivered);
    let walk = walk_effects(kind, opened, s, delivered, len);
    let sent = seq![instance_upkeep()] + walk + closing;
    assert(f.outbox =~= e.outbox + sent);
    lemma_news(e, f, sent);
    lemma_walk(kind, opened, s, delivered, len);
    lemma_tries(kind, e, opened, s, len);
    lemma_picked_uniform(closing, Purpose::Notice);
    lemma_settled(s, delivered, len);
    lemma_none_skipped(s, delivered, len);
    assert(lines(kind, f.campaign) == settled(s, delivered, len));
    assert(moves(e, f) =~= tries(kind, e, s, len));
    assert(notices(e, f) =~= reports(kind, s, delivered, len) + closing);
    assert(upkeep(e, f) =~= seq![instance_upkeep()] + line_upkeep(kind, s, len));
}

/// The transfers depend on the invocation only by its token and contract.
proof fn lemma_tries(kind: BatchKind, e: EnvView, f: EnvView, s: Seq<Entry>, k: int)
    requires
        0 <= k <= s.len(),
        e.campaign.token == f.campaign.token,
        e.contract == f.contract,
    ensures
        tries(kind, e, s, k) == tries(kind, f, s, k),
    decreases k,
{
    if k > 0 {
        lemma_tries(kind, e, f, s, k - 1);
    }
}

/// Collecting tries every pledge and turns what came in from pledged into raised. A pledge whose
/// transfer failed stays. Nothing else changes; nobody has to sign. Refused, it does nothing.
pub proof fn law_collecting_works_off_the_pledges(e: EnvView, delivered: Seq<bool>)
    requires
        e.campaign.wf(),
        e.campaign.pledges.len() <= delivered.len(),
    ensures
        collect_refusal(e) is Some ==> collected(e, delivered) == e,
        collect_refusal(e) is None ==> {
            let c = e.campaign;
            let f = collected(e, delivered);
            let n = f.campaign;
            let amount = total(c.pledges) - total(n.pledges);
            &&& is_worked_off(BatchKind::CollectPledges, e, f, delivered)
            &&& notices(e, f) == reports(
                BatchKind::CollectPledges,
                c.pledges,
                delivered,
                c.pledges.len() as int,
            ) + seq![notice(Event::PledgesCollected { collected_total: amount as i128 })]
            &&& f.auths == e.auths
            &&& n.total_raised == c.total_raised + amount
            &&& n.total_pledged == c.total_pledged - amount
            &&& n == (CampaignView {
                pledges: n.pledges,
                total_raised: n.total_raised,
                total_pledged: n.total_pledged,
                ..c
            })
        },
{
    if collect_refusal(e) is None {
        let kind = BatchKind::CollectPledges;
        let s = e.campaign.pledges;
        let len = s.len() as int;
        let opened = e.extended();
        let closing = seq![
            notice(
                Event::<Seq<u8>>::PledgesCollected {
                    collected_total: moved(s, delivered, len) as i128,
                },
            ),
        ];
        assert(batch_result(kind, opened, delivered).outbox =~= walked(
            kind,
            opened,
            delivered,
            len,
        ).outbox + closing);
        lemma_batch(kind, e, opened, delivered, closing);
    }
}

/// A refund to everybody tries every contribution and takes what went out off the total. A
/// contribution whose transfer failed stays, and so does the campaign's status then; only if
/// all went through the campaign is refunded. Nothing else changes; nobody has to sign. Refused,
/// it does nothing.
pub proof fn law_refund_works_off_the_contributions(e: EnvView, delivered: Seq<bool>)
    requires
        e.campaign.wf(),
        e.campaign.contributions.len() <= delivered.len(),
    ensures
        refund_refusal(e) is Some ==> refunded(e, delivered) == e,
        refund_refusal(e) is None ==> {
            let c = e.campaign;
            let f = refunded(e, delivered);
            let n = f.campaign;
            &&& is_worked_off(BatchKind::Refund, e, f, delivered)
            &&& notices(e, f) == reports(
                BatchKind::Refund,
                c.contributions,
                delivered,
                c.contributions.len() as int,
            )
            &&& f.auths == e.auths
            &&& n.total_raised == c.total_raised - (total(c.contributions) - total(
                n.contributions,
            ))
            &&& n.status == (if all_through(c.contributions, delivered) {
                Status::Refunded
            } else {
                Status::Active
            })
            &&& n == (CampaignView {
                contributions: n.contributions,
                total_raised: n.total_raised,
                status: n.status,
                ..c
            })
        },
{
    if refund_refusal(e) is None {
        let kind = BatchKind::Refund;
        let len = e.campaign.contributions.len() as int;
        let opened = e.extended();
        assert(batch_result(kind, opened, delivered).outbox =~= walked(
            kind,
            opened,
            delivered,
            len,
        ).outbox + Seq::empty());
        lemma_batch(kind, e, opened, delivered, Seq::empty());
        assert(notices(e, refunded(e, delivered)) =~= reports(
            kind,
            e.campaign.contributions,
            delivered,
            len,
        ));
    }
}

/// Cancelling tries every contribution and takes what went out off the total. A contribution
/// whose transfer failed stays, and so does the campaign's status then; only if all went through
/// the campaign is cancelled, which is then published. Nothing else changes; the creator must
/// have signed. Refused, it does nothing.
pub proof fn law_cancelling_works_off_the_contributions(e: EnvView, delivered: Seq<bool>)
    requires
        e.campaign.wf(),
        e.campaign.contributions.len() <= delivered.len(),
    ensures
        cancel_refusal(e) is Some ==> cancelled(e, delivered) == e,
        cancel_refusal(e) is None ==> {
            let c = e.campaign;
            let f = cancelled(e, delivered);
            let n = f.campaign;
            let through = all_through(c.contributions, delivered);
            &&& is_worked_off(BatchKind::Cancel, e, f, delivered)
            &&& notices(e, f) == reports(
                BatchKind::Cancel,
                c.contributions,
                delivered,
                c.contributions.len() as int,
            ) + (if through {
                seq![notice(Event::Cancelled)]
            } else {
                Seq::empty()
            })
            &&& f.auths == e.auths.push(c.creator)
            &&& n.total_raised == c.total_raised - (total(c.contributions) - total(
                n.contributions,
            ))
            &&& n.status == (if through {
                Status::Cancelled
            } else {
                Status::Active
            })
            &&& n == (CampaignView {
                contributions: n.contributions,
                total_raised: n.total_raised,
                status: n.status,
                ..c
            })
        },
{
    if cancel_refusal(e) is None {
        let kind = BatchKind::Cancel;
        let s = e.campaign.contributions;
        let len = s.len() as int;
        let opened = e.extended().demand(e.campaign.creator);
        let closing = if skipped(s, delivered, len) == 0 {
            seq![notice(Event::<Seq<u8>>::Cancelled)]
        } else {
            Seq::empty()
        };
        assert(batch_result(kind, opened, delivered).outbox =~= walked(
            kind,
            opened,
            delivered,
            len,
        ).outbox + closing);
        lemma_batch(kind, e, opened, delivered, closing);
    }
}

} // verus!
