//! What an accepted call on a milestone schedule moves, writes down and publishes, said of what
//! was stored before and of the call's arguments.

use vstd::prelude::*;

use crate::accounts::{is_split, law_fee_is_its_basis_points, signed_if, split_payments};
use crate::book::{amount_of, lemma_amount_nonneg};
use crate::campaign::CampaignView;
use crate::env::EnvView;
use crate::milestone_release::{
    claim_effects, claim_refusal, claimed, finalize_refusal, lemma_numbered, lemma_release_wf,
    proposal_refusal, proposed, release_effects, release_refusal, released, vote_cast, vote_effects,
    vote_finalized, vote_refusal, MilestonePolicy, VoteThresholds,
};
use crate::outbox::{
    entry_upkeep, goes_on, group_picked, instance_upkeep, lemma_news, lemma_picked_short, moves,
    nothing_done, notice, notices, payment, upkeep,
};
use crate::types::{
    Address, DataKey, Milestone, MilestoneInput, MilestoneRefundKey, MilestoneStatus,
    MilestoneVoteKey,
};
use crate::withdraw::{fee_effects, fee_for, lemma_fee_bounds};
use crate::withdraw_event_emission::Event;

verus! {

/// A release pays the milestone's amount out: the platform's fee to the platform, all the rest
/// to the creator, and nothing to anybody else. The total falls by the amount, the milestone
/// reads as released, and nothing else that is stored changes.
pub proof fn law_release_pays_the_creator(e: EnvView, creator: Address, milestone_id: u32)
    requires
        e.campaign.wf(),
        release_refusal(e, creator, milestone_id) is None,
    ensures
        ({
            let c = e.campaign;
            let f = released(e, creator, milestone_id);
            let n = f.campaign;
            let m = c.milestones[milestone_id as int];
            exists|fee: int| #[trigger]
                is_split(e, m.amount as int, fee) && {
                    &&& goes_on(e, f)
                    &&& moves(e, f) == split_payments(e, m.amount as int, fee)
                    &&& notices(e, f) == (if fee > 0 {
                        seq![
                            notice(
                                Event::FeeTransferred {
                                    platform: c.platform_config->0.address,
                                    fee: fee as i128,
                                },
                            ),
                        ]
                    } else {
                        Seq::empty()
                    }) + seq![
                        notice(
                            Event::MilestoneReleased {
                                milestone_id,
                                creator: c.creator,
                                payout: (m.amount - fee) as i128,
                                platform_fee: fee as i128,
                            },
                        ),
                    ]
                    &&& upkeep(e, f) == seq![instance_upkeep()]
                    &&& f.auths == e.auths.push(c.creator)
                    &&& n.total_raised == c.total_raised - m.amount
                    &&& n.milestones.len() == c.milestones.len()
                    &&& n.milestones[milestone_id as int] == (Milestone {
                        status: MilestoneStatus::Released,
                        ..m
                    })
                    &&& forall|i: int|
                        0 <= i < c.milestones.len() && i != milestone_id ==> (
                        #[trigger] n.milestones[i]) == c.milestones[i]
                    &&& n == (CampaignView {
                        total_raised: n.total_raised,
                        milestones: n.milestones,
                        ..c
                    })
                }
        }),
{
    broadcast use group_picked;

    let c = e.campaign;
    let f = released(e, creator, milestone_id);
    let m = c.milestones[milestone_id as int];
    let amount = m.amount as int;
    let fee = fee_for(c, amount);
    lemma_numbered(c.milestones, milestone_id, 0);
    lemma_release_wf(e, creator, milestone_id);
    law_fee_is_its_basis_points(c, amount, 0);
    if let Some(config) = c.platform_config {
        lemma_fee_bounds(amount, config.fee_bps);
    }
    lemma_news(e, f, release_effects(e, milestone_id));
    lemma_picked_short(fee_effects(e, fee));
    lemma_picked_short(
        seq![
            payment(c.token, e.contract, c.creator, amount - fee),
            notice(
                Event::MilestoneReleased {
                    milestone_id,
                    creator: c.creator,
                    payout: (amount - fee) as i128,
                    platform_fee: fee as i128,
                },
            ),
        ],
    );
    assert(moves(e, f) =~= split_payments(e, amount, fee));
    assert(upkeep(e, f) =~= seq![instance_upkeep()]);
    assert(is_split(e, amount, fee));
}

/// An accepted vote adds the voter's contribution to its own side and nothing to the other. It
/// approves the milestone if it is in favour and its side then has the weight that approval
/// takes, rejects it if it is against and its side then has the weight that rejection takes,
/// and leaves it pending otherwise, whatever the other side weighs. A decision is published
/// exactly when there is one. No other milestone changes, and nothing moves.
pub proof fn law_vote_decides_at_its_threshold(
    e: EnvView,
    thresholds: VoteThresholds,
    voter: Address,
    milestone_id: u32,
    approve: bool,
)
    requires
        e.campaign.wf(),
        vote_refusal(e, voter, milestone_id, approve) is None,
    ensures
        ({
            let c = e.campaign;
            let f = vote_cast(e, thresholds, voter, milestone_id, approve);
            let n = f.campaign;
            let weight = amount_of(c.contributions, voter);
            let before = c.milestones[milestone_id as int];
            let after = n.milestones[milestone_id as int];
            let key = MilestoneVoteKey { milestone_id, voter };
            let approved = approve && after.yes_weight >= thresholds.approval;
            let rejected = !approve && after.no_weight >= thresholds.rejection;
            &&& after.yes_weight == before.yes_weight + (if approve {
                weight
            } else {
                0
            })
            &&& after.no_weight == before.no_weight + (if approve {
                0
            } else {
                weight
            })
            &&& after.status is Approved <==> approved
            &&& after.status is Rejected <==> rejected
            &&& after.status is Pending <==> !approved && !rejected
            &&& after == (Milestone {
                status: after.status,
                yes_weight: after.yes_weight,
                no_weight: after.no_weight,
                ..before
            })
            &&& n.milestones.len() == c.milestones.len()
            &&& forall|i: int|
                0 <= i < c.milestones.len() && i != milestone_id ==> (#[trigger] n.milestones[i])
                    == c.milestones[i]
            &&& n.milestone_votes == c.milestone_votes.push(key)
            &&& n == (CampaignView {
                milestones: n.milestones,
                milestone_votes: n.milestone_votes,
                ..c
            })
            &&& goes_on(e, f)
            &&& f.auths == e.auths.push(voter)
            &&& moves(e, f).len() == 0
            &&& notices(e, f) == seq![
                notice(
                    Event::MilestoneVoteCast {
                        milestone_id,
                        voter,
                        approve,
                        weight: weight as i128,
                        yes_weight: after.yes_weight,
                        no_weight: after.no_weight,
                    },
                ),
            ] + (if after.status is Pending {
                Seq::empty()
            } else {
                seq![
                    notice(
                        Event::MilestoneResolved {
                            milestone_id,
                            approved: approve,
                            yes_weight: after.yes_weight,
                            no_weight: after.no_weight,
                        },
                    ),
                ]
            })
            &&& upkeep(e, f) == seq![instance_upkeep(), entry_upkeep(DataKey::MilestoneVote(key))]
        }),
{
    broadcast use group_picked;

    let c = e.campaign;
    let f = vote_cast(e, thresholds, voter, milestone_id, approve);
    let sent = vote_effects(c, thresholds, voter, milestone_id, approve);
    lemma_numbered(c.milestones, milestone_id, 0);
    lemma_amount_nonneg(c.contributions, voter);
    lemma_news(e, f, sent);
    lemma_picked_short(sent);
    assert(upkeep(e, f) =~= seq![
        instance_upkeep(),
        entry_upkeep(DataKey::MilestoneVote(MilestoneVoteKey { milestone_id, voter })),
    ]);
}

/// Finalizing rejects the milestone with the weights it has, and changes and moves nothing
/// else. Nobody has to sign.
pub proof fn law_finalizing_rejects(e: EnvView, milestone_id: u32)
    requires
        e.campaign.wf(),
        finalize_refusal(e, milestone_id) is None,
    ensures
        ({
            let c = e.campaign;
            let f = vote_finalized(e, milestone_id);
            let n = f.campaign;
            let before = c.milestones[milestone_id as int];
            &&& n.milestones.len() == c.milestones.len()
            &&& n.milestones[milestone_id as int] == (Milestone {
                status: MilestoneStatus::Rejected,
                ..before
            })
            &&& forall|i: int|
                0 <= i < c.milestones.len() && i != milestone_id ==> (#[trigger] n.milestones[i])
                    == c.milestones[i]
            &&& n == (CampaignView { milestones: n.milestones, ..c })
            &&& goes_on(e, f)
            &&& f.auths == e.auths
            &&& moves(e, f).len() == 0
            &&& notices(e, f) == seq![
                notice(
                    Event::MilestoneResolved {
                        milestone_id,
                        approved: false,
                        yes_weight: before.yes_weight,
                        no_weight: before.no_weight,
                    },
                ),
            ]
            &&& upkeep(e, f) == seq![instance_upkeep()]
        }),
{
    let c = e.campaign;
    let f = vote_finalized(e, milestone_id);
    lemma_numbered(c.milestones, milestone_id, 0);
    let m = c.milestones[milestone_id as int];
    let sent = seq![
        instance_upkeep(),
        notice(
            Event::MilestoneResolved {
                milestone_id,
                approved: false,
                yes_weight: m.yes_weight,
                no_weight: m.no_weight,
            },
        ),
    ];
    assert(f.outbox =~= e.outbox + sent);
    lemma_news(e, f, sent);
    lemma_picked_short(sent);
    assert(notices(e, f) =~= seq![sent[1]]);
    assert(upkeep(e, f) =~= seq![instance_upkeep()]);
}

/// Whether `share` is what a contribution is due out of an amount: in proportion to the basis,
/// rounded down.
pub open spec fn is_share(amount: int, contribution: int, basis: int, share: int) -> bool {
    share * basis <= amount * contribution < (share + 1) * basis
}

/// A claim pays the contributor the milestone's amount in proportion to the contribution's part
/// of the basis, rounded down: no more, and no whole unit less. It is put on record, the total
/// falls by it, and nothing else changes or moves.
pub proof fn law_claim_pays_in_proportion(e: EnvView, contributor: Address, milestone_id: u32)
    requires
        e.campaign.wf(),
        e.campaign.total_raised <= i128::MAX,
        claim_refusal(e, contributor, milestone_id) is None,
    ensures
        ({
            let c = e.campaign;
            let f = claimed(e, contributor, milestone_id);
            let n = f.campaign;
            let m = c.milestones[milestone_id as int];
            let share = c.total_raised - n.total_raised;
            let key = MilestoneRefundKey { milestone_id, contributor };
            &&& is_share(
                m.amount as int,
                amount_of(c.contributions, contributor),
                c.milestone_basis as int,
                share,
            )
            &&& 0 < share <= m.amount
            &&& n.milestone_refunds_claimed == c.milestone_refunds_claimed.push(key)
            &&& n == (CampaignView {
                total_raised: n.total_raised,
                milestone_refunds_claimed: n.milestone_refunds_claimed,
                ..c
            })
            &&& goes_on(e, f)
            &&& f.auths == e.auths.push(contributor)
            &&& moves(e, f) == seq![payment(c.token, e.contract, contributor, share)]
            &&& notices(e, f) == seq![
                notice(
                    Event::MilestoneRefundClaimed {
                        milestone_id,
                        contributor,
                        amount: share as i128,
                    },
                ),
            ]
            &&& upkeep(e, f) == seq![
                instance_upkeep(),
                entry_upkeep(DataKey::MilestoneRefundClaimed(key)),
            ]
        }),
{
    let c = e.campaign;
    let f = claimed(e, contributor, milestone_id);
    let m = c.milestones[milestone_id as int];
    lemma_numbered(c.milestones, milestone_id, 0);
    lemma_amount_nonneg(c.contributions, contributor);
    let amount = m.amount as int;
    let weight = amount_of(c.contributions, contributor);
    let basis = c.milestone_basis as int;
    let product = amount * weight;
    let share = product / basis;
    assert(share * basis <= product < (share + 1) * basis) by (nonlinear_arith)
        requires
            share == product / basis,
            basis > 0,
    ;
    assert(share <= amount) by (nonlinear_arith)
        requires
            share * basis <= amount * weight,
            0 <= weight <= basis,
            amount > 0,
            basis > 0,
    ;
    let sent = claim_effects(e, contributor, milestone_id);
    lemma_news(e, f, sent);
    lemma_picked_short(sent);
    let key = MilestoneRefundKey { milestone_id, contributor };
    assert(moves(e, f) =~= seq![payment(c.token, e.contract, contributor, share)]);
    assert(notices(e, f) =~= seq![sent[3]]);
    assert(upkeep(e, f) =~= seq![
        instance_upkeep(),
        entry_upkeep(DataKey::MilestoneRefundClaimed(key)),
    ]);
}

/// A schedule that is accepted is drawn up row by row: numbered from 0, with each row's amount
/// and description, pending, without votes, and open to votes for the voting period. What is
/// raised becomes its basis; nothing moves.
pub proof fn law_schedule_is_drawn_up_row_by_row(
    e: EnvView,
    policy: MilestonePolicy,
    creator: Address,
    rows: Seq<MilestoneInput<Seq<u8>>>,
)
    requires
        e.campaign.wf(),
        e.campaign.total_raised <= i128::MAX,
        e.now + policy.voting_period <= u64::MAX,
        proposal_refusal(e, policy, creator, rows) is None,
    ensures
        ({
            let c = e.campaign;
            let f = proposed(e, policy, creator, rows);
            let n = f.campaign;
            &&& n.milestones.len() == rows.len()
            &&& forall|i: int|
                0 <= i < rows.len() ==> {
                    let m = #[trigger] n.milestones[i];
                    &&& m.id == i
                    &&& m.amount == rows[i].amount
                    &&& m.description == rows[i].description
                    &&& m.status is Pending
                    &&& m.yes_weight == 0
                    &&& m.no_weight == 0
                    &&& m.voting_deadline == e.now + policy.voting_period
                }
            &&& n.milestone_basis == c.total_raised
            &&& n == (CampaignView {
                milestones: n.milestones,
                milestone_basis: n.milestone_basis,
                ..c
            })
            &&& goes_on(e, f)
            &&& f.auths == e.auths.push(creator)
            &&& moves(e, f).len() == 0
            &&& notices(e, f) == seq![
                notice(
                    Event::MilestonesProposed {
                        creator: c.creator,
                        count: rows.len() as u32,
                        total_raised: c.total_raised as i128,
                    },
                ),
            ]
            &&& upkeep(e, f) == seq![instance_upkeep()]
        }),
{
    let c = e.campaign;
    let f = proposed(e, policy, creator, rows);
    let sent = seq![
        instance_upkeep(),
        notice(
            Event::MilestonesProposed {
                creator,
                count: rows.len() as u32,
                total_raised: c.total_raised as i128,
            },
        ),
    ];
    assert(f.outbox =~= e.outbox + sent);
    lemma_news(e, f, sent);
    lemma_picked_short(sent);
    assert(notices(e, f) =~= seq![sent[1]]);
    assert(upkeep(e, f) =~= seq![instance_upkeep()]);
}

/// Refused calls on milestones leave everything as it was; who must have signed them even so is
/// whoever is named as the caller, for a schedule or a release only if that is the creator.
pub proof fn law_refused_milestone_calls_do_nothing(
    e: EnvView,
    policy: MilestonePolicy,
    rows: Seq<MilestoneInput<Seq<u8>>>,
    thresholds: VoteThresholds,
    who: Address,
    milestone_id: u32,
    approve: bool,
)
    ensures
        proposal_refusal(e, policy, who, rows) is Some ==> {
            let f = proposed(e, policy, who, rows);
            nothing_done(e, f) && f.auths == signed_if(e, who, who == e.campaign.creator)
        },
        vote_refusal(e, who, milestone_id, approve) is Some ==> {
            let f = vote_cast(e, thresholds, who, milestone_id, approve);
            nothing_done(e, f) && f.auths == signed_if(e, who, true)
        },
        finalize_refusal(e, milestone_id) is Some ==> vote_finalized(e, milestone_id) == e,
        release_refusal(e, who, milestone_id) is Some ==> {
            let f = released(e, who, milestone_id);
            nothing_done(e, f) && f.auths == signed_if(e, who, who == e.campaign.creator)
        },
        claim_refusal(e, who, milestone_id) is Some ==> {
            let f = claimed(e, who, milestone_id);
            nothing_done(e, f) && f.auths == signed_if(e, who, true)
        },
{
}

} // verus!
