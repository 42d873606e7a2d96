//! What an accepted call does that starts a campaign, changes its settings or keeps it going,
//! said of what was stored before and of the call's arguments.

use vstd::prelude::*;

use crate::accounts::signed_if;
use crate::admin_upgrade_mechanism::{is_zero_hash, rolled_back, upgraded};
use crate::campaign::CampaignView;
use crate::contract_state_size::StateLimits;
use crate::crowdfund_initialize_function::{initialized, InitParams};
use crate::env::{Effect, EnvView};
use crate::goals::{stretch_goal_added, stretch_goal_refusal};
use crate::kyc_gate::{configure_refusal, gate_configured, gate_toggled, toggle_refusal};
use crate::metadata::{
    metadata_refusal, metadata_updated, roadmap_extended, roadmap_refusal, text_or_empty,
};
use crate::outbox::{
    entry_upkeep, goes_on, group_picked, instance_upkeep, lemma_news, lemma_picked_short, moves,
    nothing_done, notice, notices, upkeep,
};
use crate::queries::{keep_alive_effects, nft_contract_refusal, nft_contract_set};
use crate::types::{Address, DataKey, KycGateConfig, RoadmapItem, WasmHash};
use crate::withdraw_event_emission::Event;

verus! {

/// A campaign starts on the terms that it was given, running, with nothing raised or pledged,
/// nobody listed, nothing announced or planned, and no KYC gate. Starting it moves and publishes
/// nothing, and nobody has to sign.
pub proof fn law_campaign_starts_from_nothing(
    limits: StateLimits,
    now: u64,
    contract: Address,
    p: InitParams<Seq<u8>>,
)
    ensures
        ({
            let f = initialized(limits, now, contract, p);
            let c = f.campaign;
            &&& f.limits == limits && f.now == now && f.contract == contract
            &&& f.auths.len() == 0
            &&& f.outbox == seq![instance_upkeep()]
            &&& c.admin == p.admin && c.creator == p.creator
            &&& c.token == p.token && c.token_decimals == p.expected_token_decimals
            &&& c.goal == p.goal && c.deadline == p.deadline
            &&& c.min_contribution == p.min_contribution
            &&& c.platform_config == p.platform_config
            &&& c.bonus_goal == p.bonus_goal
            &&& c.bonus_goal_description == p.bonus_goal_description
            &&& c.status is Active
            &&& c.total_raised == 0 && c.total_pledged == 0
            &&& c.contributions.len() == 0 && c.pledges.len() == 0
            &&& !c.contributors_stored && !c.pledgers_stored
            &&& !c.goal_reached_emitted && !c.bonus_goal_reached_emitted
            &&& c.stretch_goals.len() == 0 && c.stretch_goal_reached_emitted.len() == 0
            &&& c.roadmap.len() == 0
            &&& c.title is None && c.description is None && c.social_links is None
            &&& c.nft_contract is None && c.kyc_gate is None && c.previous_wasm_hash is None
            &&& c.milestones.len() == 0 && c.milestone_basis == 0
            &&& c.milestone_votes.len() == 0 && c.milestone_refunds_claimed.len() == 0
        }),
{
}

/// The one change of a setting: `f` is `e` with the campaign `n`, signed by `who`, after a single
/// publication, if there is one.
pub open spec fn is_setting(
    e: EnvView,
    f: EnvView,
    n: CampaignView,
    who: Address,
    said: Seq<Effect<Seq<u8>>>,
) -> bool {
    &&& goes_on(e, f)
    &&& f.campaign == n
    &&& f.auths == e.auths.push(who)
    &&& moves(e, f).len() == 0
    &&& notices(e, f) == said
    &&& upkeep(e, f) == seq![instance_upkeep()]
}

/// What extends the instance and publishes one event is told apart.
proof fn lemma_setting(e: EnvView, f: EnvView, said: Effect<Seq<u8>>)
    requires
        f.outbox == e.outbox.push(instance_upkeep()).push(said),
        said is Publish,
    ensures
        f.outbox.take(e.outbox.len() as int) == e.outbox,
        moves(e, f).len() == 0,
        notices(e, f) == seq![said],
        upkeep(e, f) == seq![instance_upkeep()],
{
    let sent = seq![instance_upkeep(), said];
    assert(f.outbox =~= e.outbox + sent);
    lemma_news(e, f, sent);
    lemma_picked_short(sent);
    assert(notices(e, f) =~= seq![said]);
    assert(upkeep(e, f) =~= seq![instance_upkeep()]);
}

/// What only extends the instance is told apart.
proof fn lemma_silent_setting(e: EnvView, f: EnvView)
    requires
        f.outbox == e.outbox.push(instance_upkeep()),
    ensures
        f.outbox.take(e.outbox.len() as int) == e.outbox,
        moves(e, f).len() == 0,
        notices(e, f) == Seq::<Effect<Seq<u8>>>::empty(),
        upkeep(e, f) == seq![instance_upkeep()],
{
    let sent = seq![instance_upkeep()];
    assert(f.outbox =~= e.outbox + sent);
    lemma_news(e, f, sent);
    lemma_picked_short(sent);
    assert(notices(e, f) =~= Seq::empty());
    assert(upkeep(e, f) =~= seq![instance_upkeep()]);
}

/// An update of the metadata puts each new text in its field, leaves the fields without one
/// alone, and publishes which fields are new. Refused, it does nothing; the creator must have
/// signed unless the campaign has ended or somebody else calls.
pub proof fn law_metadata_is_replaced_field_by_field(
    e: EnvView,
    creator: Address,
    title: Option<Seq<u8>>,
    description: Option<Seq<u8>>,
    socials: Option<Seq<u8>>,
)
    ensures
        metadata_refusal(e, creator, title, description, socials) is Some ==> {
            let f = metadata_updated(e, creator, title, description, socials);
            let asked = e.campaign.status is Active && creator == e.campaign.creator;
            nothing_done(e, f) && f.auths == signed_if(e, creator, asked)
        },
        metadata_refusal(e, creator, title, description, socials) is None ==> {
            let c = e.campaign;
            let f = metadata_updated(e, creator, title, description, socials);
            let n = f.campaign;
            let said = notice(
                Event::MetadataUpdated {
                    creator: c.creator,
                    title_updated: title is Some,
                    description_updated: description is Some,
                    socials_updated: socials is Some,
                },
            );
            &&& n.title == (if title is Some {
                title
            } else {
                c.title
            })
            &&& n.description == (if description is Some {
                description
            } else {
                c.description
            })
            &&& n.social_links == (if socials is Some {
                socials
            } else {
                c.social_links
            })
            &&& is_setting(
                e,
                f,
                CampaignView {
                    title: n.title,
                    description: n.description,
                    social_links: n.social_links,
                    ..c
                },
                c.creator,
                seq![said],
            )
        },
{
    if metadata_refusal(e, creator, title, description, socials) is None {
        lemma_setting(
            e,
            metadata_updated(e, creator, title, description, socials),
            notice(
                Event::MetadataUpdated {
                    creator,
                    title_updated: title is Some,
                    description_updated: description is Some,
                    socials_updated: socials is Some,
                },
            ),
        );
    }
}

/// A text that was never set reads as empty, any other as it was set.
pub proof fn law_texts_read_as_set(text: Seq<u8>)
    ensures
        text_or_empty(None).len() == 0,
        text_or_empty(Some(text)) == text,
{
}

/// A roadmap item is put at the end of the roadmap and published. Refused, it does nothing. The
/// creator must have signed either way.
pub proof fn law_roadmap_grows_at_its_end(e: EnvView, date: u64, description: Seq<u8>)
    ensures
        roadmap_refusal(e, date, description) is Some ==> {
            let f = roadmap_extended(e, date, description);
            nothing_done(e, f) && f.auths == e.auths.push(e.campaign.creator)
        },
        roadmap_refusal(e, date, description) is None ==> is_setting(
            e,
            roadmap_extended(e, date, description),
            CampaignView {
                roadmap: e.campaign.roadmap.push(RoadmapItem { date, description }),
                ..e.campaign
            },
            e.campaign.creator,
            seq![notice(Event::RoadmapItemAdded { date, description })],
        ),
{
    if roadmap_refusal(e, date, description) is None {
        lemma_setting(
            e,
            roadmap_extended(e, date, description),
            notice(Event::RoadmapItemAdded { date, description }),
        );
    }
}

/// A stretch goal is put at the end of the list, and nothing is published. Refused, it does
/// nothing. The creator must have signed either way.
pub proof fn law_stretch_goals_grow_at_their_end(e: EnvView, milestone: i128)
    ensures
        stretch_goal_refusal(e, milestone) is Some ==> {
            let f = stretch_goal_added(e, milestone);
            nothing_done(e, f) && f.auths == e.auths.push(e.campaign.creator)
        },
        stretch_goal_refusal(e, milestone) is None ==> is_setting(
            e,
            stretch_goal_added(e, milestone),
            CampaignView { stretch_goals: e.campaign.stretch_goals.push(milestone), ..e.campaign },
            e.campaign.creator,
            Seq::empty(),
        ),
{
    if stretch_goal_refusal(e, milestone) is None {
        lemma_silent_setting(e, stretch_goal_added(e, milestone));
    }
}

/// The NFT contract that the creator names takes the place of any other. A refused call does
/// nothing, and nobody has to sign it.
pub proof fn law_nft_contract_is_replaced(e: EnvView, creator: Address, nft_contract: Address)
    ensures
        nft_contract_refusal(e, creator) is Some ==> nft_contract_set(e, creator, nft_contract)
            == e,
        nft_contract_refusal(e, creator) is None ==> is_setting(
            e,
            nft_contract_set(e, creator, nft_contract),
            CampaignView { nft_contract: Some(nft_contract), ..e.campaign },
            e.campaign.creator,
            Seq::empty(),
        ),
{
    if nft_contract_refusal(e, creator) is None {
        lemma_silent_setting(e, nft_contract_set(e, creator, nft_contract));
    }
}

/// Configuring the KYC gate replaces its configuration and switches it on; the configuration is
/// published. A refused call does nothing, and nobody has to sign it.
pub proof fn law_configuring_switches_the_gate_on(
    e: EnvView,
    admin: Address,
    verifier: Address,
    threshold: i128,
    jurisdiction: Seq<u8>,
)
    ensures
        configure_refusal(e, admin) is Some ==> gate_configured(
            e,
            admin,
            verifier,
            threshold,
            jurisdiction,
        ) == e,
        configure_refusal(e, admin) is None ==> is_setting(
            e,
            gate_configured(e, admin, verifier, threshold, jurisdiction),
            CampaignView {
                kyc_gate: Some(
                    KycGateConfig { verifier, threshold, enabled: true, jurisdiction },
                ),
                ..e.campaign
            },
            e.campaign.admin,
            seq![notice(Event::KycGateConfigured { verifier, threshold, jurisdiction })],
        ),
{
    if configure_refusal(e, admin) is None {
        lemma_setting(
            e,
            gate_configured(e, admin, verifier, threshold, jurisdiction),
            notice(Event::KycGateConfigured { verifier, threshold, jurisdiction }),
        );
    }
}

/// Switching the KYC gate changes its switch and leaves verifier, threshold and jurisdiction
/// alone; the switch is published. A refused call does nothing; the admin must have signed even
/// one for want of a configuration.
pub proof fn law_switching_leaves_the_configuration(e: EnvView, admin: Address, enabled: bool)
    ensures
        toggle_refusal(e, admin) is Some ==> {
            let f = gate_toggled(e, admin, enabled);
            nothing_done(e, f) && f.auths == signed_if(e, admin, admin == e.campaign.admin)
        },
        toggle_refusal(e, admin) is None ==> {
            let f = gate_toggled(e, admin, enabled);
            let before = e.campaign.kyc_gate->0;
            let gate = f.campaign.kyc_gate->0;
            &&& f.campaign.kyc_gate is Some
            &&& gate.enabled == enabled
            &&& gate.verifier == before.verifier
            &&& gate.threshold == before.threshold
            &&& gate.jurisdiction == before.jurisdiction
            &&& is_setting(
                e,
                f,
                CampaignView { kyc_gate: f.campaign.kyc_gate, ..e.campaign },
                e.campaign.admin,
                seq![notice(Event::KycGateToggled { enabled })],
            )
        },
{
    if toggle_refusal(e, admin) is None {
        lemma_setting(
            e,
            gate_toggled(e, admin, enabled),
            notice(Event::KycGateToggled { enabled }),
        );
    }
}

/// An upgrade puts the new code in force, keeps the hash of the current one as the way back, and
/// is published; a rollback puts the code under the given hash in force, is published, and
/// changes nothing that is stored. The admin must have signed both. Only the hash of zeros names
/// no code.
pub proof fn law_upgrade_replaces_the_code(
    e: EnvView,
    new_wasm_hash: WasmHash,
    current_wasm_hash: WasmHash,
)
    ensures
        is_zero_hash(new_wasm_hash) <==> new_wasm_hash == (WasmHash { hi: 0, lo: 0 }),
        ({
            let c = e.campaign;
            let f = upgraded(e, new_wasm_hash, current_wasm_hash);
            &&& goes_on(e, f)
            &&& f.campaign == (CampaignView { previous_wasm_hash: Some(current_wasm_hash), ..c })
            &&& f.auths == e.auths.push(c.admin)
            &&& moves(e, f) == seq![Effect::<Seq<u8>>::UpdateWasm { hash: new_wasm_hash }]
            &&& notices(e, f) == seq![
                notice(Event::Upgrade { admin: c.admin, current_wasm_hash, new_wasm_hash }),
            ]
            &&& upkeep(e, f) == seq![instance_upkeep()]
        }),
        ({
            let c = e.campaign;
            let f = rolled_back(e, current_wasm_hash);
            &&& goes_on(e, f)
            &&& f.campaign == c
            &&& f.auths == e.auths.push(c.admin)
            &&& moves(e, f) == seq![Effect::<Seq<u8>>::UpdateWasm { hash: current_wasm_hash }]
            &&& notices(e, f) == seq![
                notice(Event::Rollback { admin: c.admin, restored_hash: current_wasm_hash }),
            ]
            &&& upkeep(e, f) == seq![instance_upkeep()]
        }),
{
    let admin = e.campaign.admin;
    lemma_code_change(
        e,
        upgraded(e, new_wasm_hash, current_wasm_hash),
        new_wasm_hash,
        notice(Event::Upgrade { admin, current_wasm_hash, new_wasm_hash }),
    );
    lemma_code_change(
        e,
        rolled_back(e, current_wasm_hash),
        current_wasm_hash,
        notice(Event::Rollback { admin, restored_hash: current_wasm_hash }),
    );
}

/// What extends the instance, replaces the code and publishes one event is told apart.
proof fn lemma_code_change(e: EnvView, f: EnvView, hash: WasmHash, said: Effect<Seq<u8>>)
    requires
        f.outbox == e.outbox.push(instance_upkeep()).push(Effect::UpdateWasm { hash }).push(said),
        said is Publish,
    ensures
        f.outbox.take(e.outbox.len() as int) == e.outbox,
        moves(e, f) == seq![Effect::<Seq<u8>>::UpdateWasm { hash }],
        notices(e, f) == seq![said],
        upkeep(e, f) == seq![instance_upkeep()],
{
    let change = Effect::<Seq<u8>>::UpdateWasm { hash };
    let sent = seq![instance_upkeep(), change, said];
    assert(f.outbox =~= e.outbox + sent);
    lemma_news(e, f, sent);
    lemma_picked_short(sent);
    assert(moves(e, f) =~= seq![change]);
    assert(notices(e, f) =~= seq![said]);
    assert(upkeep(e, f) =~= seq![instance_upkeep()]);
}

/// Keeping alive extends the instance and each of the two lists that is stored, and publishes
/// that it did; it moves nothing.
pub proof fn law_keeping_alive_extends_what_is_stored(e: EnvView)
    ensures
        ({
            let c = e.campaign;
            let f = e.send_all(keep_alive_effects(c));
            &&& goes_on(e, f)
            &&& f.campaign == c
            &&& f.auths == e.auths
            &&& moves(e, f).len() == 0
            &&& notices(e, f) == seq![notice(Event::KeepAlive)]
            &&& upkeep(e, f) == seq![instance_upkeep()] + (if c.contributors_stored {
                seq![entry_upkeep(DataKey::Contributors)]
            } else {
                Seq::empty()
            }) + (if c.pledgers_stored {
                seq![entry_upkeep(DataKey::Pledgers)]
            } else {
                Seq::empty()
            })
        }),
{
    broadcast use group_picked;

    let c = e.campaign;
    let f = e.send_all(keep_alive_effects(c));
    lemma_news(e, f, keep_alive_effects(c));
    assert(moves(e, f) =~= Seq::empty());
    assert(notices(e, f) =~= seq![notice(Event::<Seq<u8>>::KeepAlive)]);
    assert(upkeep(e, f) =~= seq![instance_upkeep()] + (if c.contributors_stored {
        seq![entry_upkeep(DataKey::Contributors)]
    } else {
        Seq::empty()
    }) + (if c.pledgers_stored {
        seq![entry_upkeep(DataKey::Pledgers)]
    } else {
        Seq::empty()
    }));
}

/// A query extends the instance and does nothing else.
pub proof fn law_queries_only_extend_the_instance(e: EnvView)
    ensures
        ({
            let f = e.extended();
            &&& goes_on(e, f)
            &&& f.campaign == e.campaign
            &&& f.auths == e.auths
            &&& moves(e, f).len() == 0
            &&& notices(e, f).len() == 0
            &&& upkeep(e, f) == seq![instance_upkeep()]
        }),
{
    lemma_silent_setting(e, e.extended());
}

} // verus!
