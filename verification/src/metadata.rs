//! Title, description, social links and roadmap of a campaign.

use vstd::prelude::*;

use crate::campaign::{text_len, CampaignView};
use crate::contract_state_size::{validate_capacity, validate_length};
use crate::env::{extend_instance_ttl, publication, Effect, Env, EnvView};
use crate::types::{
    copy_text, outcome, text_view, Address, ContractError, CrowdfundContract, RoadmapItem, Status,
    Text,
};
use crate::withdraw_event_emission::Event;

verus! {

/// What a field holds after an update that may leave it alone.
pub open spec fn updated(current: Option<Seq<u8>>, new: Option<Seq<u8>>) -> Option<Seq<u8>> {
    if new is Some {
        new
    } else {
        current
    }
}

/// How long title, description and social links together are after an update.
pub open spec fn metadata_length(
    c: CampaignView,
    title: Option<Seq<u8>>,
    description: Option<Seq<u8>>,
    socials: Option<Seq<u8>>,
) -> nat {
    text_len(updated(c.title, title)) + text_len(updated(c.description, description)) + text_len(
        updated(c.social_links, socials),
    )
}

/// Why an update of the metadata is refused before any length is looked at, if it is.
pub open spec fn metadata_guard(e: EnvView, creator: Address) -> Option<ContractError> {
    if e.campaign.status !is Active {
        Some(ContractError::CampaignNotActive)
    } else if creator != e.campaign.creator {
        Some(ContractError::Unauthorized)
    } else {
        None
    }
}

/// Whether adding up the lengths of an admissible update stays within its type.
pub open spec fn lengths_in_range(
    e: EnvView,
    creator: Address,
    title: Option<Seq<u8>>,
    description: Option<Seq<u8>>,
    socials: Option<Seq<u8>>,
) -> bool {
    metadata_guard(e, creator) is None ==> metadata_length(
        e.campaign,
        title,
        description,
        socials,
    ) <= u32::MAX
}

/// Why an update of the metadata is refused, if it is.
pub open spec fn metadata_refusal(
    e: EnvView,
    creator: Address,
    title: Option<Seq<u8>>,
    description: Option<Seq<u8>>,
    socials: Option<Seq<u8>>,
) -> Option<ContractError> {
    if metadata_guard(e, creator) is Some {
        metadata_guard(e, creator)
    } else if metadata_length(e.campaign, title, description, socials) > e.limits.max_metadata_total
        || text_len(title) > e.limits.max_title || text_len(description) > e.limits.max_description
        || text_len(socials) > e.limits.max_social_links {
        Some(ContractError::InvalidParameter)
    } else {
        None
    }
}

/// The invocation after a call that updates the metadata.
pub open spec fn metadata_updated(
    e: EnvView,
    creator: Address,
    title: Option<Seq<u8>>,
    description: Option<Seq<u8>>,
    socials: Option<Seq<u8>>,
) -> EnvView {
    if metadata_guard(e, creator) is Some {
        e
    } else if metadata_refusal(e, creator, title, description, socials) is Some {
        e.demand(creator)
    } else {
        e.with_campaign(
            CampaignView {
                title: updated(e.campaign.title, title),
                description: updated(e.campaign.description, description),
                social_links: updated(e.campaign.social_links, socials),
                ..e.campaign
            },
        ).demand(creator).extended().send(
            publication(
                Event::MetadataUpdated {
                    creator,
                    title_updated: title is Some,
                    description_updated: description is Some,
                    socials_updated: socials is Some,
                },
            ),
        )
    }
}

/// Whether a roadmap item may be added.
pub open spec fn roadmap_item_fits(e: EnvView, date: u64, description: Seq<u8>) -> bool {
    &&& date > e.now
    &&& 0 < description.len() <= e.limits.max_string_len
    &&& e.campaign.roadmap.len() < e.limits.max_roadmap_items
    &&& forall|i: int|
        0 <= i < e.campaign.roadmap.len() ==> (#[trigger] e.campaign.roadmap[i]).description.len()
            <= e.limits.max_roadmap_description
}

/// Why adding a roadmap item is refused, if it is.
pub open spec fn roadmap_refusal(e: EnvView, date: u64, description: Seq<u8>) -> Option<
    ContractError,
> {
    if roadmap_item_fits(e, date, description) {
        None
    } else {
        Some(ContractError::InvalidParameter)
    }
}

/// The invocation after a call that adds a roadmap item.
pub open spec fn roadmap_extended(e: EnvView, date: u64, description: Seq<u8>) -> EnvView {
    if roadmap_refusal(e, date, description) is Some {
        e.demand(e.campaign.creator)
    } else {
        e.with_campaign(
            CampaignView {
                roadmap: e.campaign.roadmap.push(RoadmapItem { date, description }),
                ..e.campaign
            },
        ).demand(e.campaign.creator).extended().send(
            publication(Event::RoadmapItemAdded { date, description }),
        )
    }
}

/// The length that a text field has after an update.
fn updated_length(current: &Option<Text>, new: &Option<Text>) -> (r: usize)
    ensures
        r == text_len(updated(text_view(*current), text_view(*new))),
{
    match new {
        Some(text) => text.len(),
        None => match current {
            Some(text) => text.len(),
            None => 0,
        },
    }
}

/// Whether an optional text is within a bound.
fn validate_optional(text: &Option<Text>, max: u32) -> (r: bool)
    ensures
        r == (text_len(text_view(*text)) <= max),
{
    match text {
        Some(t) => validate_length(t.len(), max),
        None => true,
    }
}

/// Puts a new text in a field; `None` keeps what is there. Returns whether there was a
/// new text.
fn replace_text(field: &mut Option<Text>, new: Option<Text>) -> (replaced: bool)
    ensures
        replaced == (new is Some),
        text_view(*final(field)) == updated(text_view(*old(field)), text_view(new)),
{
    if new.is_some() {
        *field = new;
        true
    } else {
        false
    }
}

/// Whether every description on a roadmap is within a bound.
fn descriptions_fit(roadmap: &Vec<RoadmapItem<Text>>, max: u32) -> (r: bool)
    ensures
        r == (forall|i: int|
            0 <= i < roadmap@.len() ==> (#[trigger] roadmap@[i])@.description.len() <= max),
{
    let mut i: usize = 0;
    while i < roadmap.len()
        invariant
            i <= roadmap@.len(),
            forall|j: int| 0 <= j < i ==> (#[trigger] roadmap@[j])@.description.len() <= max,
        decreases roadmap@.len() - i,
    {
        if !validate_length(roadmap[i].description.len(), max) {
            assert(roadmap@[i as int]@.description.len() > max);
            return false;
        }
        i = i + 1;
    }
    true
}

/// Copies a roadmap.
fn copy_roadmap(roadmap: &Vec<RoadmapItem<Text>>) -> (r: Vec<RoadmapItem<Text>>)
    ensures
        r@.map_values(|item: RoadmapItem<Text>| item@) == roadmap@.map_values(
            |item: RoadmapItem<Text>| item@,
        ),
{
    let mut r: Vec<RoadmapItem<Text>> = Vec::new();
    let mut i: usize = 0;
    while i < roadmap.len()
        invariant
            i <= roadmap@.len(),
            r@.len() == i,
            forall|j: int| 0 <= j < i ==> (#[trigger] r@[j])@ == roadmap@[j]@,
        decreases roadmap@.len() - i,
    {
        r.push(
            RoadmapItem {
                date: roadmap[i].date,
                description: copy_text(&roadmap[i].description),
            },
        );
        i = i + 1;
    }
    assert(r@.map_values(|item: RoadmapItem<Text>| item@) =~= roadmap@.map_values(
        |item: RoadmapItem<Text>| item@,
    ));
    r
}

impl CrowdfundContract {
    /// Checks whether `creator` may update the metadata, before any length is looked at.
    pub fn admit_metadata_update(env: &Env, creator: Address) -> (r: Result<(), ContractError>)
        ensures
            r == outcome(metadata_guard(env@, creator)),
    {
        if env.campaign.status != Status::Active {
            return Err(ContractError::CampaignNotActive);
        }
        if creator != env.campaign.creator {
            return Err(ContractError::Unauthorized);
        }
        Ok(())
    }

    /// Updates the campaign's metadata while it is active; `None` keeps a field. The
    /// caller must be the creator and must have signed.
    pub fn update_metadata(
        env: &mut Env,
        creator: Address,
        title: Option<Text>,
        description: Option<Text>,
        socials: Option<Text>,
    ) -> (r: Result<(), ContractError>)
        requires
            old(env)@.campaign.wf(),
            lengths_in_range(
                old(env)@,
                creator,
                text_view(title),
                text_view(description),
                text_view(socials),
            ),
        ensures
            r == outcome(
                metadata_refusal(
                    old(env)@,
                    creator,
                    text_view(title),
                    text_view(description),
                    text_view(socials),
                ),
            ),
            final(env)@.campaign.wf(),
            final(env)@ == metadata_updated(
                old(env)@,
                creator,
                text_view(title),
                text_view(description),
                text_view(socials),
            ),
    {
        match CrowdfundContract::admit_metadata_update(env, creator) {
            Err(error) => {
                return Err(error);
            },
            Ok(()) => {},
        }
        env.require_auth(creator);
        let title_length: usize = updated_length(&env.campaign.title, &title);
        let description_length: usize = updated_length(&env.campaign.description, &description);
        let socials_length: usize = updated_length(&env.campaign.social_links, &socials);
        if !validate_length(
            title_length + description_length + socials_length,
            env.limits.max_metadata_total,
        ) {
            return Err(ContractError::InvalidParameter);
        }
        if !validate_optional(&title, env.limits.max_title) || !validate_optional(
            &description,
            env.limits.max_description,
        ) || !validate_optional(&socials, env.limits.max_social_links) {
            return Err(ContractError::InvalidParameter);
        }
        extend_instance_ttl(env);
        let title_updated: bool = replace_text(&mut env.campaign.title, title);
        let description_updated: bool = replace_text(&mut env.campaign.description, description);
        let socials_updated: bool = replace_text(&mut env.campaign.social_links, socials);
        env.record(
            Effect::Publish {
                event: Event::MetadataUpdated {
                    creator,
                    title_updated,
                    description_updated,
                    socials_updated,
                },
            },
        );
        Ok(())
    }

    /// Adds an item to the roadmap. The creator must have signed; the date must lie in
    /// the future and the description must not be empty.
    pub fn add_roadmap_item(env: &mut Env, date: u64, description: Text) -> (r: Result<
        (),
        ContractError,
    >)
        requires
            old(env)@.campaign.wf(),
        ensures
            r == outcome(roadmap_refusal(old(env)@, date, description@)),
            final(env)@.campaign.wf(),
            final(env)@ == roadmap_extended(old(env)@, date, description@),
    {
        let ghost e0 = env@;
        let creator = env.campaign.creator;
        env.require_auth(creator);
        if date <= env.now {
            return Err(ContractError::InvalidParameter);
        }
        if description.len() == 0 {
            return Err(ContractError::InvalidParameter);
        }
        if !validate_length(description.len(), env.limits.max_string_len) {
            return Err(ContractError::InvalidParameter);
        }
        if !validate_capacity(env.campaign.roadmap.len(), env.limits.max_roadmap_items) {
            return Err(ContractError::InvalidParameter);
        }
        if !descriptions_fit(&env.campaign.roadmap, env.limits.max_roadmap_description) {
            proof {
                let stored = env.campaign.roadmap@;
                let i = choose|i: int|
                    0 <= i < stored.len() && (#[trigger] stored[i])@.description.len()
                        > e0.limits.max_roadmap_description;
                assert(e0.campaign.roadmap[i] == stored[i]@);
            }
            return Err(ContractError::InvalidParameter);
        }
        proof {
            assert forall|i: int| 0 <= i < e0.campaign.roadmap.len() implies (
            #[trigger] e0.campaign.roadmap[i]).description.len()
                <= e0.limits.max_roadmap_description by {
                assert(e0.campaign.roadmap[i] == env.campaign.roadmap@[i]@);
            }
        }
        extend_instance_ttl(env);
        env.campaign.roadmap.push(RoadmapItem { date, description: copy_text(&description) });
        env.record(Effect::Publish { event: Event::RoadmapItemAdded { date, description } });
        assert(env@.campaign.roadmap =~= e0.campaign.roadmap.push(
            RoadmapItem { date, description: description@ },
        ));
        Ok(())
    }

    /// Returns the roadmap.
    pub fn roadmap(env: &mut Env) -> (r: Vec<RoadmapItem<Text>>)
        ensures
            r@.map_values(|item: RoadmapItem<Text>| item@) == old(env)@.campaign.roadmap,
            final(env)@ == old(env)@.extended(),
    {
        extend_instance_ttl(env);
        copy_roadmap(&env.campaign.roadmap)
    }

    /// Returns the title; empty if none was set.
    pub fn title(env: &mut Env) -> (r: Text)
        ensures
            r@ == text_or_empty(old(env)@.campaign.title),
            final(env)@ == old(env)@.extended(),
    {
        extend_instance_ttl(env);
        read_text(&env.campaign.title)
    }

    /// Returns the description; empty if none was set.
    pub fn description(env: &mut Env) -> (r: Text)
        ensures
            r@ == text_or_empty(old(env)@.campaign.description),
            final(env)@ == old(env)@.extended(),
    {
        extend_instance_ttl(env);
        read_text(&env.campaign.description)
    }

    /// Returns the social links; empty if none were set.
    pub fn socials(env: &mut Env) -> (r: Text)
        ensures
            r@ == text_or_empty(old(env)@.campaign.social_links),
            final(env)@ == old(env)@.extended(),
    {
        extend_instance_ttl(env);
        read_text(&env.campaign.social_links)
    }
}

/// What an optional text reads as.
pub open spec fn text_or_empty(t: Option<Seq<u8>>) -> Seq<u8> {
    match t {
        Some(s) => s,
        None => Seq::empty(),
    }
}

/// Reads an optional text.
fn read_text(t: &Option<Text>) -> (r: Text)
    ensures
        r@ == text_or_empty(text_view(*t)),
{
    match t {
        Some(text) => copy_text(text),
        None => Vec::new(),
    }
}

} // verus!
