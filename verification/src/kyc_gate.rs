//! The pluggable KYC/AML gate.
//!
//! A campaign without a configured KYC gate, or with one that is switched off, lets everybody
//! commit any amount. With a KYC gate that is on, an address whose committed amount would reach
//! the threshold needs the verifier's approval. Only the admin configures the KYC gate: the
//! creator is the party that gains from loosening it.

use vstd::prelude::*;

use crate::book::amount_of;
use crate::campaign::CampaignView;
use crate::env::{extend_instance_ttl, publication, Env, EnvView};
use crate::types::{
    copy_text, gate_view, outcome, Address, ContractError, CrowdfundContract, KycGateConfig, Text,
};
use crate::withdraw_event_emission::{emit_kyc_gate_configured, emit_kyc_gate_toggled, Event};

verus! {

/// What `who` has committed so far, in contributions and pledges together.
pub open spec fn committed(c: CampaignView, who: Address) -> int {
    amount_of(c.contributions, who) + amount_of(c.pledges, who)
}

/// Whether a further commitment of `amount` by `who` needs the verifier's approval.
pub open spec fn needs_approval(c: CampaignView, who: Address, amount: int) -> bool {
    match c.kyc_gate {
        Some(gate) => gate.enabled && committed(c, who) + amount >= gate.threshold,
        None => false,
    }
}

/// Whether the KYC gate lets a further commitment of `amount` by `who` through, given the
/// verifier's verdict on `who`.
pub open spec fn passes_gate(c: CampaignView, who: Address, amount: int, verified: bool) -> bool {
    needs_approval(c, who, amount) ==> verified
}

/// Why a change of the KYC gate is refused, if it is.
pub open spec fn configure_refusal(e: EnvView, admin: Address) -> Option<ContractError> {
    if admin != e.campaign.admin {
        Some(ContractError::Unauthorized)
    } else {
        None
    }
}

/// The invocation after a call that configures the KYC gate.
pub open spec fn gate_configured(
    e: EnvView,
    admin: Address,
    verifier: Address,
    threshold: i128,
    jurisdiction: Seq<u8>,
) -> EnvView {
    if configure_refusal(e, admin) is Some {
        e
    } else {
        e.with_campaign(
            CampaignView {
                kyc_gate: Some(
                    KycGateConfig { verifier, threshold, enabled: true, jurisdiction },
                ),
                ..e.campaign
            },
        ).demand(admin).extended().send(
            publication(Event::KycGateConfigured { verifier, threshold, jurisdiction }),
        )
    }
}

/// Why switching the KYC gate is refused, if it is.
pub open spec fn toggle_refusal(e: EnvView, admin: Address) -> Option<ContractError> {
    if admin != e.campaign.admin {
        Some(ContractError::Unauthorized)
    } else if e.campaign.kyc_gate is None {
        Some(ContractError::KycGateNotConfigured)
    } else {
        None
    }
}

/// The invocation after a call that switches the KYC gate.
pub open spec fn gate_toggled(e: EnvView, admin: Address, enabled: bool) -> EnvView {
    if admin != e.campaign.admin {
        e
    } else if toggle_refusal(e, admin) is Some {
        e.demand(admin)
    } else {
        e.with_campaign(
            CampaignView {
                kyc_gate: Some(KycGateConfig { enabled, ..e.campaign.kyc_gate->0 }),
                ..e.campaign
            },
        ).demand(admin).extended().send(publication(Event::KycGateToggled { enabled }))
    }
}

/// Who has to be asked about `who` before a further commitment of `amount`; nobody
/// where the KYC gate lets it through in any case.
pub fn verifier_to_ask(env: &Env, who: Address, amount: i128) -> (r: Option<Address>)
    requires
        env@.campaign.wf(),
    ensures
        r == (if needs_approval(env@.campaign, who, amount as int) {
            Some(env@.campaign.kyc_gate->0.verifier)
        } else {
            None
        }),
{
    match &env.campaign.kyc_gate {
        None => None,
        Some(gate) => {
            if !gate.enabled {
                return None;
            }
            let contributed: i128 = env.campaign.contributions.amount(who);
            let pledged: i128 = env.campaign.pledges.amount(who);
            proof {
                crate::book::lemma_amount_nonneg(env@.campaign.contributions, who);
                crate::book::lemma_amount_nonneg(env@.campaign.pledges, who);
            }
            let reached: bool = match contributed.checked_add(amount) {
                None => true,
                Some(sum) => match sum.checked_add(pledged) {
                    None => true,
                    Some(all) => all >= gate.threshold,
                },
            };
            if reached {
                Some(gate.verifier)
            } else {
                None
            }
        },
    }
}

/// Whether the KYC gate lets a further commitment of `amount` by `who` through, given the
/// verifier's verdict on `who`.
pub fn lets_through(env: &Env, who: Address, amount: i128, verified: bool) -> (r: bool)
    requires
        env@.campaign.wf(),
    ensures
        r == passes_gate(env@.campaign, who, amount as int, verified),
{
    match verifier_to_ask(env, who, amount) {
        Some(_) => verified,
        None => true,
    }
}

impl CrowdfundContract {
    /// Configures (or reconfigures) the KYC gate and switches it on. Admin only.
    pub fn configure_kyc_gate(
        env: &mut Env,
        admin: Address,
        verifier: Address,
        threshold: i128,
        jurisdiction: Text,
    ) -> (r: Result<(), ContractError>)
        requires
            old(env)@.campaign.wf(),
        ensures
            r == outcome(configure_refusal(old(env)@, admin)),
            final(env)@.campaign.wf(),
            final(env)@ == gate_configured(
                old(env)@,
                admin,
                verifier,
                threshold,
                jurisdiction@,
            ),
    {
        if admin != env.campaign.admin {
            return Err(ContractError::Unauthorized);
        }
        env.require_auth(admin);
        extend_instance_ttl(env);
        let config = KycGateConfig { verifier, threshold, enabled: true, jurisdiction };
        emit_kyc_gate_configured(env, &config);
        env.campaign.kyc_gate = Some(config);
        Ok(())
    }

    /// Switches the KYC gate on or off and leaves the rest of its configuration as it
    /// is. Admin only.
    pub fn set_kyc_gate_enabled(env: &mut Env, admin: Address, enabled: bool) -> (r: Result<
        (),
        ContractError,
    >)
        requires
            old(env)@.campaign.wf(),
        ensures
            r == outcome(toggle_refusal(old(env)@, admin)),
            final(env)@.campaign.wf(),
            final(env)@ == gate_toggled(old(env)@, admin, enabled),
    {
        if admin != env.campaign.admin {
            return Err(ContractError::Unauthorized);
        }
        env.require_auth(admin);
        let config = match &env.campaign.kyc_gate {
            None => {
                return Err(ContractError::KycGateNotConfigured);
            },
            Some(gate) => KycGateConfig {
                verifier: gate.verifier,
                threshold: gate.threshold,
                enabled,
                jurisdiction: copy_text(&gate.jurisdiction),
            },
        };
        extend_instance_ttl(env);
        env.campaign.kyc_gate = Some(config);
        emit_kyc_gate_toggled(env, enabled);
        Ok(())
    }

    /// Returns the configuration of the KYC gate, if there is one.
    pub fn kyc_gate_config(env: &mut Env) -> (r: Option<KycGateConfig<Text>>)
        ensures
            gate_view(r) == old(env)@.campaign.kyc_gate,
            final(env)@ == old(env)@.extended(),
    {
        extend_instance_ttl(env);
        match &env.campaign.kyc_gate {
            None => None,
            Some(gate) => Some(
                KycGateConfig {
                    verifier: gate.verifier,
                    threshold: gate.threshold,
                    enabled: gate.enabled,
                    jurisdiction: copy_text(&gate.jurisdiction),
                },
            ),
        }
    }

    /// Whether the KYC gate would let a contribution or pledge of `amount` by `who` through
    /// right now, given the verifier's verdict on `who`.
    pub fn kyc_gate_preview(env: &mut Env, who: Address, amount: i128, verified: bool) -> (r: bool)
        requires
            old(env)@.campaign.wf(),
        ensures
            r == passes_gate(old(env)@.campaign, who, amount as int, verified),
            final(env)@ == old(env)@.extended(),
    {
        extend_instance_ttl(env);
        lets_through(env, who, amount, verified)
    }
}

} // verus!
