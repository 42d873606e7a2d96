//! Replacing the contract's code, and going back.

use vstd::prelude::*;

use crate::campaign::CampaignView;
use crate::env::{extend_instance_ttl, publication, Effect, Env, EnvView};
use crate::types::{CrowdfundContract, WasmHash};
use crate::withdraw_event_emission::Event;

verus! {

/// Whether a hash consists of zeros only; no code has such a hash.
pub open spec fn is_zero_hash(hash: WasmHash) -> bool {
    hash.hi == 0 && hash.lo == 0
}

/// The invocation once the code is replaced and the way back noted.
pub open spec fn upgraded(
    e: EnvView,
    new_wasm_hash: WasmHash,
    current_wasm_hash: WasmHash,
) -> EnvView {
    e.with_campaign(
        CampaignView { previous_wasm_hash: Some(current_wasm_hash), ..e.campaign },
    ).demand(e.campaign.admin).extended().send(Effect::UpdateWasm { hash: new_wasm_hash }).send(
        publication(
            Event::Upgrade { admin: e.campaign.admin, current_wasm_hash, new_wasm_hash },
        ),
    )
}

/// The invocation once the code is back to `restored_hash`.
pub open spec fn rolled_back(e: EnvView, restored_hash: WasmHash) -> EnvView {
    e.demand(e.campaign.admin).extended().send(Effect::UpdateWasm { hash: restored_hash }).send(
        publication(Event::Rollback { admin: e.campaign.admin, restored_hash }),
    )
}

impl CrowdfundContract {
    /// Replaces the contract's code and keeps `current_wasm_hash` as the point to go back
    /// to. The admin must have signed.
    pub fn upgrade(env: &mut Env, new_wasm_hash: WasmHash, current_wasm_hash: WasmHash)
        requires
            old(env)@.campaign.wf(),
            !is_zero_hash(new_wasm_hash),
        ensures
            final(env)@.campaign.wf(),
            final(env)@ == upgraded(old(env)@, new_wasm_hash, current_wasm_hash),
    {
        let admin = env.campaign.admin;
        env.require_auth(admin);
        extend_instance_ttl(env);
        env.campaign.previous_wasm_hash = Some(current_wasm_hash);
        env.record(Effect::UpdateWasm { hash: new_wasm_hash });
        env.record(
            Effect::Publish { event: Event::Upgrade { admin, current_wasm_hash, new_wasm_hash } },
        );
    }

    /// Restores the code that the last upgrade replaced, and returns its hash. The admin
    /// must have signed.
    pub fn rollback_upgrade(env: &mut Env) -> (restored_hash: WasmHash)
        requires
            old(env)@.campaign.wf(),
            old(env)@.campaign.previous_wasm_hash is Some,
        ensures
            final(env)@.campaign.wf(),
            Some(restored_hash) == old(env)@.campaign.previous_wasm_hash,
            final(env)@ == rolled_back(old(env)@, restored_hash),
    {
        let admin = env.campaign.admin;
        env.require_auth(admin);
        extend_instance_ttl(env);
        let restored_hash = env.campaign.previous_wasm_hash.unwrap();
        env.record(Effect::UpdateWasm { hash: restored_hash });
        env.record(Effect::Publish { event: Event::Rollback { admin, restored_hash } });
        restored_hash
    }
}

} // verus!
