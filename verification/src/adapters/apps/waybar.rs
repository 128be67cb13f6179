use vstd::prelude::*;

use crate::adapters::contract::{AdapterCapabilities, AdapterOutcome, ThemeAdapter};
use crate::engine::result::{ReasonCode, YaswitchError};

verus! {

/// The Waybar status bar.
pub struct WaybarAdapter;

impl ThemeAdapter for WaybarAdapter {

    open spec fn obeys_adapter_spec(&self) -> bool {
        true
    }

    open spec fn id_of(&self) -> Seq<char> {
        "waybar"@
    }

    open spec fn capabilities_of(&self) -> AdapterCapabilities {
        AdapterCapabilities {
            can_plan: true,
            can_apply: true,
            can_verify: true,
            can_rollback: true,
            reload_supported: true,
        }
    }

    open spec fn plan_result(&self) -> Result<(), (ReasonCode, Seq<char>)> {
        Ok(())
    }

    open spec fn apply_result(&self) -> Result<AdapterOutcome, (ReasonCode, Seq<char>)> {
        Ok(AdapterOutcome::Applied)
    }

    open spec fn verify_result(&self) -> Result<(), (ReasonCode, Seq<char>)> {
        Ok(())
    }

    open spec fn rollback_result(&self) -> Result<(), (ReasonCode, Seq<char>)> {
        Ok(())
    }

    fn id(&self) -> (r: &'static str)
        ensures
            r@ == "waybar"@,
    {
        "waybar"
    }

    fn capabilities(&self) -> (c: AdapterCapabilities)
        ensures
            c == (AdapterCapabilities {
                can_plan: true,
                can_apply: true,
                can_verify: true,
                can_rollback: true,
                reload_supported: true,
            }),
    {
        AdapterCapabilities {
            can_plan: true,
            can_apply: true,
            can_verify: true,
            can_rollback: true,
            reload_supported: true,
        }
    }

    fn plan(&self) -> (r: Result<(), YaswitchError>)
        ensures
            r is Ok,
    {
        Ok(())
    }

    fn apply(&self) -> (r: Result<AdapterOutcome, YaswitchError>)
        ensures
            r == Ok::<AdapterOutcome, YaswitchError>(AdapterOutcome::Applied),
    {
        Ok(AdapterOutcome::Applied)
    }

    fn verify(&self) -> (r: Result<(), YaswitchError>)
        ensures
            r is Ok,
    {
        Ok(())
    }

    fn rollback(&self) -> (r: Result<(), YaswitchError>)
        ensures
            r is Ok,
    {
        Ok(())
    }
}

} // verus!
