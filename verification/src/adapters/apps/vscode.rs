use vstd::prelude::*;

use crate::adapters::contract::{AdapterCapabilities, AdapterOutcome, ThemeAdapter};
use crate::engine::result::{ReasonCode, YaswitchError};

verus! {

/// Visual Studio Code, which needs a restart to take a theme; when restarts are not
/// allowed, apply is a safe skip.
pub struct VscodeAdapter {
    allow_restart: bool,
}

impl VscodeAdapter {
    /// Whether the adapter may restart the editor.
    pub closed spec fn restart_allowed(&self) -> bool {
        self.allow_restart
    }

    pub fn new(allow_restart: bool) -> (a: Self)
        ensures
            a.restart_allowed() == allow_restart,
    {
        VscodeAdapter { allow_restart }
    }

    /// The editor always needs a restart to take a new theme.
    pub fn restart_required(&self) -> (b: bool)
        ensures
            b,
    {
        true
    }
}

impl ThemeAdapter for VscodeAdapter {

    open spec fn obeys_adapter_spec(&self) -> bool {
        true
    }

    open spec fn id_of(&self) -> Seq<char> {
        "vscode"@
    }

    open spec fn capabilities_of(&self) -> AdapterCapabilities {
        AdapterCapabilities {
            can_plan: true,
            can_apply: true,
            can_verify: true,
            can_rollback: true,
            reload_supported: self.restart_allowed(),
        }
    }

    open spec fn plan_result(&self) -> Result<(), (ReasonCode, Seq<char>)> {
        Ok(())
    }

    open spec fn apply_result(&self) -> Result<AdapterOutcome, (ReasonCode, Seq<char>)> {
        if self.restart_allowed() {
            Ok(AdapterOutcome::Applied)
        } else {
            Ok(AdapterOutcome::Skipped { reason: ReasonCode::SkipReloadUnsupported })
        }
    }

    open spec fn verify_result(&self) -> Result<(), (ReasonCode, Seq<char>)> {
        Ok(())
    }

    open spec fn rollback_result(&self) -> Result<(), (ReasonCode, Seq<char>)> {
        Ok(())
    }

    fn id(&self) -> (r: &'static str)
        ensures
            r@ == "vscode"@,
    {
        "vscode"
    }

    fn capabilities(&self) -> (c: AdapterCapabilities)
        ensures
            c == (AdapterCapabilities {
                can_plan: true,
                can_apply: true,
                can_verify: true,
                can_rollback: true,
                reload_supported: self.restart_allowed(),
            }),
    {
        AdapterCapabilities {
            can_plan: true,
            can_apply: true,
            can_verify: true,
            can_rollback: true,
            reload_supported: self.allow_restart,
        }
    }

    fn plan(&self) -> (r: Result<(), YaswitchError>)
        ensures
            r is Ok,
    {
        Ok(())
    }

    fn apply(&self) -> (r: Result<AdapterOutcome, YaswitchError>)
        ensures
            self.restart_allowed() ==> r == Ok::<AdapterOutcome, YaswitchError>(
                AdapterOutcome::Applied,
            ),
            !self.restart_allowed() ==> r == Ok::<AdapterOutcome, YaswitchError>(
                AdapterOutcome::Skipped { reason: ReasonCode::SkipReloadUnsupported },
            ),
    {
        if self.allow_restart {
            Ok(AdapterOutcome::Applied)
        } else {
            Ok(AdapterOutcome::Skipped { reason: ReasonCode::SkipReloadUnsupported })
        }
    }

    fn verify(&self) -> (r: Result<(), YaswitchError>)
        ensures
            r is Ok,
    {
        Ok(())
    }

    fn rollback(&self) -> (r: Result<(), YaswitchError>)
        ensures
            r is Ok,
    {
        Ok(())
    }
}

} // verus!
