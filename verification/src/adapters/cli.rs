//! The adapter the command line applies through, chosen by compositor name.
use vstd::prelude::*;

use crate::adapters::contract::{AdapterCapabilities, AdapterOutcome, ThemeAdapter};
use crate::engine::result::{ReasonCode, YaswitchError};
use crate::text::{chars_eq, chars_of, lower, string_from_chars, to_lower};

verus! {

/// Whether a compositor (by its lower-case name) can reload a theme.
pub open spec fn reload_supported_for(compositor: Seq<char>) -> bool {
    compositor != "dwl"@ && compositor != "mangowm"@
}

/// The adapter of the command line: it reloads through the compositor it was made for,
/// and skips the reload where that compositor cannot reload.
pub struct CliAdapter {
    compositor: String,
}

impl CliAdapter {
    /// The lower-case name of the compositor the adapter drives.
    pub closed spec fn compositor_of(&self) -> Seq<char> {
        self.compositor@
    }

    /// The adapter for `compositor` in lower case, `sway` when none is given.
    pub fn from_compositor(compositor: Option<&str>) -> (a: Self)
        ensures
            a.compositor_of() == match compositor {
                Some(c) => lower(c@),
                None => "sway"@,
            },
    {
        match compositor {
            Some(c) => CliAdapter { compositor: string_from_chars(to_lower(&chars_of(c)).as_slice()) },
            None => CliAdapter { compositor: "sway".to_owned() },
        }
    }

    fn reloads(&self) -> (b: bool)
        ensures
            b == reload_supported_for(self.compositor_of()),
    {
        let c = chars_of(self.compositor.as_str());
        let dwl = chars_of("dwl");
        let mango = chars_of("mangowm");
        !(chars_eq(&c, &dwl) || chars_eq(&c, &mango))
    }
}

impl ThemeAdapter for CliAdapter {

    open spec fn obeys_adapter_spec(&self) -> bool {
        true
    }

    open spec fn id_of(&self) -> Seq<char> {
        "cli-adapter"@
    }

    open spec fn capabilities_of(&self) -> AdapterCapabilities {
        AdapterCapabilities {
            can_plan: true,
            can_apply: true,
            can_verify: true,
            can_rollback: true,
            reload_supported: reload_supported_for(self.compositor_of()),
        }
    }

    open spec fn plan_result(&self) -> Result<(), (ReasonCode, Seq<char>)> {
        Ok(())
    }

    open spec fn apply_result(&self) -> Result<AdapterOutcome, (ReasonCode, Seq<char>)> {
        if reload_supported_for(self.compositor_of()) {
            Ok(AdapterOutcome::Applied)
        } else {
            Ok(AdapterOutcome::Skipped { reason: ReasonCode::SkipReloadUnsupported })
        }
    }

    open spec fn verify_result(&self) -> Result<(), (ReasonCode, Seq<char>)> {
        Ok(())
    }

    open spec fn rollback_result(&self) -> Result<(), (ReasonCode, Seq<char>)> {
        Ok(())
    }

    fn id(&self) -> (r: &'static str)
        ensures
            r@ == "cli-adapter"@,
    {
        "cli-adapter"
    }

    fn capabilities(&self) -> (c: AdapterCapabilities)
        ensures
            c == (AdapterCapabilities {
                can_plan: true,
                can_apply: true,
                can_verify: true,
                can_rollback: true,
                reload_supported: reload_supported_for(self.compositor_of()),
            }),
    {
        AdapterCapabilities {
            can_plan: true,
            can_apply: true,
            can_verify: true,
            can_rollback: true,
            reload_supported: self.reloads(),
        }
    }

    fn plan(&self) -> (r: Result<(), YaswitchError>)
        ensures
            r is Ok,
    {
        Ok(())
    }

    fn apply(&self) -> (r: Result<AdapterOutcome, YaswitchError>)
        ensures
            reload_supported_for(self.compositor_of()) ==> r == Ok::<AdapterOutcome, YaswitchError>(
                AdapterOutcome::Applied,
            ),
            !reload_supported_for(self.compositor_of()) ==> r == Ok::<
                AdapterOutcome,
                YaswitchError,
            >(AdapterOutcome::Skipped { reason: ReasonCode::SkipReloadUnsupported }),
    {
        if self.reloads() {
            Ok(AdapterOutcome::Applied)
        } else {
            Ok(AdapterOutcome::Skipped { reason: ReasonCode::SkipReloadUnsupported })
        }
    }

    fn verify(&self) -> (r: Result<(), YaswitchError>)
        ensures
            r is Ok,
    {
        Ok(())
    }

    fn rollback(&self) -> (r: Result<(), YaswitchError>)
        ensures
            r is Ok,
    {
        Ok(())
    }
}

} // verus!
