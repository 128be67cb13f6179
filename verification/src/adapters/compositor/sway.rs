use vstd::prelude::*;

use crate::adapters::contract::{AdapterCapabilities, AdapterOutcome, ThemeAdapter};
use crate::engine::result::{ReasonCode, YaswitchError};

verus! {

/// The sway compositor, reached through its IPC socket; without the socket, apply is a
/// safe skip and verify fails.
pub struct SwayAdapter {
    socket_available: bool,
}

impl SwayAdapter {
    /// Whether the IPC socket is reachable.
    pub closed spec fn has_socket(&self) -> bool {
        self.socket_available
    }

    pub fn new(socket_available: bool) -> (a: Self)
        ensures
            a.has_socket() == socket_available,
    {
        SwayAdapter { socket_available }
    }

    pub fn socket_available(&self) -> (b: bool)
        ensures
            b == self.has_socket(),
    {
        self.socket_available
    }
}

impl ThemeAdapter for SwayAdapter {

    open spec fn obeys_adapter_spec(&self) -> bool {
        true
    }

    open spec fn id_of(&self) -> Seq<char> {
        "sway"@
    }

    open spec fn capabilities_of(&self) -> AdapterCapabilities {
        AdapterCapabilities {
            can_plan: true,
            can_apply: true,
            can_verify: true,
            can_rollback: true,
            reload_supported: self.has_socket(),
        }
    }

    open spec fn plan_result(&self) -> Result<(), (ReasonCode, Seq<char>)> {
        Ok(())
    }

    open spec fn apply_result(&self) -> Result<AdapterOutcome, (ReasonCode, Seq<char>)> {
        if self.has_socket() {
            Ok(AdapterOutcome::Applied)
        } else {
            Ok(AdapterOutcome::Skipped { reason: ReasonCode::CompositorSocketUnavailable })
        }
    }

    open spec fn verify_result(&self) -> Result<(), (ReasonCode, Seq<char>)> {
        if self.has_socket() {
            Ok(())
        } else {
            Err((ReasonCode::CompositorSocketUnavailable, "sway socket is unavailable for verification"@))
        }
    }

    open spec fn rollback_result(&self) -> Result<(), (ReasonCode, Seq<char>)> {
        Ok(())
    }

    fn id(&self) -> (r: &'static str)
        ensures
            r@ == "sway"@,
    {
        "sway"
    }

    fn capabilities(&self) -> (c: AdapterCapabilities)
        ensures
            c == (AdapterCapabilities {
                can_plan: true,
                can_apply: true,
                can_verify: true,
                can_rollback: true,
                reload_supported: self.has_socket(),
            }),
    {
        AdapterCapabilities {
            can_plan: true,
            can_apply: true,
            can_verify: true,
            can_rollback: true,
            reload_supported: self.socket_available,
        }
    }

    fn plan(&self) -> (r: Result<(), YaswitchError>)
        ensures
            r is Ok,
    {
        Ok(())
    }

    fn apply(&self) -> (r: Result<AdapterOutcome, YaswitchError>)
        ensures
            self.has_socket() ==> r == Ok::<AdapterOutcome, YaswitchError>(
                AdapterOutcome::Applied,
            ),
            !self.has_socket() ==> r == Ok::<AdapterOutcome, YaswitchError>(
                AdapterOutcome::Skipped { reason: ReasonCode::CompositorSocketUnavailable },
            ),
    {
        if self.socket_available {
            Ok(AdapterOutcome::Applied)
        } else {
            Ok(AdapterOutcome::Skipped { reason: ReasonCode::CompositorSocketUnavailable })
        }
    }

    fn verify(&self) -> (r: Result<(), YaswitchError>)
        ensures
            self.has_socket() ==> r is Ok,
            !self.has_socket() ==> (r matches Err(e) && e.code_of()
                == ReasonCode::CompositorSocketUnavailable && e.message_of()
                == "sway socket is unavailable for verification"@),
    {
        if self.socket_available {
            Ok(())
        } else {
            Err(
                YaswitchError::new(
                    ReasonCode::CompositorSocketUnavailable,
                    "sway socket is unavailable for verification",
                ),
            )
        }
    }

    fn rollback(&self) -> (r: Result<(), YaswitchError>)
        ensures
            r is Ok,
    {
        Ok(())
    }
}

} // verus!
