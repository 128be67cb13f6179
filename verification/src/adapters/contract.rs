//! What every theme adapter must offer, and the check that it does.
use vstd::prelude::*;

use crate::engine::result::{ReasonCode, YaswitchError};
use crate::text::{chars_of, push_all, string_from_chars};

verus! {

/// What an adapter can do.
#[derive(Debug, Clone, PartialEq, Eq)]
pub struct AdapterCapabilities {
    pub can_plan: bool,
    pub can_apply: bool,
    pub can_verify: bool,
    pub can_rollback: bool,
    pub reload_supported: bool,
}

impl AdapterCapabilities {
    /// Whether the adapter supports plan, apply, verify and rollback.
    pub open spec fn has_required(&self) -> bool {
        self.can_plan && self.can_apply && self.can_verify && self.can_rollback
    }

    /// Checks that the adapter supports plan, apply, verify and rollback.
    pub fn validate_required(&self) -> (r: Result<(), YaswitchError>)
        ensures
            self.has_required() ==> r is Ok,
            !self.has_required() ==> (r matches Err(e) && e.code_of()
                == ReasonCode::AdapterCapabilityMissing && e.message_of()
                == "adapter must support plan/apply/verify/rollback"@),
    {
        if !(self.can_plan && self.can_apply && self.can_verify && self.can_rollback) {
            return Err(
                YaswitchError::new(
                    ReasonCode::AdapterCapabilityMissing,
                    "adapter must support plan/apply/verify/rollback",
                ),
            );
        }
        Ok(())
    }
}

/// What applying through an adapter did.
#[derive(Debug, Clone, PartialEq, Eq, Structural)]
pub enum AdapterOutcome {
    Applied,
    Skipped { reason: ReasonCode },
}

/// An error as its reason code and message.
pub open spec fn error_view(e: YaswitchError) -> (ReasonCode, Seq<char>) {
    (e.code_of(), e.message_of())
}

/// A result without a value, its error taken as code and message.
pub open spec fn unit_view(r: Result<(), YaswitchError>) -> Result<(), (ReasonCode, Seq<char>)> {
    match r {
        Ok(()) => Ok(()),
        Err(e) => Err(error_view(e)),
    }
}

/// An apply result, its error taken as code and message.
pub open spec fn outcome_view(r: Result<AdapterOutcome, YaswitchError>) -> Result<
    AdapterOutcome,
    (ReasonCode, Seq<char>),
> {
    match r {
        Ok(o) => Ok(o),
        Err(e) => Err(error_view(e)),
    }
}

/// An application or compositor integration that a theme is applied through.
///
/// An adapter may declare, through `obeys_adapter_spec`, that each of its methods answers
/// the same every time, with what the spec functions below name (an error taken as its
/// code and message). The adapters of this library declare it and are verified against
/// their definitions; an adapter that does not declare it gets no contract on its
/// methods.
pub trait ThemeAdapter {
    /// Whether the adapter's methods answer as the spec functions below name.
    open spec fn obeys_adapter_spec(&self) -> bool {
        false
    }

    /// The adapter's identifier.
    open spec fn id_of(&self) -> Seq<char> {
        arbitrary()
    }

    /// What the adapter reports it can do.
    open spec fn capabilities_of(&self) -> AdapterCapabilities {
        arbitrary()
    }

    /// What planning through the adapter gives.
    open spec fn plan_result(&self) -> Result<(), (ReasonCode, Seq<char>)> {
        arbitrary()
    }

    /// What applying through the adapter gives.
    open spec fn apply_result(&self) -> Result<AdapterOutcome, (ReasonCode, Seq<char>)> {
        arbitrary()
    }

    /// What verifying through the adapter gives.
    open spec fn verify_result(&self) -> Result<(), (ReasonCode, Seq<char>)> {
        arbitrary()
    }

    /// What rolling back through the adapter gives.
    open spec fn rollback_result(&self) -> Result<(), (ReasonCode, Seq<char>)> {
        arbitrary()
    }

    fn id(&self) -> (r: &'static str)
        ensures
            self.obeys_adapter_spec() ==> r@ == self.id_of(),
    ;

    fn capabilities(&self) -> (c: AdapterCapabilities)
        ensures
            self.obeys_adapter_spec() ==> c == self.capabilities_of(),
    ;

    fn plan(&self) -> (r: Result<(), YaswitchError>)
        ensures
            self.obeys_adapter_spec() ==> unit_view(r) == self.plan_result(),
    ;

    fn apply(&self) -> (r: Result<AdapterOutcome, YaswitchError>)
        ensures
            self.obeys_adapter_spec() ==> outcome_view(r) == self.apply_result(),
    ;

    fn verify(&self) -> (r: Result<(), YaswitchError>)
        ensures
            self.obeys_adapter_spec() ==> unit_view(r) == self.verify_result(),
    ;

    fn rollback(&self) -> (r: Result<(), YaswitchError>)
        ensures
            self.obeys_adapter_spec() ==> unit_view(r) == self.rollback_result(),
    ;
}

/// Whether an apply result passes the contract: an apply, or a skip for a reason adapters
/// may give.
pub open spec fn apply_accepted(r: Result<AdapterOutcome, (ReasonCode, Seq<char>)>) -> bool {
    match r {
        Ok(AdapterOutcome::Applied) => true,
        Ok(AdapterOutcome::Skipped { reason }) => is_safe_skip_reason(reason),
        Err(_) => false,
    }
}

/// The reasons an adapter may give for skipping its apply without failing it.
pub open spec fn is_safe_skip_reason(reason: ReasonCode) -> bool {
    reason == ReasonCode::SkipReloadUnsupported || reason == ReasonCode::CompositorSocketUnavailable
        || reason == ReasonCode::SkipRestartPolicy
}

/// Whether a skip reason is one an adapter may give.
pub fn safe_skip_reason(reason: ReasonCode) -> (b: bool)
    ensures
        b == is_safe_skip_reason(reason),
{
    reason == ReasonCode::SkipReloadUnsupported || reason == ReasonCode::CompositorSocketUnavailable
        || reason == ReasonCode::SkipRestartPolicy
}

/// The message for an adapter that skipped with a reason it may not give.
pub open spec fn unsupported_skip_message(id: Seq<char>, reason: ReasonCode) -> Seq<char> {
    "adapter "@ + id + " returned unsupported skip reason "@ + reason.label()
}

/// Judges what applying through the adapter `id` returned: an apply, or a skip for a
/// reason adapters may give, passes; any other skip fails.
pub fn check_apply_outcome(id: &str, outcome: &AdapterOutcome) -> (r: Result<(), YaswitchError>)
    ensures
        match *outcome {
            AdapterOutcome::Applied => r is Ok,
            AdapterOutcome::Skipped { reason } => if is_safe_skip_reason(reason) {
                r is Ok
            } else {
                r matches Err(e) && e.code_of() == ReasonCode::AdapterCapabilityMissing
                    && e.message_of() == unsupported_skip_message(id@, reason)
            },
        },
{
    match outcome {
        AdapterOutcome::Applied => Ok(()),
        AdapterOutcome::Skipped { reason } => {
            if safe_skip_reason(*reason) {
                Ok(())
            } else {
                let mut msg = chars_of("adapter ");
                push_all(&mut msg, &chars_of(id));
                push_all(&mut msg, &chars_of(" returned unsupported skip reason "));
                push_all(&mut msg, &chars_of(reason.as_str()));
                let text = string_from_chars(msg.as_slice());
                Err(YaswitchError::new(ReasonCode::AdapterCapabilityMissing, text.as_str()))
            }
        },
    }
}

/// Runs an adapter through its whole contract: its capabilities must include plan,
/// apply, verify and rollback, then plan, apply (whose outcome `check_apply_outcome`
/// judges), verify and rollback must succeed, in that order. The first failure is
/// returned and nothing after it runs.
pub fn validate_adapter_contract<A: ThemeAdapter>(adapter: &A) -> (r: Result<(), YaswitchError>)
    ensures
        adapter.obeys_adapter_spec() && !adapter.capabilities_of().has_required() ==> unit_view(r) == Err::<
            (),
            (ReasonCode, Seq<char>),
        >((ReasonCode::AdapterCapabilityMissing, "adapter must support plan/apply/verify/rollback"@)),
        adapter.obeys_adapter_spec() && adapter.capabilities_of().has_required() && adapter.plan_result() is Err ==> unit_view(r)
            == adapter.plan_result(),
        adapter.obeys_adapter_spec() && adapter.capabilities_of().has_required() && adapter.plan_result() is Ok ==> match adapter.apply_result() {
            Err(e) => unit_view(r) == Err::<(), (ReasonCode, Seq<char>)>(e),
            Ok(AdapterOutcome::Skipped { reason }) => !is_safe_skip_reason(reason) ==> unit_view(r)
                == Err::<(), (ReasonCode, Seq<char>)>(
                (ReasonCode::AdapterCapabilityMissing, unsupported_skip_message(adapter.id_of(), reason)),
            ),
            Ok(AdapterOutcome::Applied) => true,
        },
        adapter.obeys_adapter_spec() && adapter.capabilities_of().has_required() && adapter.plan_result() is Ok && apply_accepted(
            adapter.apply_result(),
        ) ==> unit_view(r) == if adapter.verify_result() is Err {
            adapter.verify_result()
        } else {
            adapter.rollback_result()
        },
{
    let capabilities = adapter.capabilities();
    match capabilities.validate_required() {
        Ok(()) => {},
        Err(e) => return Err(e),
    }
    match adapter.plan() {
        Ok(()) => {},
        Err(e) => return Err(e),
    }
    let outcome = match adapter.apply() {
        Ok(o) => o,
        Err(e) => return Err(e),
    };
    match check_apply_outcome(adapter.id(), &outcome) {
        Ok(()) => {},
        Err(e) => return Err(e),
    }
    match adapter.verify() {
        Ok(()) => {},
        Err(e) => return Err(e),
    }
    adapter.rollback()
}

} // verus!
