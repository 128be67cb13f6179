use vstd::prelude::*;

pub mod adapters;
pub mod engine;
pub mod palette;
pub mod text;
pub mod ui;
pub mod wallpaper;

verus! {

/// The name of this crate.
pub fn crate_name() -> (name: &'static str)
    ensures
        name@ == "yaswitch"@,
{
    "yaswitch"
}

} // verus!
