pub mod dwl;
pub mod hyprland;
pub mod mangowm;
pub mod niri;
pub mod sway;
