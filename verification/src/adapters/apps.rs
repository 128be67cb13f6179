pub mod gtk;
pub mod kitty;
pub mod neovim;
pub mod vscode;
pub mod waybar;
