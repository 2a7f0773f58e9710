//! Chrome-style profiles for Herdr: the verified logic of the profile chooser.

pub mod herdr;
pub mod keybinding;
pub mod keybinding_laws;
pub mod settings;
pub mod text;
pub mod theme;
pub mod launcher;
pub mod popup;
pub mod socket;
pub mod profiles;
pub mod ui;
pub mod cli;
pub mod laws;
pub mod contract_laws;
