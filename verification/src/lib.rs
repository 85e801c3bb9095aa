//! Verified core of the Battleverse launcher: reading Minecraft version
//! documents, assembling the game's command line, interpreting server
//! replies and sequencing a modpack installation.

pub mod text;
pub mod json;
pub mod version;
pub mod progress;
pub mod system;
pub mod launch;
pub mod remote;
pub mod config;
pub mod install;
pub mod laws;
pub mod layout;
pub mod laws_text;
pub mod laws_version;
pub mod laws_remote;
pub mod laws_launch;
pub mod laws_install;
