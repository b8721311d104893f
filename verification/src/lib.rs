//! Verified core of the Zomboid mod downloader: Workshop input parsing,
//! HTML extraction of Workshop metadata, queue planning, SteamCMD command
//! lines and local mod records.

pub mod browser_script;
pub mod download;
pub mod html;
pub mod local_mods;
pub mod pattern;
pub mod settings;
pub mod text;
pub mod workshop;
pub mod workshop_url;
