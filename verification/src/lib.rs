//! Core library of a Wine game launcher: configuration, game library, Wine
//! resolution, DXVK, compatibility database, bundles, store detection, and
//! the decisions of the launcher window.
//!
//! Every function here is verified, but for the few calls into other crates
//! and std whose contracts are stated, not proved: appending a character,
//! the slug of a name, Unicode lower case, the clock and the user's data
//! directory. Reading and writing files, spawning processes and talking to
//! the network happen in the program around it, which hands this library
//! plain values and carries out what it decides.

pub mod bottle;
pub mod bundle;
pub mod compat;
pub mod config;
pub mod data_update;
pub mod download;
pub mod dxvk;
pub mod error;
pub mod fs_utils;
pub mod install_laws;
pub mod laws;
pub mod library;
pub mod path;
pub mod paths;
pub mod runner;
pub mod seq_util;
pub mod store_detect;
pub mod store_laws;
pub mod string_map;
pub mod text;
pub mod ui;
pub mod wine;

pub use error::{Error, Result};
pub use bundle::BundleConfig;
pub use compat::{CompatDatabase, CompatEntry, CompatRating};
pub use config::{AppConfig, WineConfig};
pub use library::{import_library, Game, GameLibrary, InstallType};
pub use runner::LaunchConfig;
