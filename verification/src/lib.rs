//! Locates what a Steam installation holds: its library folders, the apps
//! installed in each of them, the compatibility tools that they run with,
//! and the non-Steam shortcuts of its users.
//!
//! Everything here computes on plain values and is verified with Verus.
//! Reading the disk is left to the caller, who hands over what was read as
//! a [`files::Snapshot`]; a [`SteamDir`] then answers from that alone.
//!
//! ```ignore
//! let files: Snapshot = /* what was read of the disk */;
//! let steam_dir = SteamDir::from_dir("/home/u/.steam/steam", &files)?;
//! let mut libraries = steam_dir.libraries()?;
//! while let Some(library) = libraries.next() {
//!     let library = library?;
//!     let mut apps = library.apps();
//!     while let Some(app) = apps.next() {
//!         println!("{:?}", app?.name);
//!     }
//! }
//! ```
//!
//! The modules, from the leaves up:
//!
//! - [`text`]: texts as bytes, decimal numbers, paths;
//! - [`document`]: key-value documents and their lookups;
//! - [`app`] and [`manifest`]: the metadata of an app and its decoding;
//! - [`config`]: the compatibility tools of the client's settings;
//! - [`shortcut`]: the binary file of a user's shortcuts;
//! - [`files`]: the snapshot of the disk;
//! - [`library`]: library folders and what they hold;
//! - [`locate`]: where an installation is looked for;
//! - [`steamdir`]: the installation as a whole;
//! - [`steamapp`]: an app with its defaults filled in;
//! - [`helpers`]: made-up installations for trials.

pub mod app;
pub mod config;
pub mod document;
pub mod error;
pub mod files;
pub mod helpers;
pub mod library;
pub mod locate;
pub mod manifest;
pub mod shortcut;
pub mod steamapp;
pub mod steamdir;
pub mod text;

pub use crate::app::App;
pub use crate::config::CompatTool;
pub use crate::error::Error;
pub use crate::library::Library;
pub use crate::shortcut::Shortcut;
pub use crate::steamapp::SteamApp;
pub use crate::steamdir::SteamDir;
