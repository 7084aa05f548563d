//! Plugin management for a desktop launcher.
//!
//! The library decides; a driver acts. A command on the configuration
//! ([`config::Config`]) begins a [`run::Run`], which hands the driver one
//! [`action::Action`] at a time (stop the host, ask for a release, fetch an
//! asset, unpack an archive, write the manifest) and takes the driver's
//! [`action::Event`] in return. Each plugin is installed by an
//! [`install::Install`]: the release is resolved ([`release`]), an asset is
//! picked ([`select`]), the archive is laid out ([`extract`]) in a staging
//! directory, and only a complete extraction takes the plugin directory's
//! place and changes the registry ([`registry`]). File operations that the
//! host may block are tried again as [`retry`] says.

pub mod action;
pub mod arch;
pub mod config;
pub mod error;
pub mod extract;
pub mod host;
pub mod install;
pub mod order;
pub mod pin;
pub mod registry;
pub mod release;
pub mod retry;
pub mod run;
pub mod select;
pub mod text;
