//! Verified core of the taskbar IP overlay: version handling, update
//! selection, install locations, address selection and overlay layout.

pub mod text;
pub mod encoding;
pub mod version;
pub mod digest;
pub mod update;
pub mod ip;
pub mod layout;
pub mod overlay;
pub mod install;
pub mod setup;
