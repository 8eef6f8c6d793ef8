//! Verified core of a fuzzy finder for the secrets of an OpenBao or Vault
//! key-value mount: choosing the mount layout, walking the key tree,
//! building paths, deciding what a key press does, and resolving the
//! client settings from the environment.

pub mod version;
pub mod walk;
pub mod walk_laws;
pub mod text;
pub mod errors;
pub mod client;
pub mod finder;
pub mod secret;
