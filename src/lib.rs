//! Bundling of a hashed front-end build into fixed-named resources, and the
//! routing that serves those resources together with a statistics document.

pub mod bundle;
pub mod manifest;
pub mod server;
pub mod text;
