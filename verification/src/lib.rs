pub mod error;
pub mod text;
pub mod paths;
pub mod settings;
pub mod metadata;
pub mod sort;
pub mod digest;
pub mod auth;
pub mod instance;
pub mod java;
pub mod assoc;
pub mod download;
pub mod launch;
pub mod mods;
pub mod loader;
