//! Environment keeper: which Java a Minecraft version needs, mirror URL
//! rewriting, Java and Paper discovery, installs and their progress.
pub mod env;
pub mod java_install;
pub mod java_probe;
pub mod mc_versions;
pub mod mirrors;
pub mod paper;
pub mod tasks;
