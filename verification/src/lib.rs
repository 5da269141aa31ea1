//! Bundling engine for a personal backup pipeline.
//!
//! Given absolute source paths, the engine reconstructs their directory
//! structure under a single timestamped staging root, so that the staging
//! root can then be archived into one container file and that container
//! encrypted.  The engine itself is pure: it plans directory creations and
//! file copies over a component model of paths; the caller performs the
//! filesystem work and feeds outcomes back.
pub mod archiver;
pub mod bundler;
pub mod encryption;
pub mod paths;
pub mod timestamp;

