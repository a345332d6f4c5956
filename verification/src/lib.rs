//! Named configuration profiles for a package manager, activated one at a
//! time through a hard link into the package manager's configuration file.
//!
//! The profile directory holds one file per profile plus a pointer file that
//! records the active profile's name.  `store` models that directory together
//! with the package manager's single configuration file and verifies the
//! operations on it; `names` holds the verified path and name computation;
//! `sys` holds the calls that only the surrounding system can answer.

pub mod errors;
pub mod names;
pub mod store;
pub mod laws;
pub mod sys;
