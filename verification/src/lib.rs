//! The verified core of the TriFlow AI desktop shell: the identity that the
//! shell reports to its front end, and the decisions of its startup.
//!
//! The library opens no window and runs no event loop. The program around it
//! hands the accessors of [`identity`] to the application framework and
//! performs the steps that [`bootstrap`] lays down.

pub mod bootstrap;
pub mod identity;
pub mod semver;

pub use identity::{get_app_name, get_app_version};
