//! Compare the publicly visible API surface of a library between two points
//! in time, and gate semantically meaningful changes in continuous
//! integration.
//!
//! The core is [`diff::PublicItemsDiff::between`], which computes a stable,
//! deterministic, duplicate-safe difference between two collections of
//! [`item::PublicItem`]s. Around it sit the policy and plumbing layers:
//! [`deny`] turns a computed diff plus a rule selection into a pass/fail
//! verdict, [`resolve`] classifies user-supplied operands into recipes for
//! obtaining item collections, [`orchestrate`] materializes two collections
//! from a pair of version-control references while guaranteeing the
//! repository is restored, and [`builder`] holds the options of the
//! external documentation build.

pub mod builder;
pub mod deny;
pub mod diff;
pub mod item;
pub mod orchestrate;
pub mod resolve;
