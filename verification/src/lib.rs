//! The DDO Tools game-data pipeline, as a verified library.
//!
//! - [`text`] holds the character-level string operations every other module uses, each with a
//!   specification over `Seq<char>`.
//! - [`xml`] turns DDOBuilderV2's element grammar into our records.
//! - [`map`] translates their vocabulary onto ours.
//! - [`rows`] computes the values the database rows hold.
//! - [`diff`] compares item names of two databases.
//! - [`api`] holds the decisions of the read-only HTTP API.

pub mod text;
pub mod map;
pub mod diff;
pub mod rows;
pub mod api;
pub mod model;
pub mod xml;
