//! A date-indexed archive of daily wallpapers: calendar arithmetic, storage
//! paths, request URLs and the decisions that drive fetching and lookup.

pub mod caption;
pub mod date;
pub mod engine;
pub mod error;
pub mod paths;
pub mod preferences;
pub mod regions;
pub mod remote;
pub mod search;
pub mod text;
pub mod world;
