//! Batch analysis of decoded match replays: a catalog of characters and
//! stages, winner extraction, identity matching, and win aggregation with
//! ranked reports. Decoding replay files and walking the filesystem are left
//! to the surrounding application; this library works on plain decoded values.
pub mod app_state;
pub mod catalog;
pub mod identity;
pub mod replay;
pub mod scan;
pub mod text;
pub mod wins;
