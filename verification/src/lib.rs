//! Verified core of a system-wide parametric equalizer: band and profile
//! configuration, per-application profile routing, the stereo sample queue
//! between capture and render, filter-slot management and the small
//! decision procedures that surround the audio engine.

pub mod assoc;
pub mod crossfeed;
pub mod filter_chain;
pub mod filter_type;
pub mod profile;
pub mod render;
pub mod capture;
pub mod apo;
pub mod device;
pub mod text;
pub mod control;
pub mod spectrum;
