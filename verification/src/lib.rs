//! Finds, compares, swaps and restores the NVIDIA runtime libraries that games
//! ship with.
//!
//! Everything in this crate is a computation on plain values. Files, the
//! registry, the network and the screen belong to the program around it.

pub mod archive;
pub mod backups;
pub mod catalog;
pub mod clock;
pub mod controls;
pub mod desk;
pub mod digest;
pub mod discovery;
pub mod discovery_laws;
pub mod download;
pub mod elevation;
pub mod files;
pub mod github;
pub mod helper;
pub mod icons;
pub mod imports;
pub mod indicator;
pub mod inspection;
pub mod keyed;
pub mod kinds;
pub mod labels;
pub mod latest;
pub mod library;
pub mod library_laws;
pub mod lists;
pub mod logs;
pub mod model;
pub mod order;
pub mod paths;
pub mod planning;
pub mod planning_laws;
pub mod platform;
pub mod portable;
pub mod profile;
pub mod release;
pub mod replacing;
pub mod review;
pub mod review_laws;
pub mod risk;
pub mod screen;
pub mod session;
pub mod session_laws;
pub mod swap;
pub mod targets;
pub mod text;
pub mod toast;
pub mod tools;
pub mod traits;
pub mod trust;
pub mod worker;
