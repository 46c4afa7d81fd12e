//! Skippable media segments: candidates, detectors, providers, jobs and
//! playback preferences.

pub mod analysis;
pub mod audio;
pub mod candidate;
pub mod catalogues;
pub mod certification;
pub mod chapters;
pub mod consts;
pub mod context;
pub mod discovery;
pub mod error;
pub mod extraction;
pub mod filters;
pub mod fingerprint;
pub mod frames;
pub mod jobs;
pub mod json;
pub mod library;
pub mod lookup;
pub mod marketplace;
pub mod metadata;
pub mod metrics;
pub mod network;
pub mod normalize;
pub mod number;
pub mod order;
pub mod outside;
pub mod preferences;
pub mod probe;
pub mod quantity;
pub mod reading;
pub mod responses;
pub mod runs;
pub mod settings;
pub mod text;
pub mod tvdb;
pub mod visual;
pub mod worker;
pub mod writing;
