//! Verified core of an ambient learning assistant: feature flags, health
//! monitoring, adaptive capture caching, daily digest and more.

pub mod adaptive;
pub mod artefact;
pub mod chat;
pub mod clock;
pub mod clustering;
pub mod config;
pub mod context;
pub mod crypto;
pub mod detection;
pub mod digest;
pub mod features;
pub mod flow;
pub mod focus;
pub mod health;
pub mod intent;
pub mod intent_detector;
pub mod learn;
pub mod learning;
pub mod ml;
pub mod monitor;
pub mod opportunity;
pub mod pause;
pub mod pattern_learner;
pub mod patterns;
pub mod repetition;
pub mod smart_cache;
pub mod text;
