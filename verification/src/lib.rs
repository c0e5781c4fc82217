//! Linkport: a rule-based browser router. Every clicked link is evaluated
//! against an ordered list of rules and opened in the browser (or browser
//! profile) the first matching rule names, blocked, or handed to the
//! default browser.
//!
//! This crate holds the verified core: the configuration model and its
//! validation, the rule engine, registry command parsing, the hot path's
//! launch decisions, the portal's authorization and URL logic, redirect
//! resolution and update checks. Reading and writing files, spawning
//! processes, HTTP and the command line are left to the application around
//! it, which hands this library plain values.

pub mod api;
pub mod config;
pub mod engine;
pub mod event;
pub mod launcher;
pub mod open;
pub mod outside;
pub mod paths;
pub mod platform;
pub mod portal;
pub mod redirect;
pub mod text;
pub mod update;
pub mod validate;

pub use config::{Browser, BrowserMap, Config, PortalConfig, Rule};
pub use engine::{Decision, Outcome, RuleTrace, TARGET_BLOCK};
pub use event::Event;
