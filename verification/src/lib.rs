//! Core engine of an application cleaner: name normalisation, identifier
//! derivation, heuristic file matching, orphan detection rules, package
//! manager output parsing, universal-binary parsing and trash bookkeeping.
//! Every function here is pure: file system walks, process launches and
//! clocks live in the application crate, which hands plain values in.

pub mod bytes;
pub mod text;
pub mod unicode;
pub mod pattern;
pub mod format;
pub mod model;
pub mod paths;
pub mod identifiers;
pub mod matcher;
pub mod conditions;
pub mod lipo;
pub mod desktop;
pub mod order;
pub mod pkg;
pub mod xdg;
pub mod plugin;
pub mod commands;
pub mod homebrew;
pub mod orphan;
pub mod search;
pub mod macos;
pub mod bundle;
pub mod trash;
pub mod dev_env;
pub mod platform;
pub mod locations;
pub mod linux;
pub mod utf16;
pub mod windows;
pub mod winget;
pub mod apt;
pub mod cli;
pub mod flows;
pub mod scan;
