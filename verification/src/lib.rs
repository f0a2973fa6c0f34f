//! Finding, validating and running CLAP and VST3 plugins.
//!
//! Plugins are native libraries that can hang or crash the process that loads them. So a scan
//! validates each candidate in a helper process, remembers the outcome by the fingerprint of the
//! file, and hands the host metadata only.
//!
//! - [`scan`]: the background scanner, its cache, and the host's end of a running scan.
//! - [`clap`] and [`vst3`]: what is a candidate of a format, where its binary is, and how a
//!   binary is probed; for VST3 also how a plugin is set up, played, shown and taken down.
//! - [`validator`]: the command line of the helper process.
//! - [`clap_scan`]: the scanner of a host that runs CLAP plugins only.
//! - [`registry`]: what the audio host is told about a plugin.
//! - [`paths`], [`path_map`], [`text`], [`channel`]: what the above rests on.
//!
//! Nothing here touches a file, a process or a plugin. Where a decision depends on one, a small
//! machine hands out requests and takes the answers back, and what it does is stated for every
//! sequence of answers.

pub mod channel;
pub mod clap;
pub mod clap_scan;
pub mod laws;
pub mod path_map;
pub mod paths;
pub mod registry;
pub mod scan;
pub mod text;
pub mod validator;
pub mod vst3;
