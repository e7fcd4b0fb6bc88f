//! Host packet-filter policy management.
//!
//! - [`rules`]: the policy and its compilation into ordered pf directives.
//! - [`laws`], [`shapes`]: properties of the compiled text, proved.
//! - [`ctl`]: the control utility's subcommands, requests and replies.
//! - [`manager`]: the enable/disable/load/status lifecycle as a state machine
//!   that the caller drives one request at a time.
//! - [`loader`]: the configuration directory and the persisted settings.
//! - [`tools`]: directed entries, owners, routing-table and VPN-configuration
//!   parsing.
//! - [`text`], [`utils`]: string helpers, home expansion, the clock.
pub mod ctl;
pub mod laws;
pub mod loader;
pub mod manager;
pub mod rules;
pub mod shapes;
pub mod text;
pub mod tools;
pub mod utils;
