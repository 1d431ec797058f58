//! Reconciles a declarative description of local Unix users and groups with
//! the accounts found on a host.
//!
//! The crate holds the decisions only: it reads the account stores from text,
//! compares the wanted accounts with the observed ones and says which calls
//! of the account management tools bring the host to the wanted state, and in
//! which order. Reading files and running the tools is left to the caller.
//!
//! * [`sync_structs`] holds the wanted state, [`system_parser`] reads the
//!   observed one and [`snapshot`] answers questions about it.
//! * [`differ`] compares the two and [`runner`] decides, stage by stage, the
//!   steps of a pass; [`pass`] says what holds of a whole pass.
//! * [`setup`] settles what comes before a pass, [`text`] reads and writes
//!   the texts that all of this goes by, and [`consts`] names the fixed
//!   values.

pub mod consts;
pub mod differ;
pub mod pass;
pub mod runner;
pub mod setup;
pub mod snapshot;
pub mod sync_structs;
pub mod system_parser;
pub mod text;
