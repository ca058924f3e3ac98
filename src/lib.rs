//! Core of a status dashboard for a jail/plugin management API: decoding of
//! the API's JSON answers, the merge of jails and plugins into view records,
//! the shared snapshot that one poller writes and many readers read, and the
//! decision taken at the end of each poll cycle.

pub mod icon;
pub mod jail_map;
pub mod model;
pub mod merge;
pub mod document;
pub mod snapshot;
pub mod client;
pub mod poller;
