//! Matching core of a decentralized exposure-notification scheme: time
//! windows over which published reports are fetched, the record format of the
//! local observation log, and the engine that tests signed reports against
//! the contact numbers a device has observed.

pub mod composition_root;
pub mod core_log;
pub mod errors;
pub mod matching_laws;
pub mod observation_store;
pub mod observed_tcn;
pub mod observed_tcn_processor;
pub mod public_report;
pub mod reports_interval;
pub mod reports_updater;
pub mod signed_report;
pub mod tcn_matcher;
