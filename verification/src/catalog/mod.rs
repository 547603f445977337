//! Node-local catalog of replica files, their space and their attachments.

pub mod attachment;
pub mod attachment_laws;
pub mod call_laws;
pub mod catalog_laws;
pub mod encoding;
pub mod error;
pub mod model;
pub mod mounts;
pub mod paths;
pub mod pool;
pub mod pool_laws;
pub mod protocol;
pub mod readable_laws;
pub mod replica_laws;
pub mod record_laws;
pub mod records;
pub mod rules;
pub mod sparse;
pub mod store;
pub mod voters;
