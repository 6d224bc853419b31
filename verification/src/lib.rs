//! Work distribution and completion tracking for a pool of core-pinned
//! workers that contend for arithmetic requests on one bounded channel.

pub mod channel;
pub mod config;
pub mod driver;
pub mod error;
pub mod protocol;
pub mod request;
pub mod worker;
