//! Connection lifecycle and delivery rules of a spreadsheet sink connector.

pub mod backoff;
pub mod connector;
pub mod json;
pub mod payload;
pub mod sink;
pub mod trace;
