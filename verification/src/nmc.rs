//! The provider adapter: decoding of responses and mapping into reports.

pub mod charts;
pub mod current;
pub mod envelope;
pub mod mapper;
pub mod optional;
pub mod transport;
pub mod value;
