//! Core logic of the pharmaceutical monitoring desktop service: license codes and
//! their evaluation, Modbus framing, request auditing rules, log buffers and the
//! small parsers the service relies on.

pub mod text;
pub mod db;
pub mod license;
pub mod modbus;
pub mod audit;
pub mod server;
pub mod syslog;
pub mod pharma;
pub mod report;
pub mod sysops;
pub mod tree;
