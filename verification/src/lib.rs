//! The decision logic of a print relay that forwards print jobs from a
//! hosted point-of-sale queue to printers on the local network.

pub mod text;
pub mod ipv4;
pub mod printer;
pub mod http_status;
pub mod job;
pub mod config;
pub mod relay;
