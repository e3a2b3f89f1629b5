//! The server: it gathers what the hosts report and shows it.
pub mod db;
pub mod detail;
pub mod grpc;
pub mod history;
pub mod http;
pub mod laws;
pub mod page_laws;
pub mod stats;
pub mod store_laws;
pub mod width;
