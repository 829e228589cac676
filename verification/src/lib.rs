//! Verified core of the SMART tracker server: the data model, the
//! in-memory tables with the operations the HTTP routes perform on them,
//! the authorization decisions of each route, and the password and token
//! helpers they rely on.

pub mod model;
pub mod responder;
pub mod request_data;
pub mod db;
pub mod auth;
pub mod server;
pub mod laws;
