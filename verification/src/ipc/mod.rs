//! Messages between the controller and its clients.

pub mod http;
