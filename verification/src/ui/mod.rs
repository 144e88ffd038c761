//! The decisions of the web UI: what its forms mean, what its pages show,
//! and how requests are routed, authorized and answered.

pub mod text;
pub mod forms;
pub mod routes;
pub mod http;
pub mod pages;
pub mod handlers;
