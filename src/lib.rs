//! Service monitoring: a bounded history of probe results per service, the
//! decisions of one check-and-publish cycle, the rendered site, and the request
//! handling of the file server that publishes it.
pub mod config;
pub mod cycle;
pub mod history;
pub mod render;
pub mod server;
pub mod service;
pub mod text;
