//! Package management logic for the `ant` language: crate versions and the
//! package index, dependency resolution, download and install planning,
//! project scaffolding and manifest lookup.

pub mod decimal;
pub mod krate;
pub mod crate_toml_config;
pub mod crate_manager;
pub mod downloader;
pub mod toml_doc;
pub mod project;
pub mod handler;
pub mod utils;
pub mod unzip;
