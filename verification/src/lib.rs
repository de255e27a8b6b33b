//! Verified core of the appldown terminal downloader.
pub mod external;
pub mod text;
pub mod track;
pub mod app;
pub mod app_laws;
pub mod route;
pub mod json;
pub mod download;
pub mod worker;
pub mod view;
pub mod laws;
