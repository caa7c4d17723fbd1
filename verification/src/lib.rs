//! Beam: ephemeral transfers of a file or a directory from a terminal to any browser.
pub mod access;
pub mod cli;
pub mod content;
pub mod decimal;
pub mod doctor;
pub mod download_page;
pub mod duration;
pub mod headers;
pub mod provider;
pub mod relay;
pub mod relay_protocol;
pub mod session;
pub mod text;
pub mod tls;
pub mod ui;
pub mod weburl;
