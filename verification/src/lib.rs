//! State and decisions of the library side of a terminal music client.

pub mod access;
pub mod app;
pub mod domain;
pub mod editing;
pub mod errors;
pub mod exchange;
pub mod fetch;
pub mod folders;
pub mod gate;
pub mod ids;
pub mod json;
pub mod liked;
pub mod native;
pub mod pages;
pub mod payload;
pub mod playlist_pages;
pub mod refresh;
pub mod requests;
pub mod saved;
pub mod search;
pub mod sidebar;
pub mod sorting;
pub mod text;

