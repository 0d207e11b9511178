//! An OPDS catalog bridge for ebook archives: feed generation, search result
//! ranking, archive page scraping and cover metadata handling.
use vstd::prelude::*;

pub mod clock;
pub mod config;
pub mod cover_gen;
pub mod db;
pub mod http;
pub mod encoding;
pub mod models;
pub mod numbers;
pub mod opds;
pub mod scraper;
pub mod service;
pub mod sorting;
pub mod state;
pub mod text;
