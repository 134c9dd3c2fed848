use vstd::prelude::*;

pub mod text;
pub mod dom;
pub mod pattern;
pub mod date;
pub mod models;
pub mod filter;
pub mod seen;
pub mod crawlers;
pub mod extractor;
pub mod job;
pub mod slack;
pub mod summarizer;
pub mod config;
