//! Jet: a small static blog generator.
//!
//! The library holds the logic of the generator: the model of an article and
//! its date, the grouping of articles into yearly archives for the homepage,
//! the RSS feed items, the site configuration, the article scaffold written
//! by `create`, and the decisions of the command line driver.  Reading and
//! writing files, serving pages and parsing the command line live in the
//! program around it.

pub mod error;
pub mod date;
pub mod text;
pub mod article;
pub mod newest_first;
pub mod renderer;
pub mod archive_laws;
pub mod blog;
pub mod site;
pub mod rss;
pub mod server;
pub mod cli;
pub mod commands;
