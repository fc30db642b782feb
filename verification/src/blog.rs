use vstd::prelude::*;
use crate::article::Articles;

verus! {

/// The settings of a blog, as its configuration file `jet.toml` gives them.
pub struct Config {
    pub title: String,
    pub base_url: String,
    pub description: String,
}

/// A blog: its settings and its articles.
pub struct Blog {
    pub config: Config,
    pub articles: Articles,
}

} // verus!
