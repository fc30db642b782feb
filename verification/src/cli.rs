use vstd::prelude::*;
use crate::article::{article_scaffold, new_article_path, scaffold_text};
use crate::error::JetError;
use crate::site::{spec_url_join, spec_url_path, url_join, url_path};
use crate::text::concat_texts;

verus! {

/// What the user asked for on the command line.
pub enum Command {
    /// Build the site into a directory (`public/` when none is given).
    Build { output_dir: Option<String> },
    /// Serve the site locally.
    Serve,
    /// Write the scaffold of a new article.
    Create { article_slug: String },
}

/// The command line of the generator.
pub struct CLI {
    pub command: Command,
}

/// The next thing that the driver of a command has to do.
pub enum Action {
    /// Tell whether the current directory is a Jet project.
    CheckRoot,
    /// Tell today's date, as `YYYY-MM-DD`.
    GetToday,
    /// Write `content` into the file `path`, and tell whether that worked.
    WriteArticle { path: String, content: String },
    /// Load the configuration and the articles of the site.
    LoadSite,
    /// Read the homepage template, and tell whether it was found.
    ReadHomepageTemplate,
    /// Read the article template, and tell whether it was found.
    ReadArticleTemplate,
    /// Build the site into `output_dir`.
    BuildSite { output_dir: String },
    /// Serve the site.
    Serve,
    /// End the command with `result`, after printing `message` if any.
    Finish { result: Result<(), JetError>, message: Option<String> },
}

/// The directory a site is built into when the command gives none.
pub open spec fn default_output_dir() -> Seq<char> {
    "public/"@
}

impl CLI {
    pub open spec fn is_create(self) -> bool {
        self.command is Create
    }

    /// The first decision: outside a Jet project every command fails;
    /// `create` goes on to ask for today's date, the other commands load the
    /// site.
    pub fn on_root_checked(&self, is_project_root: bool) -> (a: Action)
        ensures
            !is_project_root ==> a == (Action::Finish { result: Err(JetError::OutsideProject), message: None }),
            is_project_root && self.is_create() ==> a is GetToday,
            is_project_root && !self.is_create() ==> a is LoadSite,
    {
        if !is_project_root {
            Action::Finish { result: Err(JetError::OutsideProject), message: None }
        } else if let Command::Create { .. } = &self.command {
            Action::GetToday
        } else {
            Action::LoadSite
        }
    }

    /// With today's date, `create` writes the scaffold of the article into
    /// `articles/<slug>.md`.
    pub fn on_today(&self, today: &str) -> (a: Action)
        requires
            self.is_create(),
        ensures
            a matches Action::WriteArticle { path, content } && {
                &&& path@ == "articles/"@ + self.command->article_slug@ + ".md"@
                &&& content@ == scaffold_text(today@, self.command->article_slug@)
            },
    {
        match &self.command {
            Command::Create { article_slug } => Action::WriteArticle {
                path: new_article_path(article_slug.as_str()),
                content: article_scaffold(today, article_slug.as_str()),
            },
            _ => Action::Finish { result: Ok(()), message: None },
        }
    }

    /// After writing the article: success is reported with its path, a
    /// failed write ends with `FailedToCreateArticleFile`.
    pub fn on_article_written(&self, written: bool) -> (a: Action)
        requires
            self.is_create(),
        ensures
            written ==> (a matches Action::Finish { result: Ok(()), message: Some(m) } && m@
                == "Create article: articles/"@ + self.command->article_slug@ + ".md"@),
            !written ==> a == (Action::Finish { result: Err(JetError::FailedToCreateArticleFile), message: None }),
    {
        if !written {
            return Action::Finish { result: Err(JetError::FailedToCreateArticleFile), message: None };
        }
        match &self.command {
            Command::Create { article_slug } => {
                let path = new_article_path(article_slug.as_str());
                let m = concat_texts("Create article: ", path.as_str());
                proof {
                    assert(m@ =~= "Create article: articles/"@ + article_slug@ + ".md"@) by {
                        reveal_strlit("Create article: ");
                        reveal_strlit("articles/");
                        reveal_strlit("Create article: articles/");
                    }
                }
                Action::Finish { result: Ok(()), message: Some(m) }
            },
            _ => Action::Finish { result: Ok(()), message: None },
        }
    }

    /// After loading the site: its error ends the command, else the homepage
    /// template is read.
    pub fn on_site_loaded(&self, loaded: Result<(), JetError>) -> (a: Action)
        ensures
            loaded matches Err(e) ==> a == (Action::Finish { result: Err(e), message: None }),
            loaded is Ok ==> a is ReadHomepageTemplate,
    {
        match loaded {
            Err(e) => Action::Finish { result: Err(e), message: None },
            Ok(()) => Action::ReadHomepageTemplate,
        }
    }

    /// After reading the homepage template: a missing template ends the
    /// command with `TemplateNotFound`, else the article template is read.
    pub fn on_homepage_template(&self, found: bool) -> (a: Action)
        ensures
            !found ==> a == (Action::Finish { result: Err(JetError::TemplateNotFound), message: None }),
            found ==> a is ReadArticleTemplate,
    {
        if found {
            Action::ReadArticleTemplate
        } else {
            Action::Finish { result: Err(JetError::TemplateNotFound), message: None }
        }
    }

    /// After reading the article template: a missing template ends the
    /// command with `TemplateNotFound`; else `build` builds the site into its
    /// directory (`public/` by default) and `serve` serves it.
    pub fn on_article_template(&self, found: bool) -> (a: Action)
        requires
            !self.is_create(),
        ensures
            !found ==> a == (Action::Finish { result: Err(JetError::TemplateNotFound), message: None }),
            found && self.command is Serve ==> a is Serve,
            found && self.command is Build ==> (a matches Action::BuildSite { output_dir: dir }
                && dir@ == match self.command->output_dir {
                    Some(d) => d@,
                    None => default_output_dir(),
                }),
    {
        if !found {
            return Action::Finish { result: Err(JetError::TemplateNotFound), message: None };
        }
        match &self.command {
            Command::Build { output_dir } => {
                let dir = match output_dir {
                    Some(d) => d.clone(),
                    None => String::from_str("public/"),
                };
                Action::BuildSite { output_dir: dir }
            },
            Command::Serve => Action::Serve,
            Command::Create { .. } => Action::Finish { result: Ok(()), message: None },
        }
    }
}

/// Where the local server publishes the site: the path of the base URL,
/// joined to `http://localhost:3000`.  `None` where either URL step fails.
pub fn local_site_url(base_url: &str) -> (r: Option<String>)
    ensures
        match spec_url_path(base_url@) {
            None => r is None,
            Some(p) => match r {
                Some(u) => spec_url_join("http://localhost:3000"@, p) == Some(u@),
                None => spec_url_join("http://localhost:3000"@, p) is None,
            },
        },
{
    match url_path(base_url) {
        None => None,
        Some(path) => url_join("http://localhost:3000", path.as_str()),
    }
}

} // verus!
