use vstd::prelude::*;
use crate::error::JetError;

verus! {

/// What the user asked for on the command line.
pub enum Command {
    /// Build the blog into a directory (`public/` when none is given).
    Build { output_dir: Option<String> },
    /// Serve the blog locally.
    Serve,
    /// Write the scaffold of a new article.
    Create { article_slug: String },
}

/// The command line of the blog generator, in its first form: each command
/// is decided at once and then carried out as a whole.
pub struct CLI {
    pub command: Command,
}

/// The work that a command comes down to.
pub enum Task {
    /// Build the blog into `output_dir`.
    BuildSite { output_dir: String },
    /// Serve the blog.
    Serve,
    /// Write the scaffold of the article `slug`.
    CreateArticle { slug: String },
}

impl CLI {
    /// What to do for the command: nothing but `OutsideProject` outside a
    /// Jet project; else the task of the command, `build` going into
    /// `public/` when no directory is given.
    pub fn run(&self, is_project_root: bool) -> (r: Result<Task, JetError>)
        ensures
            !is_project_root ==> r == Err::<Task, JetError>(JetError::OutsideProject),
            is_project_root ==> match self.command {
                Command::Build { output_dir } => r matches Ok(Task::BuildSite { output_dir: dir }) && dir@
                    == match output_dir {
                    Some(d) => d@,
                    None => "public/"@,
                },
                Command::Serve => r matches Ok(Task::Serve),
                Command::Create { article_slug } => r matches Ok(Task::CreateArticle { slug }) && slug
                    == article_slug,
            },
    {
        if !is_project_root {
            return Err(JetError::OutsideProject);
        }
        match &self.command {
            Command::Build { output_dir } => {
                let dir = match output_dir {
                    Some(d) => d.clone(),
                    None => String::from_str("public/"),
                };
                Ok(Task::BuildSite { output_dir: dir })
            },
            Command::Serve => Ok(Task::Serve),
            Command::Create { article_slug } => Ok(Task::CreateArticle { slug: article_slug.clone() }),
        }
    }
}

} // verus!
