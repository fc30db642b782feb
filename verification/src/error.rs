use vstd::prelude::*;

verus! {

/// The ways in which a command of the generator can fail.
#[derive(Debug, Clone, Copy, PartialEq, Eq, Structural)]
pub enum JetError {
    OutsideProject,
    IncompleteSiteConfig,
    InvalidBaseURL,
    FailedToCreateArticleFile,
    FailedToCreateHomepageFile,
    TemplateNotFound,
}

/// The message shown to the user for each error.
pub open spec fn error_message(e: JetError) -> Seq<char> {
    match e {
        JetError::OutsideProject => "Error: The current directory is not a Jet project"@,
        JetError::TemplateNotFound => "Error: The template files are not found"@,
        JetError::IncompleteSiteConfig => "Error: The site config file is incomplete"@,
        JetError::FailedToCreateHomepageFile => "Error: Failed to create homepage file"@,
        JetError::FailedToCreateArticleFile => "Error: Failed to create article files"@,
        JetError::InvalidBaseURL => "Error: The BaseURL is invalid"@,
    }
}

impl JetError {
    /// The message printed when a command ends with this error.
    pub fn message(&self) -> (msg: &'static str)
        ensures
            msg@ == error_message(*self),
    {
        match self {
            JetError::OutsideProject => "Error: The current directory is not a Jet project",
            JetError::TemplateNotFound => "Error: The template files are not found",
            JetError::IncompleteSiteConfig => "Error: The site config file is incomplete",
            JetError::FailedToCreateHomepageFile => "Error: Failed to create homepage file",
            JetError::FailedToCreateArticleFile => "Error: Failed to create article files",
            JetError::InvalidBaseURL => "Error: The BaseURL is invalid",
        }
    }
}

} // verus!
