//! Why a build stops. Every failure is fatal to the build invocation
//! that hit it; only per-image conditions are recovered locally (by
//! keeping the original reference) and never surface here.

use vstd::prelude::*;

verus! {

/// The failures a build can end with.
#[derive(Debug)]
pub enum BuildError {
    /// A required folder or file was missing before the build started.
    PrecheckFailed,
    /// The staging tree could not be reset or created.
    StagingSetupFailed,
    /// A template source is missing or does not parse.
    TemplateLoadFailed,
    /// An article's metadata block is missing or malformed; holds the
    /// article file's name.
    MalformedFrontMatter(String),
    /// The articles source directory could not be read.
    ArticlesUnreadable,
    /// Binding data into a template failed.
    RenderFailed,
    /// The external stylesheet build failed to run or exited with an
    /// error.
    ExternalBuildFailed,
}

/// The human-readable description of a build failure.
pub open spec fn spec_message(e: BuildError) -> Seq<char> {
    match e {
        BuildError::PrecheckFailed => "Not all required folders and files exist"@,
        BuildError::StagingSetupFailed => "Could not reset the staging directory"@,
        BuildError::TemplateLoadFailed => "Could not load a page template"@,
        BuildError::MalformedFrontMatter(f) => "Could not parse front matter in "@ + f@,
        BuildError::ArticlesUnreadable => "Could not read the articles directory"@,
        BuildError::RenderFailed => "Could not render a page template"@,
        BuildError::ExternalBuildFailed => "Could not build the stylesheet"@,
    }
}

impl BuildError {
    /// The human-readable description of this failure, naming the file
    /// for a front-matter error.
    pub fn message(&self) -> (r: String)
        ensures
            r@ == spec_message(*self),
    {
        match self {
            BuildError::PrecheckFailed => "Not all required folders and files exist".to_owned(),
            BuildError::StagingSetupFailed => "Could not reset the staging directory".to_owned(),
            BuildError::TemplateLoadFailed => "Could not load a page template".to_owned(),
            BuildError::MalformedFrontMatter(f) => {
                let mut r = "Could not parse front matter in ".to_owned();
                r.append(f.as_str());
                r
            },
            BuildError::ArticlesUnreadable => "Could not read the articles directory".to_owned(),
            BuildError::RenderFailed => "Could not render a page template".to_owned(),
            BuildError::ExternalBuildFailed => "Could not build the stylesheet".to_owned(),
        }
    }
}

} // verus!
