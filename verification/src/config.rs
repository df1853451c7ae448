//! The configuration: three mappings from a key to a command template.

use vstd::prelude::*;
use crate::mapping::Mapping;

verus! {

/// The configuration of a runner. It is built once and never changed.
pub struct RunnerConfig {
    /// Command templates by dotted file extension, such as `.py`.
    pub files: Mapping,
    /// Command templates by language identifier.
    pub languages: Mapping,
    /// Command templates by project type, such as `node`.
    pub projects: Mapping,
}

/// A configuration as three mathematical maps.
pub struct ConfigView {
    pub files: Map<Seq<char>, Seq<char>>,
    pub languages: Map<Seq<char>, Seq<char>>,
    pub projects: Map<Seq<char>, Seq<char>>,
}

impl View for RunnerConfig {
    type V = ConfigView;

    open spec fn view(&self) -> ConfigView {
        ConfigView { files: self.files@, languages: self.languages@, projects: self.projects@ }
    }
}

impl RunnerConfig {
    /// Each of the three mappings has unique keys.
    pub open spec fn wf(&self) -> bool {
        self.files.wf() && self.languages.wf() && self.projects.wf()
    }

    /// The configuration with the given mappings.
    pub fn new(files: Mapping, languages: Mapping, projects: Mapping) -> (c: RunnerConfig)
        requires
            files.wf(),
            languages.wf(),
            projects.wf(),
        ensures
            c.wf(),
            c.files == files,
            c.languages == languages,
            c.projects == projects,
    {
        RunnerConfig { files, languages, projects }
    }

    /// The configuration in which every mapping is empty.
    pub fn empty() -> (c: RunnerConfig)
        ensures
            c.wf(),
            c@.files == Map::<Seq<char>, Seq<char>>::empty(),
            c@.languages == Map::<Seq<char>, Seq<char>>::empty(),
            c@.projects == Map::<Seq<char>, Seq<char>>::empty(),
    {
        RunnerConfig { files: Mapping::new(), languages: Mapping::new(), projects: Mapping::new() }
    }
}

} // verus!
