//! Choosing the command for a file.
//!
//! Three tiers are asked in turn and the first that answers wins: the
//! mapping of file extensions, under a dot and the lower-cased extension;
//! the mapping of languages, in which a file's language is named by its
//! lower-cased extension; and the mapping of project types. The template
//! that was chosen is then filled in with the path and its directory.

use vstd::prelude::*;
use vstd::string::StringExecFns;
use crate::config::{ConfigView, RunnerConfig};
use crate::paths::{directory, directory_of, extension, path_extension};
use crate::project::{project_name, ProjectType};
use crate::template::{substitute, substituted};
use crate::text::{lowercase, option_text, owned, to_lower};

verus! {

/// The key of an extension in the mapping of files: a dot, then the
/// extension.
pub open spec fn file_key(ext: Seq<char>) -> Seq<char> {
    seq!['.'] + ext
}

/// The lower-cased extension of a path, if it has an extension.
pub open spec fn lowered_extension(path: Seq<char>) -> Option<Seq<char>> {
    match path_extension(path) {
        Some(e) => Some(lowercase(e)),
        None => None,
    }
}

/// The entry of a mapping under a key, if there is one.
pub open spec fn entry_of(m: Map<Seq<char>, Seq<char>>, key: Seq<char>) -> Option<Seq<char>> {
    if m.contains_key(key) {
        Some(m[key])
    } else {
        None
    }
}

/// The first tier: the mapping of files.
pub open spec fn files_tier(cfg: ConfigView, ext: Option<Seq<char>>) -> Option<Seq<char>> {
    match ext {
        Some(e) => entry_of(cfg.files, file_key(e)),
        None => None,
    }
}

/// The second tier: the mapping of languages.
pub open spec fn languages_tier(cfg: ConfigView, ext: Option<Seq<char>>) -> Option<Seq<char>> {
    match ext {
        Some(e) => entry_of(cfg.languages, e),
        None => None,
    }
}

/// The third tier: the mapping of project types.
pub open spec fn projects_tier(cfg: ConfigView, project: Option<ProjectType>) -> Option<
    Seq<char>,
> {
    match project {
        Some(t) => entry_of(cfg.projects, project_name(t)),
        None => None,
    }
}

/// The template that is chosen for a lower-cased extension and a project
/// type: the answer of the first tier that has one.
pub open spec fn selected(
    cfg: ConfigView,
    ext: Option<Seq<char>>,
    project: Option<ProjectType>,
) -> Option<Seq<char>> {
    if files_tier(cfg, ext) is Some {
        files_tier(cfg, ext)
    } else if languages_tier(cfg, ext) is Some {
        languages_tier(cfg, ext)
    } else {
        projects_tier(cfg, project)
    }
}

/// The command for a path in a project of the given type, if any tier has
/// one.
pub open spec fn resolution(cfg: ConfigView, path: Seq<char>, project: Option<ProjectType>) -> Option<
    Seq<char>,
> {
    match selected(cfg, lowered_extension(path), project) {
        Some(template) => Some(substituted(template, path, directory_of(path))),
        None => None,
    }
}

/// Chooses the template for a file with the given lower-cased extension in a
/// project of the given type.
pub fn select_template(
    config: &RunnerConfig,
    ext: &Option<String>,
    project: Option<ProjectType>,
) -> (r: Option<String>)
    requires
        config.wf(),
    ensures
        option_text(r) == selected(config@, option_text(*ext), project),
{
    if let Some(e) = ext {
        let mut key = owned(".");
        proof {
            reveal_strlit(".");
            assert("."@ =~= seq!['.']);
        }
        key.append(e.as_str());
        if let Some(template) = config.files.get(key.as_str()) {
            return Some(template);
        }
        if let Some(template) = config.languages.get(e.as_str()) {
            return Some(template);
        }
    }
    match project {
        Some(t) => config.projects.get(t.name()),
        None => None,
    }
}

/// Resolves the command for `path`: the chosen template with `{path}`
/// replaced by the path and `{dir}` by its directory. `None` means that no
/// tier has a command for the file.
pub fn resolve(config: &RunnerConfig, path: &str, project: Option<ProjectType>) -> (r: Option<
    String,
>)
    requires
        config.wf(),
    ensures
        option_text(r) == resolution(config@, path@, project),
{
    let ext = match extension(path) {
        Some(e) => Some(to_lower(e.as_str())),
        None => None,
    };
    match select_template(config, &ext, project) {
        Some(template) => {
            let dir = directory(path);
            Some(substitute(template.as_str(), path, dir.as_str()))
        },
        None => None,
    }
}

/// A hit in the mapping of files decides the command, whatever the mappings
/// of languages and of projects hold and whatever the project's type is.
pub proof fn lemma_files_tier_dominates(
    a: ConfigView,
    b: ConfigView,
    path: Seq<char>,
    project_a: Option<ProjectType>,
    project_b: Option<ProjectType>,
)
    requires
        a.files == b.files,
        lowered_extension(path) is Some,
        a.files.contains_key(file_key(lowered_extension(path)->0)),
    ensures
        resolution(a, path, project_a) == Some(
            substituted(a.files[file_key(lowered_extension(path)->0)], path, directory_of(path)),
        ),
        resolution(b, path, project_b) == resolution(a, path, project_a),
{
}

/// Without a hit in the mapping of files, a hit in the mapping of languages
/// decides the command, whatever the mapping of projects holds and whatever
/// the project's type is.
pub proof fn lemma_languages_tier_dominates(
    a: ConfigView,
    b: ConfigView,
    path: Seq<char>,
    project_a: Option<ProjectType>,
    project_b: Option<ProjectType>,
)
    requires
        a.files == b.files,
        a.languages == b.languages,
        lowered_extension(path) is Some,
        !a.files.contains_key(file_key(lowered_extension(path)->0)),
        a.languages.contains_key(lowered_extension(path)->0),
    ensures
        resolution(a, path, project_a) == Some(
            substituted(a.languages[lowered_extension(path)->0], path, directory_of(path)),
        ),
        resolution(b, path, project_b) == resolution(a, path, project_a),
{
}

/// Where neither the mapping of files nor that of languages answers, the
/// template of the project's type is the command.
pub proof fn lemma_projects_tier_last(cfg: ConfigView, path: Seq<char>, project: ProjectType)
    requires
        files_tier(cfg, lowered_extension(path)) is None,
        languages_tier(cfg, lowered_extension(path)) is None,
        cfg.projects.contains_key(project_name(project)),
    ensures
        resolution(cfg, path, Some(project)) == Some(
            substituted(cfg.projects[project_name(project)], path, directory_of(path)),
        ),
{
}

/// Where no tier answers there is no command.
pub proof fn lemma_no_tier_no_command(
    cfg: ConfigView,
    path: Seq<char>,
    project: Option<ProjectType>,
)
    requires
        files_tier(cfg, lowered_extension(path)) is None,
        languages_tier(cfg, lowered_extension(path)) is None,
        projects_tier(cfg, project) is None,
    ensures
        resolution(cfg, path, project) is None,
{
}

/// An empty configuration has a command for no file.
pub proof fn lemma_empty_configuration(cfg: ConfigView, path: Seq<char>, project: Option<ProjectType>)
    requires
        cfg.files == Map::<Seq<char>, Seq<char>>::empty(),
        cfg.languages == Map::<Seq<char>, Seq<char>>::empty(),
        cfg.projects == Map::<Seq<char>, Seq<char>>::empty(),
    ensures
        resolution(cfg, path, project) is None,
{
}

} // verus!
