//! Project types and how the marker files of a directory decide one.

use vstd::prelude::*;

verus! {

/// The toolchain of a project directory.
#[derive(Clone, Copy, Debug, PartialEq, Eq, Structural)]
pub enum ProjectType {
    Node,
    Python,
    Rust,
}

/// A file whose presence in a directory tells of a project type.
#[derive(Clone, Copy, Debug, PartialEq, Eq, Structural)]
pub enum Marker {
    NodeManifest,
    PythonRequirements,
    PythonProject,
    RustManifest,
}

/// Which marker files a directory holds. A directory that does not exist
/// holds none.
#[derive(Clone, Copy, Debug, PartialEq, Eq, Structural)]
pub struct ProjectMarkers {
    pub node_manifest: bool,
    pub python_requirements: bool,
    pub python_project: bool,
    pub rust_manifest: bool,
}

/// The identifier under which a project type stands in a configuration.
pub open spec fn project_name(t: ProjectType) -> Seq<char> {
    match t {
        ProjectType::Node => "node"@,
        ProjectType::Python => "python"@,
        ProjectType::Rust => "rust"@,
    }
}

/// The file name of a marker.
pub open spec fn marker_name(m: Marker) -> Seq<char> {
    match m {
        Marker::NodeManifest => "package.json"@,
        Marker::PythonRequirements => "requirements.txt"@,
        Marker::PythonProject => "pyproject.toml"@,
        Marker::RustManifest => "Cargo.toml"@,
    }
}

/// The project type that a set of markers tells of: node before python
/// before rust, and none without a marker.
pub open spec fn detected(m: ProjectMarkers) -> Option<ProjectType> {
    if m.node_manifest {
        Some(ProjectType::Node)
    } else if m.python_requirements || m.python_project {
        Some(ProjectType::Python)
    } else if m.rust_manifest {
        Some(ProjectType::Rust)
    } else {
        None
    }
}

impl ProjectType {
    /// The identifier under which the project type stands in a configuration.
    pub fn name(&self) -> (r: &'static str)
        ensures
            r@ == project_name(*self),
    {
        match self {
            ProjectType::Node => "node",
            ProjectType::Python => "python",
            ProjectType::Rust => "rust",
        }
    }
}

impl Marker {
    /// The file name to look for.
    pub fn file_name(&self) -> (r: &'static str)
        ensures
            r@ == marker_name(*self),
    {
        match self {
            Marker::NodeManifest => "package.json",
            Marker::PythonRequirements => "requirements.txt",
            Marker::PythonProject => "pyproject.toml",
            Marker::RustManifest => "Cargo.toml",
        }
    }
}

impl ProjectMarkers {
    /// No marker at all.
    pub fn none() -> (m: ProjectMarkers)
        ensures
            m == (ProjectMarkers {
                node_manifest: false,
                python_requirements: false,
                python_project: false,
                rust_manifest: false,
            }),
    {
        ProjectMarkers {
            node_manifest: false,
            python_requirements: false,
            python_project: false,
            rust_manifest: false,
        }
    }

    /// The same markers with one more, or one fewer.
    pub fn with(self, marker: Marker, present: bool) -> (m: ProjectMarkers)
        ensures
            m == (match marker {
                Marker::NodeManifest => ProjectMarkers { node_manifest: present, ..self },
                Marker::PythonRequirements => ProjectMarkers { python_requirements: present, ..self },
                Marker::PythonProject => ProjectMarkers { python_project: present, ..self },
                Marker::RustManifest => ProjectMarkers { rust_manifest: present, ..self },
            }),
    {
        match marker {
            Marker::NodeManifest => ProjectMarkers { node_manifest: present, ..self },
            Marker::PythonRequirements => ProjectMarkers { python_requirements: present, ..self },
            Marker::PythonProject => ProjectMarkers { python_project: present, ..self },
            Marker::RustManifest => ProjectMarkers { rust_manifest: present, ..self },
        }
    }
}

/// Decides the project type from the markers found in a directory.
pub fn detect(markers: &ProjectMarkers) -> (r: Option<ProjectType>)
    ensures
        r == detected(*markers),
{
    if markers.node_manifest {
        Some(ProjectType::Node)
    } else if markers.python_requirements || markers.python_project {
        Some(ProjectType::Python)
    } else if markers.rust_manifest {
        Some(ProjectType::Rust)
    } else {
        None
    }
}

} // verus!
