use code_runner::project::{detect, Marker, ProjectMarkers, ProjectType};

#[test]
fn no_marker_no_project() {
    assert_eq!(detect(&ProjectMarkers::none()), None);
}

#[test]
fn each_marker_alone() {
    let none = ProjectMarkers::none();
    assert_eq!(detect(&none.with(Marker::NodeManifest, true)), Some(ProjectType::Node));
    assert_eq!(detect(&none.with(Marker::PythonRequirements, true)), Some(ProjectType::Python));
    assert_eq!(detect(&none.with(Marker::PythonProject, true)), Some(ProjectType::Python));
    assert_eq!(detect(&none.with(Marker::RustManifest, true)), Some(ProjectType::Rust));
}

#[test]
fn node_before_python_before_rust() {
    let all = ProjectMarkers {
        node_manifest: true,
        python_requirements: true,
        python_project: true,
        rust_manifest: true,
    };
    assert_eq!(detect(&all), Some(ProjectType::Node));
    assert_eq!(detect(&all.with(Marker::NodeManifest, false)), Some(ProjectType::Python));
    let rust_and_python = ProjectMarkers::none()
        .with(Marker::RustManifest, true)
        .with(Marker::PythonProject, true);
    assert_eq!(detect(&rust_and_python), Some(ProjectType::Python));
}

#[test]
fn names_of_project_types() {
    assert_eq!(ProjectType::Node.name(), "node");
    assert_eq!(ProjectType::Python.name(), "python");
    assert_eq!(ProjectType::Rust.name(), "rust");
}

#[test]
fn names_of_marker_files() {
    assert_eq!(Marker::NodeManifest.file_name(), "package.json");
    assert_eq!(Marker::PythonRequirements.file_name(), "requirements.txt");
    assert_eq!(Marker::PythonProject.file_name(), "pyproject.toml");
    assert_eq!(Marker::RustManifest.file_name(), "Cargo.toml");
}
