use dx_story::init::{DeclaredDependency, LibrarySource};
use dx_story::manifest::{configuration_text, manifest_change, PackageFacts};
use toml_edit::{value, Array, ArrayOfTables, DocumentMut, InlineTable, Item, Table, Value};

fn path(value: &str) -> Vec<String> {
    let mut components = vec!["/".to_owned()];
    components.extend(value.split('/').filter(|part| !part.is_empty()).map(str::to_owned));
    components
}

fn dependency(name: &str, optional: bool) -> DeclaredDependency {
    DeclaredDependency { name: name.to_owned(), rename: None, target_specific: false, optional }
}

fn package(dependencies: Vec<DeclaredDependency>) -> PackageFacts {
    PackageFacts { features: vec![], targets: vec!["starter".to_owned()], dependencies }
}

/// The manifest edit made on one document, step by step, as toml_edit's own API makes it.
fn edited_in_one_document(source: &str, library: InlineTable, dioxus: &str, features: &[&str]) -> String {
    let mut manifest = source.parse::<DocumentMut>().unwrap();
    let dependencies = manifest
        .entry("dependencies")
        .or_insert(Item::Table(Table::new()))
        .as_table_like_mut()
        .unwrap();
    if !dependencies.contains_key("dx-story") {
        dependencies.insert("dx-story", Item::Value(Value::InlineTable(library)));
    }
    if !dependencies.contains_key("dioxus") {
        let mut dependency = InlineTable::new();
        dependency.insert("version", Value::from(dioxus));
        dependency.insert("default-features", Value::from(false));
        dependencies.insert("dioxus", Item::Value(Value::InlineTable(dependency)));
    }
    let mut list = Array::new();
    for feature in features {
        list.push(*feature);
    }
    manifest["features"]["component-catalog"] = value(list);
    let mut example = Table::new();
    example["name"] = value("component-catalog");
    example["path"] = value("dev/main.rs");
    let mut required = Array::new();
    required.push("component-catalog");
    example["required-features"] = value(required);
    manifest
        .entry("example")
        .or_insert(Item::ArrayOfTables(ArrayOfTables::new()))
        .as_array_of_tables_mut()
        .unwrap()
        .push(example);
    manifest.to_string()
}

fn registry_library() -> InlineTable {
    let mut library = InlineTable::new();
    library.insert("version", Value::from("0.1.0"));
    library.insert("optional", Value::from(true));
    library
}

#[test]
fn manifest_change_keeps_comments_and_adds_the_catalog() {
    let manifest = "# Keep this comment.\n[package]\nname='starter'\nversion='0.1.0'\nedition='2024'\n";
    let edited = manifest_change(manifest, package(vec![]), &LibrarySource::Registry, &path("/w/starter")).unwrap();
    assert!(edited.contains("# Keep this comment."));
    assert!(edited.contains("optional = true"));
    assert!(edited.contains("[[example]]"));
    assert_eq!(
        edited,
        edited_in_one_document(manifest, registry_library(), "0.7.10", &["dep:dx-story", "dx-story/catalog"])
    );
}

#[test]
fn manifest_change_extends_existing_dependencies_features_and_examples() {
    let manifest = "[package]\nname='fixture-ui'\nversion='0.1.0'\nedition='2024'\n[dependencies]\ndioxus={path='../dioxus',optional=true}\nhelper={path='../helper',optional=true}\n[features]\npreview=['dep:helper']\n[[example]]\nname='preview'\npath='dev/main.rs'\nrequired-features=['preview']\n";
    let library = LibrarySource::Local { path: path("/w/dx-story"), dioxus_requirement: "0.7".to_owned() };
    let edited = manifest_change(
        manifest,
        package(vec![dependency("dioxus", true), dependency("helper", true)]),
        &library,
        &path("/w/ui"),
    )
    .unwrap();
    let mut local = InlineTable::new();
    local.insert("path", Value::from("../dx-story"));
    local.insert("optional", Value::from(true));
    assert_eq!(
        edited,
        edited_in_one_document(manifest, local, "0.7", &["dep:dx-story", "dep:dioxus", "dx-story/catalog"])
    );
}

#[test]
fn manifest_change_keeps_a_required_library_dependency() {
    let manifest = "[package]\nname='starter'\n[dependencies]\ndx-story = { version = '0.1', optional = false }\ndioxus = '0.7'\n";
    let edited = manifest_change(
        manifest,
        package(vec![dependency("dx-story", false), dependency("dioxus", false)]),
        &LibrarySource::Registry,
        &path("/w/starter"),
    )
    .unwrap();
    assert_eq!(edited, edited_in_one_document(manifest, registry_library(), "0.7.10", &["dx-story/catalog"]));
}

#[test]
fn manifest_change_reports_unreadable_and_refused_manifests() {
    let registry = LibrarySource::Registry;
    let root = path("/w/starter");
    assert_eq!(
        manifest_change("[package\nname=", package(vec![]), &registry, &root),
        Err("parse consumer manifest".to_owned())
    );
    assert_eq!(
        manifest_change("dependencies = 3\n", package(vec![]), &registry, &root),
        Err("dependencies must be a table".to_owned())
    );
    assert_eq!(
        manifest_change("example = 'x'\n", package(vec![]), &registry, &root),
        Err("example must be an array of tables".to_owned())
    );
    assert_eq!(
        manifest_change("features = 3\n", package(vec![]), &registry, &root),
        Err("features must be a table".to_owned())
    );
    let mut existing = package(vec![]);
    existing.features = vec!["component-catalog".to_owned()];
    assert_eq!(
        manifest_change("[package]\nname='starter'\n", existing, &registry, &root),
        Err("package already has a component-catalog feature".to_owned())
    );
    assert_eq!(
        manifest_change(
            "[package]\nname='starter'\n[target.'cfg(unix)'.dependencies]\ndx-story='0.1'\n",
            package(vec![DeclaredDependency {
                name: "dx-story".to_owned(),
                rename: None,
                target_specific: true,
                optional: false,
            }]),
            &registry,
            &root,
        ),
        Err("move the target-specific dx-story dependency to [dependencies] before initialization".to_owned())
    );
}

#[test]
fn configuration_names_the_package_and_its_path() {
    let mut settings = DocumentMut::new();
    settings["catalog"]["package"] = value("ui");
    assert_eq!(configuration_text("ui", &None), settings.to_string());
    settings["catalog"]["path"] = value("../ui");
    assert_eq!(
        configuration_text("ui", &Some(vec!["..".to_owned(), "ui".to_owned()])),
        settings.to_string()
    );
    assert_eq!(settings.to_string(), "catalog = { package = \"ui\", path = \"../ui\" }\n");
}

#[test]
fn manifest_change_adds_only_the_missing_dioxus_dependency() {
    let manifest = "[package]\nname='starter'\n[dependencies]\ndx-story = { version = '0.1', optional = true }\n";
    let edited = manifest_change(
        manifest,
        package(vec![dependency("dx-story", true)]),
        &LibrarySource::Registry,
        &path("/w/starter"),
    )
    .unwrap();
    assert_eq!(
        edited,
        edited_in_one_document(manifest, registry_library(), "0.7.10", &["dep:dx-story", "dx-story/catalog"])
    );
    assert!(edited.contains("dioxus = { version = \"0.7.10\", default-features = false }"));
}
