use dx_story::init::{
    catalog_path_setting, check_file_states, crate_name, embedded_main, has_catalog_wiring,
    local_library_source, plan_manifest_change, relative_path, wire_embedded_library,
    DeclaredDependency, EmbeddedLibrary, FileState, LibraryDependency, LibrarySource,
    ManifestFacts, ManifestPlan, CATALOG_EXAMPLE_PATH, CATALOG_FEATURE, LIBRARY_VERSION,
};

fn path(value: &str) -> Vec<String> {
    let mut components = Vec::new();
    if value.starts_with('/') {
        components.push("/".to_owned());
    }
    components.extend(value.split('/').filter(|part| !part.is_empty()).map(str::to_owned));
    components
}

fn names(values: &[&str]) -> Vec<String> {
    values.iter().map(|value| (*value).to_owned()).collect()
}

fn dependency(name: &str) -> DeclaredDependency {
    DeclaredDependency {
        name: name.to_owned(),
        rename: None,
        target_specific: false,
        optional: false,
    }
}

fn facts() -> ManifestFacts {
    ManifestFacts {
        features: names(&["default"]),
        targets: names(&["ui"]),
        dependencies: vec![dependency("serde")],
        has_target_table: false,
        dependencies_is_table: true,
        declares_library: false,
        library_optional: false,
        declares_dioxus: false,
        examples_is_array: true,
    }
}

#[test]
fn relative_paths_climb_to_the_shared_prefix() {
    assert_eq!(relative_path(&path("/w/a/b"), &path("/w/c")), Ok(names(&["..", "..", "c"])));
    assert_eq!(relative_path(&path("/w"), &path("/w/ui")), Ok(names(&["ui"])));
    assert_eq!(relative_path(&path("/w/ui"), &path("/w/ui")), Ok(Vec::new()));
    assert_eq!(
        relative_path(&names(&["C:"]), &names(&["D:"])),
        Err("paths must share a filesystem root".to_owned())
    );
}

#[test]
fn following_a_relative_path_reaches_its_target() {
    let from = path("/w/a/b");
    let to = path("/w/c/d");
    let mut reached = from.clone();
    for component in relative_path(&from, &to).unwrap() {
        if component == ".." {
            reached.pop();
        } else {
            reached.push(component);
        }
    }
    assert_eq!(reached, to);
}

#[test]
fn library_source_gives_the_dependency_and_dioxus_requirement() {
    assert_eq!(LibrarySource::Registry.dioxus_requirement(), "0.7.10");
    assert_eq!(
        LibrarySource::Registry.dependency(&path("/w/ui")),
        Ok(LibraryDependency::Version(LIBRARY_VERSION.to_owned()))
    );
    let local = local_library_source(
        path("/src/dx-story/crates/dx-story"),
        &names(&["serde", "dioxus"]),
        &names(&["1", "^0.7.10"]),
    )
    .unwrap();
    assert_eq!(local.dioxus_requirement(), "^0.7.10");
    assert_eq!(
        local.dependency(&path("/src/app/ui")),
        Ok(LibraryDependency::Path(names(&["..", "..", "dx-story", "crates", "dx-story"])))
    );
    assert_eq!(
        local_library_source(path("/x"), &names(&["serde"]), &names(&["1"])),
        Err("dx-story has no dioxus dependency".to_owned())
    );
}

#[test]
fn manifest_plan_adds_dependencies_feature_and_example() {
    let plan = plan_manifest_change(&facts(), &LibrarySource::Registry, &path("/w/ui")).unwrap();
    assert_eq!(
        plan,
        ManifestPlan {
            library_dependency: Some(LibraryDependency::Version(LIBRARY_VERSION.to_owned())),
            dioxus_requirement: Some("0.7.10".to_owned()),
            catalog_features: names(&["dep:dx-story", "dx-story/catalog"]),
        }
    );
    assert_eq!(CATALOG_FEATURE, "component-catalog");
    assert_eq!(CATALOG_EXAMPLE_PATH, "dev/main.rs");

    let mut declared = facts();
    declared.declares_library = true;
    declared.library_optional = false;
    declared.declares_dioxus = true;
    declared.dependencies = vec![DeclaredDependency { optional: true, ..dependency("dioxus") }];
    let plan = plan_manifest_change(&declared, &LibrarySource::Registry, &path("/w/ui")).unwrap();
    assert_eq!(plan.library_dependency, None);
    assert_eq!(plan.dioxus_requirement, None);
    assert_eq!(plan.catalog_features, names(&["dep:dioxus", "dx-story/catalog"]));
}

#[test]
fn dry_run_and_conflicts_preserve_existing_files() {
    let mut existing = facts();
    existing.features = names(&["component-catalog"]);
    assert_eq!(
        plan_manifest_change(&existing, &LibrarySource::Registry, &path("/w/ui")),
        Err("package already has a component-catalog feature".to_owned())
    );
    let mut target = facts();
    target.targets = names(&["component-catalog"]);
    assert_eq!(
        plan_manifest_change(&target, &LibrarySource::Registry, &path("/w/ui")),
        Err("package already has a component-catalog target".to_owned())
    );
    let mut specific = facts();
    specific.has_target_table = true;
    specific.dependencies = vec![DeclaredDependency { target_specific: true, ..dependency("dx-story") }];
    assert_eq!(
        plan_manifest_change(&specific, &LibrarySource::Registry, &path("/w/ui")),
        Err("move the target-specific dx-story dependency to [dependencies] before initialization".to_owned())
    );
    let mut renamed = facts();
    renamed.dependencies = vec![DeclaredDependency { rename: Some("dx".to_owned()), ..dependency("dioxus") }];
    assert_eq!(
        plan_manifest_change(&renamed, &LibrarySource::Registry, &path("/w/ui")),
        Err("initialization requires the dependency names dx-story and dioxus; configure renamed dependencies manually".to_owned())
    );
    let mut untabled = facts();
    untabled.dependencies_is_table = false;
    assert_eq!(
        plan_manifest_change(&untabled, &LibrarySource::Registry, &path("/w/ui")),
        Err("dependencies must be a table".to_owned())
    );
    let mut examples = facts();
    examples.examples_is_array = false;
    assert_eq!(
        plan_manifest_change(&examples, &LibrarySource::Registry, &path("/w/ui")),
        Err("example must be an array of tables".to_owned())
    );

    let states = vec![
        FileState { path: "/w/ui/Cargo.toml".to_owned(), previous: Some("a".to_owned()), current: Some("a".to_owned()) },
        FileState { path: "/w/dx-story.toml".to_owned(), previous: None, current: None },
        FileState { path: "/w/ui/dev/main.rs".to_owned(), previous: None, current: Some("old".to_owned()) },
    ];
    assert_eq!(
        check_file_states(&states),
        Err("refusing to overwrite /w/ui/dev/main.rs; no files were changed".to_owned())
    );
    let changed = vec![FileState {
        path: "/w/ui/Cargo.toml".to_owned(),
        previous: Some("a".to_owned()),
        current: Some("b".to_owned()),
    }];
    assert_eq!(
        check_file_states(&changed),
        Err("file changed during initialization: /w/ui/Cargo.toml".to_owned())
    );
    assert_eq!(check_file_states(&states[..2].to_vec()), Ok(()));
}

#[test]
fn embedded_catalog_is_wired_once() {
    assert!(has_catalog_wiring("mod component_catalog;"));
    assert!(has_catalog_wiring("fn launch_component_catalog() {}"));
    assert!(!has_catalog_wiring("pub fn button() {}"));
    assert_eq!(crate_name("my-ui-kit"), "my_ui_kit");
    let library = EmbeddedLibrary {
        directory: path("/w/ui/src"),
        source: "pub fn button() {}".to_owned(),
    };
    assert_eq!(
        wire_embedded_library(Some(&library), &path("/w/ui"), "const CATALOG: &str = {module_path};\n"),
        Ok("pub fn button() {}\nconst CATALOG: &str = \"../dev/catalog.rs\";\n".to_owned())
    );
    let wired = EmbeddedLibrary { directory: path("/w/ui/src"), source: "mod component_catalog;".to_owned() };
    assert_eq!(
        wire_embedded_library(Some(&wired), &path("/w/ui"), "x"),
        Err("library already has component catalog wiring".to_owned())
    );
    assert_eq!(
        wire_embedded_library(None, &path("/w/ui"), "x"),
        Err("--embedded requires a library target".to_owned())
    );
    assert_eq!(embedded_main("{crate_name}::launch()", "my-ui"), "my_ui::launch()");
}

#[test]
fn configuration_outside_the_workspace_root_names_the_package_path() {
    assert_eq!(catalog_path_setting(&path("/w"), &path("/w"), &path("/w/ui")), Ok(None));
    assert_eq!(
        catalog_path_setting(&path("/w/config"), &path("/w"), &path("/w/ui")),
        Ok(Some(names(&["..", "ui"])))
    );
}
