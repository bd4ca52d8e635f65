use dx_story::project::{
    catalog_features, configuration_file_name, default_catalog_path, default_example,
    default_features, default_locked, default_port, dioxus_package, join, join_path,
    discover_directories, minimal_directories, reachable_packages, select_example, select_package, target_arguments,
    validate_features, validate_preview_settings, validate_required_features,
    validate_serve_port, validate_tailwind, watched_directories, ExampleError, FeatureError,
    OpenBrowser, PreviewSettingsFacts, ServeConfiguration, SourcePackage, SourceTarget, TailwindPaths,
    TargetSettings,
};

fn names(values: &[&str]) -> Vec<String> {
    values.iter().map(|value| (*value).to_owned()).collect()
}

fn path(value: &str) -> Vec<String> {
    let mut components = Vec::new();
    if value.starts_with('/') {
        components.push("/".to_owned());
    }
    components.extend(value.split('/').filter(|part| !part.is_empty()).map(str::to_owned));
    components
}

#[test]
fn configuration_uses_serve_defaults() {
    assert_eq!(configuration_file_name(), "dx-story.toml");
    assert_eq!(default_catalog_path(), ".");
    assert_eq!(default_example(), "component-catalog");
    assert_eq!(default_features(), ["component-catalog"]);
    assert!(default_locked());
    assert_eq!(default_port(), 8080);
    let serve = ServeConfiguration::default();
    assert_eq!(serve.port, 8080);
    assert!(serve.open == OpenBrowser::No);
}

#[test]
fn configuration_reads_the_boolean_browser_setting() {
    assert!(OpenBrowser::from_bool(true) == OpenBrowser::Yes);
    assert!(OpenBrowser::from_bool(false) == OpenBrowser::No);
    assert!(OpenBrowser::Yes.as_bool());
    assert!(!OpenBrowser::No.as_bool());
}

#[test]
fn packages_and_examples_are_chosen_by_name_or_convention() {
    let packages = names(&["app", "example-ui", "tools"]);
    assert_eq!(select_package(&packages, "example-ui"), Ok(1));
    assert_eq!(
        select_package(&packages, "missing"),
        Err("workspace has no package missing".to_owned())
    );
    let examples = names(&["demo", "component-catalog"]);
    assert_eq!(select_example("ui", &examples, None), Ok(1));
    assert_eq!(select_example("ui", &examples, Some("demo")), Ok(0));
    assert_eq!(select_example("ui", &names(&["only"]), None), Ok(0));
    let missing = select_example("ui", &examples, Some("gone")).unwrap_err();
    assert_eq!(missing.message(), "package ui has no example gone");
    let ambiguous = select_example("ui", &names(&["a", "b"]), None).unwrap_err();
    assert!(matches!(ambiguous, ExampleError::Ambiguous { .. }));
    assert_eq!(
        ambiguous.message(),
        "package ui must have one example or set catalog.example explicitly"
    );
}

#[test]
fn invalid_features_fail_before_starting_tools() {
    let declared = names(&["component-catalog", "extra"]);
    assert_eq!(validate_features("ui", &declared, &names(&["extra"])), Ok(()));
    let unknown = validate_features("ui", &declared, &names(&["extra", "missing", "other"])).unwrap_err();
    assert_eq!(unknown.message(), "package ui has no feature missing");
    let many: Vec<String> = (0..65).map(|i| format!("f{i}")).collect();
    let too_many = validate_features("ui", &many, &many).unwrap_err();
    assert!(matches!(too_many, FeatureError::TooMany));
    assert_eq!(too_many.message(), "at most 64 catalog features are supported");
    assert_eq!(
        validate_required_features("component-catalog", &names(&["a"]), Some(&names(&["a", "b"]))),
        Ok(())
    );
    assert_eq!(
        validate_required_features("component-catalog", &names(&["a", "c"]), Some(&names(&["a"]))),
        Err("example component-catalog requires feature c".to_owned())
    );
    assert_eq!(
        validate_required_features("component-catalog", &names(&["a"]), None),
        Err("cargo did not resolve the catalog package".to_owned())
    );
}

#[test]
fn target_arguments_select_the_catalog_example() {
    let settings = TargetSettings {
        package: "fixture-ui".to_owned(),
        example: "component-preview".to_owned(),
        features: names(&["component-preview", "extra"]),
        default_features: false,
        locked: true,
    };
    assert_eq!(
        target_arguments(&settings),
        names(&[
            "--web",
            "--package",
            "fixture-ui",
            "--example",
            "component-preview",
            "--no-default-features",
            "--features",
            "component-preview,extra",
            "--locked",
        ])
    );
    let plain = TargetSettings {
        package: "p".to_owned(),
        example: "e".to_owned(),
        features: Vec::new(),
        default_features: true,
        locked: false,
    };
    assert_eq!(target_arguments(&plain), names(&["--web", "--package", "p", "--example", "e"]));
    assert_eq!(join(&names(&["a", "b", "c"]), ", "), "a, b, c");
    assert_eq!(join(&names(&[]), ","), "");
}

#[test]
fn watched_directories_drop_nested_ones() {
    let sorted = vec![path("/w/a"), path("/w/a/b"), path("/w/a/c"), path("/w/b"), path("/w/bc")];
    assert_eq!(minimal_directories(&sorted), Ok(vec![0, 3, 4]));
    assert_eq!(
        minimal_directories(&vec![]),
        Err("catalog must have between 1 and 64 watched source directories".to_owned())
    );
    let many: Vec<Vec<String>> = (0..65).map(|i| path(&format!("/w/d{i:03}"))).collect();
    assert!(minimal_directories(&many).is_err());
}

#[test]
fn explicit_config_and_source_overrides_take_precedence() {
    let root = path("/w/ui");
    let explicit = vec![path("src"), path("/elsewhere/dev")];
    let discovered = vec![path("/w/ui/examples")];
    let extra = vec![path("assets")];
    assert_eq!(
        watched_directories(&root, Some(&explicit), discovered.clone(), &extra),
        Ok(vec![path("/w/ui/src"), path("/elsewhere/dev"), path("/w/ui/assets")])
    );
    assert_eq!(
        watched_directories(&root, None, discovered.clone(), &extra),
        Ok(vec![path("/w/ui/examples"), path("/w/ui/assets")])
    );
    assert_eq!(
        watched_directories(&root, Some(&vec![]), discovered, &extra),
        Err("source-directories must not be empty; omit it for discovery".to_owned())
    );
    assert_eq!(join_path(&root, &path("/abs")), path("/abs"));
    assert_eq!(join_path(&root, &path("rel/x")), path("/w/ui/rel/x"));
}

#[test]
fn dependency_walk_reaches_transitive_dependencies_only() {
    let edges = vec![vec![1], vec![2, 0], vec![], vec![0]];
    assert_eq!(reachable_packages(&edges, 0), [true, true, true, false]);
    assert_eq!(reachable_packages(&edges, 2), [false, false, true, false]);
    assert_eq!(reachable_packages(&edges, 3), [true, true, true, true]);
    let names_list = names(&["dioxus", "ui", "dioxus"]);
    assert_eq!(dioxus_package(&names_list, &vec![false, true, true]), Ok(2));
    assert_eq!(
        dioxus_package(&names_list, &vec![false, true, false]),
        Err("catalog package must depend on dioxus".to_owned())
    );
}

#[test]
fn catalog_features_default_to_the_example_requirements() {
    assert_eq!(catalog_features(None, &names(&["component-catalog"])), ["component-catalog"]);
    assert_eq!(catalog_features(Some(names(&["x"])), &names(&["component-catalog"])), ["x"]);
}

#[test]
fn tailwind_paths_must_exist_and_differ() {
    let root = path("/w/ui");
    let paths = TailwindPaths {
        input: path("dev/tailwind.css"),
        output: path("assets/catalog.css"),
    };
    assert_eq!(validate_tailwind(&root, None, false, ""), Ok(()));
    assert_eq!(validate_tailwind(&root, Some(&paths), true, "/w/ui/dev/tailwind.css"), Ok(()));
    assert_eq!(
        validate_tailwind(&root, Some(&paths), false, "/w/ui/dev/tailwind.css"),
        Err("Tailwind input does not exist: /w/ui/dev/tailwind.css".to_owned())
    );
    let unnamed = TailwindPaths { input: path("dev/tailwind.css"), output: Vec::new() };
    assert_eq!(
        validate_tailwind(&root, Some(&unnamed), true, "x"),
        Err("Tailwind output must not be empty".to_owned())
    );
    let same = TailwindPaths { input: path("dev/a.css"), output: path("/w/ui/dev/a.css") };
    assert_eq!(
        validate_tailwind(&root, Some(&same), true, "x"),
        Err("Tailwind input and output must differ".to_owned())
    );
    assert_eq!(validate_serve_port(8080), Ok(()));
    assert_eq!(validate_serve_port(0), Err("serve.port must be between 1 and 65535".to_owned()));
}

#[test]
fn cli_serve_rejects_an_invalid_project_configuration() {
    let good = PreviewSettingsFacts {
        path_is_directory: true,
        has_manifest: true,
        path_display: "/p/preview".to_owned(),
        package: "fixture-ui".to_owned(),
        example: "component-preview".to_owned(),
        features: names(&["component-preview"]),
        source_directory_count: 2,
        tailwind_input_is_empty: false,
        tailwind_output_is_empty: false,
    };
    assert_eq!(validate_preview_settings(&good), Ok(()));
    let not_directory = PreviewSettingsFacts { path_is_directory: false, ..clone_facts(&good) };
    assert_eq!(
        validate_preview_settings(&not_directory),
        Err("configured preview path is not a directory: /p/preview".to_owned())
    );
    let blank_package = PreviewSettingsFacts { package: "  ".to_owned(), ..clone_facts(&good) };
    assert_eq!(
        validate_preview_settings(&blank_package),
        Err("configured preview package is empty".to_owned())
    );
    let blank_feature = PreviewSettingsFacts { features: names(&["a", " "]), ..clone_facts(&good) };
    assert_eq!(
        validate_preview_settings(&blank_feature),
        Err("configured preview features are invalid".to_owned())
    );
    let no_sources = PreviewSettingsFacts { source_directory_count: 0, ..clone_facts(&good) };
    assert_eq!(
        validate_preview_settings(&no_sources),
        Err("configured source directory count must be between 1 and 64".to_owned())
    );
}

fn clone_facts(facts: &PreviewSettingsFacts) -> PreviewSettingsFacts {
    PreviewSettingsFacts {
        path_is_directory: facts.path_is_directory,
        has_manifest: facts.has_manifest,
        path_display: facts.path_display.clone(),
        package: facts.package.clone(),
        example: facts.example.clone(),
        features: facts.features.clone(),
        source_directory_count: facts.source_directory_count,
        tailwind_input_is_empty: facts.tailwind_input_is_empty,
        tailwind_output_is_empty: facts.tailwind_output_is_empty,
    }
}

#[test]
fn kept_directories_are_the_outermost_ones() {
    let sorted = vec![path("/w/a"), path("/w/a/b"), path("/w/a/b/c"), path("/w/ab"), path("/w/b"), path("/w/b/x")];
    let kept = minimal_directories(&sorted).unwrap();
    assert_eq!(kept, vec![0, 3, 4]);
    for &k in &kept {
        for (j, other) in sorted.iter().enumerate() {
            if j != k {
                assert!(!sorted[k].starts_with(other));
            }
        }
    }
    for directory in &sorted {
        assert!(kept.iter().any(|&k| directory.starts_with(&sorted[k])));
    }
}

fn target(directory: &str, custom_build: bool, test: bool, bench: bool) -> SourceTarget {
    SourceTarget { custom_build, test, bench, directory: Some(path(directory)) }
}

#[test]
fn default_directories_come_from_local_reachable_packages() {
    let ui = SourcePackage {
        local: true,
        reachable: true,
        root: path("/w/ui"),
        has_src: true,
        has_dev: false,
        has_examples: true,
        targets: vec![
            target("/w/ui/src", false, false, false),
            target("/w/ui", true, false, false),
            target("/w/ui/tests", false, true, false),
            target("/w/ui/benches", false, false, true),
            target("/w/ui/dev", false, false, false),
            SourceTarget { custom_build: false, test: false, bench: false, directory: None },
        ],
    };
    let registry = SourcePackage {
        local: false,
        reachable: true,
        root: path("/registry/serde"),
        has_src: true,
        has_dev: false,
        has_examples: false,
        targets: vec![target("/registry/serde/src", false, false, false)],
    };
    let unrelated = SourcePackage {
        local: true,
        reachable: false,
        root: path("/w/tool"),
        has_src: true,
        has_dev: true,
        has_examples: false,
        targets: vec![],
    };
    let helper = SourcePackage {
        local: true,
        reachable: true,
        root: path("/w/helper"),
        has_src: false,
        has_dev: true,
        has_examples: false,
        targets: vec![],
    };
    assert_eq!(
        discover_directories(&vec![ui, registry, unrelated, helper]),
        vec![
            path("/w/ui/src"),
            path("/w/ui/examples"),
            path("/w/ui/src"),
            path("/w/ui/dev"),
            path("/w/helper/dev"),
        ]
    );
    assert_eq!(discover_directories(&vec![]), Vec::<Vec<String>>::new());
}
