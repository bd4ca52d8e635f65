use dx_story::commands::{
    build_arguments, cargo_incremental, check_source_entry_count, CATALOG_SOURCE_ENTRY_COUNT_MAX,
    PREVIEW_SOURCE_ENTRY_COUNT_MAX, SOURCE_DEPTH_MAX, has_line, has_wasm_target, is_ready_response,
    is_rust_source, is_skipped_directory, new_rust_sources, preview_serve_arguments, readiness,
    ready_announcement, ready_url, serve_arguments, server_exit_outcome, sources_differ,
    styles_description, tailwind_arguments, tailwind_cli_arguments, validate_forwarded_arguments,
    version_matches, version_mismatch_message, version_token, ServeOptions,
};
use dx_story::project::TargetSettings;

fn arguments(values: &[&str]) -> Vec<String> {
    values.iter().map(|value| (*value).to_owned()).collect()
}

fn preview_target() -> TargetSettings {
    TargetSettings {
        package: "fixture-ui".to_owned(),
        example: "component-preview".to_owned(),
        features: arguments(&["component-preview"]),
        default_features: false,
        locked: true,
    }
}

#[test]
fn serve_command_combines_preview_configuration_and_cli_overrides() {
    let actual = preview_serve_arguments(&preview_target(), 3000, true, &arguments(&["--addr", "127.0.0.1"]));

    assert_eq!(
        actual,
        arguments(&[
            "serve",
            "--web",
            "--package",
            "fixture-ui",
            "--example",
            "component-preview",
            "--no-default-features",
            "--features",
            "component-preview",
            "--locked",
            "--hot-reload",
            "true",
            "--watch",
            "true",
            "--port",
            "3000",
            "--open",
            "true",
            "--addr",
            "127.0.0.1",
        ])
    );
}

#[test]
fn tailwind_commands_share_inputs_and_add_watch_arguments_only_for_serve() {
    let build = tailwind_arguments("dev/tailwind.css", "assets/component-preview.css", false);
    let watch = tailwind_arguments("dev/tailwind.css", "assets/component-preview.css", true);

    assert!(build.ends_with(&["--minify".to_owned()]));
    assert!(watch.ends_with(&["--watch=always".to_owned(), "--poll=100".to_owned()]));
    assert_eq!(build, watch[..build.len()]);
    assert!(build.starts_with(&tailwind_cli_arguments()));
    assert_eq!(
        tailwind_cli_arguments(),
        arguments(&["run", "--frozen", "--allow-all", "@tailwindcss/cli"])
    );
}

#[test]
fn source_inventory_reports_only_new_rust_files() {
    let before = arguments(&["/p/preview/src/lib.rs"]);
    let after = arguments(&["/p/preview/dev/new_showcase.rs", "/p/preview/src/lib.rs"]);

    assert_eq!(new_rust_sources(&before, &after), ["/p/preview/dev/new_showcase.rs"]);
    assert!(new_rust_sources(&after, &before).is_empty());
    assert!(sources_differ(&before, &after));
    assert!(!sources_differ(&after, &after));
    assert!(is_rust_source(Some("rs")));
    assert!(!is_rust_source(Some("txt")));
    assert!(!is_rust_source(None));
    for name in ["target", "node_modules", ".git", "dist", ".cache"] {
        assert!(is_skipped_directory(name));
    }
    assert!(!is_skipped_directory("src"));
}

#[test]
fn story_serve_command_follows_the_serve_options() {
    let target = TargetSettings {
        package: "ui".to_owned(),
        example: "component-catalog".to_owned(),
        features: arguments(&["component-catalog"]),
        default_features: false,
        locked: true,
    };
    let options = ServeOptions {
        no_watch: true,
        port: 8080,
        address: "127.0.0.1".to_owned(),
        open: false,
        non_interactive: false,
        ready_json: true,
        forwarded: arguments(&["--verbose"]),
    };
    assert_eq!(
        serve_arguments(&target, &options),
        arguments(&[
            "serve",
            "--web",
            "--package",
            "ui",
            "--example",
            "component-catalog",
            "--no-default-features",
            "--features",
            "component-catalog",
            "--locked",
            "--hot-reload",
            "false",
            "--watch",
            "false",
            "--port",
            "8080",
            "--addr",
            "127.0.0.1",
            "--open",
            "false",
            "--interactive",
            "false",
            "--verbose",
        ])
    );
    assert_eq!(cargo_incremental(true), "0");
    assert_eq!(cargo_incremental(false), "1");
    assert_eq!(
        build_arguments(&target, true)[8..],
        arguments(&["component-catalog", "--locked", "--release", "--debug-symbols", "false"])
    );
    assert_eq!(build_arguments(&target, false)[0], "build");
}

#[test]
fn cli_serve_accepts_additional_dioxus_arguments() {
    assert_eq!(validate_forwarded_arguments(false, false, &arguments(&["--port=1"])), Ok(()));
    assert_eq!(validate_forwarded_arguments(true, false, &arguments(&["--verbose", "--release"])), Ok(()));
    assert_eq!(
        validate_forwarded_arguments(true, false, &arguments(&["--verbose", "--port=9000", "--open"])),
        Err("--port cannot be forwarded with --ready-json or --no-watch; use dx-story's serve options".to_owned())
    );
    assert_eq!(
        validate_forwarded_arguments(false, true, &arguments(&["-p"])),
        Err("-p cannot be forwarded with --ready-json or --no-watch; use dx-story's serve options".to_owned())
    );
}

#[test]
fn readiness_needs_a_complete_catalog_page() {
    assert!(is_ready_response("HTTP/1.1 200 OK\r\n\r\n<html></html>"));
    assert!(is_ready_response("HTTP/1.0 200 OK\r\n\r\n<html></html>"));
    assert!(!is_ready_response("HTTP/1.1 404 Not Found\r\n\r\n</html>"));
    assert!(!is_ready_response("HTTP/1.1 200 OK\r\n\r\n<p>partial"));
    assert!(!is_ready_response("HTTP/1.1 200 OK\r\n\r\nWe're building your app now</html>"));
    assert_eq!(ready_url("127.0.0.1:8080"), "http://127.0.0.1:8080");
    assert_eq!(readiness(true, false, 300), Ok(true));
    assert_eq!(readiness(false, true, 300), Ok(false));
    assert_eq!(
        readiness(false, false, 300),
        Err("catalog did not become HTTP-ready within 300 seconds".to_owned())
    );
    assert_eq!(server_exit_outcome(true, true, "0"), Ok(()));
    assert_eq!(
        server_exit_outcome(true, false, "exit status: 0"),
        Err("Dioxus server exited (exit exit status: 0; ready: false)".to_owned())
    );
    assert_eq!(
        ready_announcement(true, "http://127.0.0.1:8080"),
        "{\"event\":\"ready\",\"url\":\"http://127.0.0.1:8080\"}"
    );
    assert_eq!(
        ready_announcement(false, "http://127.0.0.1:8080"),
        "dx-story: ready at http://127.0.0.1:8080"
    );
}

#[test]
fn doctor_reports_a_dioxus_version_mismatch() {
    assert_eq!(version_token("dioxus 0.7.10 (abc)"), Some("0.7.10".to_owned()));
    assert_eq!(version_token("no version here"), None);
    assert!(version_matches("dioxus 0.7.10 (abc)", "0.7.10"));
    assert!(!version_matches("dioxus 0.7.9", "0.7.10"));
    assert!(!version_matches("dioxus 0.7", "0.7.10"));
    assert_eq!(
        version_mismatch_message("dioxus 0.7.9", "0.7.10"),
        "Dioxus CLI version does not match the catalog: got dioxus 0.7.9, need 0.7.10; install with: cargo install dioxus-cli --version 0.7.10 --locked"
    );
}

#[test]
fn wasm_target_is_found_among_installed_targets() {
    assert!(has_wasm_target("x86_64-unknown-linux-gnu\nwasm32-unknown-unknown\n"));
    assert!(!has_wasm_target("x86_64-unknown-linux-gnu\nwasm32-unknown-unknown-extra\n"));
    assert!(has_line("a\r\nb", "b"));
    assert_eq!(styles_description(true), "Deno / Tailwind");
    assert_eq!(styles_description(false), "consumer-provided CSS");
}

#[test]
fn ready_announcements_escape_the_url_as_json() {
    assert_eq!(
        ready_announcement(true, "http://h/\"q\"\\\n\t\u{1}"),
        "{\"event\":\"ready\",\"url\":\"http://h/\\\"q\\\"\\\\\\n\\t\\u0001\"}"
    );
    assert_eq!(
        ready_announcement(true, "caf\u{e9}\u{1f}\u{7f}"),
        "{\"event\":\"ready\",\"url\":\"caf\u{e9}\\u001f\u{7f}\"}"
    );
}

#[test]
fn source_inventories_are_bounded() {
    assert_eq!(check_source_entry_count(10000, PREVIEW_SOURCE_ENTRY_COUNT_MAX), Ok(()));
    assert_eq!(
        check_source_entry_count(10001, PREVIEW_SOURCE_ENTRY_COUNT_MAX),
        Err("Dioxus source inventory exceeds 10000 entries".to_owned())
    );
    assert_eq!(check_source_entry_count(100000, CATALOG_SOURCE_ENTRY_COUNT_MAX), Ok(()));
    assert_eq!(
        check_source_entry_count(100001, CATALOG_SOURCE_ENTRY_COUNT_MAX),
        Err("Dioxus source inventory exceeds 100000 entries".to_owned())
    );
    assert_eq!(SOURCE_DEPTH_MAX, 64);
}
