use dx_story::macro_arguments::{
    check_story_list, item_arguments, set_arguments, unraw_name, ArgumentValue, ItemArguments,
    MacroArgument, SetArguments, StoryEntry,
};
use dx_story::naming::{
    capitalize, documentation, is_configuration_attribute, is_supported_attribute, is_valid_id,
    normalize_documentation_line, preview_component_ident, preview_const_ident, preview_id,
    preview_name, repeated_names, returns_element, showcase_const_ident, signature_issue_message,
    signature_issues, story_component_ident, story_const_ident, story_id, story_name,
    story_set_const_ident, validate_id, validate_name, SignatureIssue, SignatureShape,
};

fn text(value: &str) -> ArgumentValue {
    ArgumentValue::Text(value.to_owned())
}

fn key(name: &str, value: ArgumentValue) -> MacroArgument {
    MacroArgument::KeyValue {
        key: Some(name.to_owned()),
        value,
    }
}

fn names(values: &[&str]) -> Vec<String> {
    values.iter().map(|value| (*value).to_owned()).collect()
}

#[test]
fn identifiers_are_lowercase_with_single_internal_separators() {
    assert!(is_valid_id("button"));
    assert!(is_valid_id("primary-button_2"));
    assert!(!is_valid_id(""));
    assert!(!is_valid_id("Button"));
    assert!(!is_valid_id("-button"));
    assert!(!is_valid_id("button-"));
    assert!(!is_valid_id("primary--button"));
    assert!(!is_valid_id("primary_-button"));
    assert_eq!(validate_id("button", "story"), Ok(()));
    assert_eq!(
        validate_id("Button", "story"),
        Err("story `id` must contain lowercase ASCII letters, digits, and single internal hyphens or underscores".to_owned())
    );
}

#[test]
fn names_must_be_trimmed_and_non_empty() {
    assert_eq!(validate_name("Button", "stories"), Ok(()));
    assert_eq!(
        validate_name(" Button", "stories"),
        Err("stories `name` must be non-empty and have no surrounding whitespace".to_owned())
    );
    assert!(validate_name("", "story").is_err());
}

#[test]
fn function_names_give_routes_and_titles() {
    assert_eq!(story_id("default_state"), Ok("default-state".to_owned()));
    assert_eq!(preview_id("outlined"), Ok("outlined".to_owned()));
    assert!(story_id("DefaultState").is_err());
    assert_eq!(
        story_id("bad__name"),
        Err("story function names must be canonical lowercase ASCII snake_case".to_owned())
    );
    assert_eq!(story_name("default_state"), "Default State");
    assert_eq!(preview_name("with_count"), "With Count");
    assert_eq!(story_component_ident("default_state"), "DxStoryDefaultState");
    assert_eq!(preview_component_ident("with_count"), "DxPreviewWithCount");
    assert_eq!(capitalize("button"), "Button");
    assert_eq!(capitalize("ßig"), "SSig");
    assert_eq!(capitalize(""), "");
}

#[test]
fn generated_constants_are_upper_case() {
    assert_eq!(story_const_ident("default_state"), "STORY_DEFAULT_STATE");
    assert_eq!(story_set_const_ident("button"), "STORY_SET_BUTTON");
    assert_eq!(preview_const_ident("outlined"), "PREVIEW_OUTLINED");
    assert_eq!(showcase_const_ident("card"), "SHOWCASE_CARD");
}

#[test]
fn documentation_joins_lines_without_their_leading_space() {
    assert_eq!(normalize_documentation_line(" Default state."), "Default state.");
    assert_eq!(normalize_documentation_line("  indented"), " indented");
    assert_eq!(
        documentation(&names(&[" Compact component state.", "", "     let compact = true;"])),
        Some("Compact component state.\n\n    let compact = true;".to_owned())
    );
    assert_eq!(documentation(&names(&[" ", ""])), None);
    assert_eq!(documentation(&names(&[])), None);
}

#[test]
fn attributes_are_limited_to_documentation_configuration_and_lints() {
    for name in ["doc", "cfg", "cfg_attr", "allow", "warn", "deny", "forbid", "expect"] {
        assert!(is_supported_attribute(name));
    }
    assert!(!is_supported_attribute("inline"));
    assert!(is_configuration_attribute("cfg_attr"));
    assert!(!is_configuration_attribute("doc"));
}

#[test]
fn story_lists_report_repeats_after_the_first() {
    assert_eq!(
        repeated_names(&names(&["a", "b", "a", "b", "a"])),
        [false, false, true, true, true]
    );
}

#[test]
fn signatures_report_each_problem_in_order() {
    let good = SignatureShape {
        is_const: false,
        is_async: false,
        has_safety_qualifier: false,
        has_abi: false,
        has_arguments: false,
        is_variadic: false,
        is_generic: false,
        returns_element: true,
    };
    assert!(signature_issues(&good).is_empty());
    let bad = SignatureShape {
        is_async: true,
        has_arguments: true,
        returns_element: false,
        ..good
    };
    assert_eq!(
        signature_issues(&bad),
        [
            SignatureIssue::Async,
            SignatureIssue::Arguments,
            SignatureIssue::MissingElementReturn
        ]
    );
    assert_eq!(
        signature_issue_message(SignatureIssue::MissingElementReturn),
        "story functions must explicitly return `Element`"
    );
    assert!(returns_element(Some("Element"), false, false));
    assert!(!returns_element(Some("Element"), true, false));
    assert!(!returns_element(Some("Element"), false, true));
    assert!(!returns_element(Some("Node"), false, false));
    assert!(!returns_element(None, false, false));
}

#[test]
fn item_arguments_take_identifier_and_name() {
    let read = item_arguments(&vec![key("id", text("with_count")), key("name", text("With count"))], "story");
    assert_eq!(
        read,
        Ok(ItemArguments {
            id: Some("with_count".to_owned()),
            name: Some("With count".to_owned())
        })
    );
    assert_eq!(item_arguments(&vec![], "story"), Ok(ItemArguments { id: None, name: None }));
}

#[test]
fn item_arguments_report_every_problem() {
    let read = item_arguments(
        &vec![
            MacroArgument::Other,
            key("id", text("a")),
            key("id", text("b")),
            key("name", ArgumentValue::Other),
            key("color", text("red")),
            key("name", text(" padded")),
        ],
        "story",
    );
    assert_eq!(
        read,
        Err(names(&[
            "story arguments must use `key = value` syntax",
            "duplicate `id` argument",
            "`name` must be a string literal",
            "unknown story argument",
            "story `name` must be non-empty and have no surrounding whitespace",
        ]))
    );
}

#[test]
fn set_arguments_take_documentation_and_thumbnail() {
    let read = set_arguments(
        &vec![
            key("id", text("registry-test")),
            key("name", text("Registry test")),
            key("extra_docs", ArgumentValue::Path(None)),
            key("thumbnail", ArgumentValue::Path(Some("thumbnail".to_owned()))),
        ],
        "stories",
        "story",
    );
    assert_eq!(
        read,
        Ok(SetArguments {
            id: "registry-test".to_owned(),
            name: "Registry test".to_owned(),
            extra_docs: Some(2),
            thumbnail: Some("thumbnail".to_owned()),
        })
    );
}

#[test]
fn set_arguments_require_identifier_and_name() {
    let read = set_arguments(
        &vec![
            key("thumbnail", ArgumentValue::Path(None)),
            key("extra_docs", text("docs")),
            key("extra_docs", ArgumentValue::Path(None)),
            key("extra_docs", ArgumentValue::Path(None)),
        ],
        "stories",
        "story",
    );
    assert_eq!(
        read,
        Err(names(&[
            "`thumbnail` must be an unqualified story function name",
            "`extra_docs` must be a path to a `&'static str` constant",
            "duplicate `extra_docs` argument",
            "stories requires the `id` argument",
            "stories requires the `name` argument",
        ]))
    );
}

#[test]
fn story_lists_need_unique_unqualified_names() {
    let entries = vec![
        StoryEntry::Name("default".to_owned()),
        StoryEntry::Name("r#type".to_owned()),
        StoryEntry::Qualified,
        StoryEntry::Other,
        StoryEntry::Name("type".to_owned()),
    ];
    assert_eq!(
        check_story_list(&entries, "story", "stories"),
        Err(names(&[
            "story function names must be unqualified identifiers",
            "expected a story function name",
            "duplicate story `type` in `#[stories]` declaration",
        ]))
    );
    assert_eq!(
        check_story_list(&vec![], "story", "stories"),
        Err(names(&["stories must contain at least one story"]))
    );
    assert_eq!(
        check_story_list(&vec![StoryEntry::Name("a".to_owned())], "story", "stories"),
        Ok(())
    );
    assert_eq!(unraw_name("r#match"), "match");
    assert_eq!(unraw_name("plain"), "plain");
}
