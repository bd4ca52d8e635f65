use dx_story::showcases::{
    self, preview, showcase, Preview, Showcase, SHOWCASE_COUNT_LINEAR_VALIDATION_MAX,
};
use dx_story::stories::{
    build_registry, build_registry_for_benchmark, find, init_registry, sort_for_display, story,
    story_set, validate_unique_ids, validate_unique_ids_with_hash_set,
    validate_unique_ids_with_linear_scan, RegistryError, Story, StorySet,
    STORY_SET_COUNT_LINEAR_VALIDATION_MAX,
};

fn render_empty() {}

fn ids<'a>(sets: Vec<&'a StorySet<'a, Render>>) -> Vec<&'a str> {
    sets.iter().map(|set| set.id()).collect()
}

type Render = fn();

fn render() -> Render {
    render_empty
}

#[test]
fn registry_rejects_duplicate_story_set_ids() {
    let first_story = story("default", "Default", None, render(), "");
    let stories = [&first_story];
    let first = story_set("duplicate-story-set", "First", None, None, &stories);
    let second = story_set("duplicate-story-set", "Second", None, None, &stories);
    assert_eq!(
        build_registry(vec![&first, &second]),
        Err(RegistryError::DuplicateStorySetId {
            id: "duplicate-story-set"
        })
    );
}

#[test]
fn registry_rejects_duplicate_story_ids() {
    let first_story = story("default", "Default", None, render(), "");
    let duplicate_story = story("default", "Duplicate", None, render(), "");
    let stories = [&first_story, &duplicate_story];
    let duplicate = story_set("duplicate-story", "Duplicate story", None, None, &stories);
    assert_eq!(
        build_registry(vec![&duplicate]),
        Err(RegistryError::DuplicateStoryId {
            story_set_id: "duplicate-story",
            story_id: "default",
        })
    );
}

#[test]
fn lib_large_registry_preserves_first_error_in_display_order() {
    let first_story = story("default", "Default", None, render(), "");
    let duplicate_story = story("default", "Duplicate", None, render(), "");
    let stories = [&first_story, &duplicate_story];
    let duplicate = story_set("duplicate-story", "Duplicate story", None, None, &stories);
    let registrations = vec![&duplicate; STORY_SET_COUNT_LINEAR_VALIDATION_MAX + 1];
    assert_eq!(
        build_registry(registrations),
        Err(RegistryError::DuplicateStoryId {
            story_set_id: "duplicate-story",
            story_id: "default",
        })
    );

    let first_preview = preview("default", "Default", None, render(), "");
    let duplicate_preview = preview("default", "Duplicate", None, render(), "");
    let previews = [&first_preview, &duplicate_preview];
    let duplicate_showcase = showcase("duplicate-preview", "Duplicate preview", None, None, &previews);
    let registrations = vec![&duplicate_showcase; SHOWCASE_COUNT_LINEAR_VALIDATION_MAX + 1];
    assert_eq!(
        showcases::build_registry(registrations),
        Err(showcases::RegistryError::DuplicatePreviewId {
            showcase_id: "duplicate-preview",
            preview_id: "default",
        })
    );
}

#[test]
fn registry_rejects_story_sets_without_routed_stories() {
    let no_stories: [&Story<Render>; 0] = [];
    let empty = story_set("empty-story-set", "Empty story set", None, None, &no_stories);
    assert_eq!(
        build_registry(vec![&empty]),
        Err(RegistryError::StorySetWithoutStories {
            story_set_id: "empty-story-set",
        })
    );
}

#[test]
fn thumbnail_falls_back_to_the_first_routed_story() {
    let first_story = story("default", "Default", None, render(), "");
    let stories = [&first_story];
    let first = story_set("duplicate-story-set", "First", None, None, &stories);
    assert_eq!(first.first_story(), Some(&first_story));
    assert_eq!(first.thumbnail(), Some(&first_story));
}

#[test]
fn distributed_registry_reports_duplicate_story_set_ids() {
    let default_story = story("default", "Default", None, render(), "");
    let stories = [&default_story];
    let first = story_set("distributed-duplicate", "First", None, None, &stories);
    let second = story_set("distributed-duplicate", "Second", None, None, &stories);
    assert_eq!(
        init_registry(vec![&first, &second]),
        Err(RegistryError::DuplicateStorySetId {
            id: "distributed-duplicate"
        })
    );
}

#[test]
fn registry_rejects_duplicate_showcase_ids() {
    let first_preview = preview("default", "Default", None, render(), "");
    let previews = [&first_preview];
    let first = showcase("duplicate-showcase", "First", None, None, &previews);
    let second = showcase("duplicate-showcase", "Second", None, None, &previews);
    assert_eq!(
        showcases::build_registry(vec![&first, &second]),
        Err(showcases::RegistryError::DuplicateShowcaseId {
            id: "duplicate-showcase"
        })
    );
}

#[test]
fn registry_rejects_duplicate_preview_ids() {
    let first_preview = preview("default", "Default", None, render(), "");
    let duplicate_preview = preview("default", "Duplicate", None, render(), "");
    let previews = [&first_preview, &duplicate_preview];
    let duplicate = showcase("duplicate-preview", "Duplicate preview", None, None, &previews);
    assert_eq!(
        showcases::build_registry(vec![&duplicate]),
        Err(showcases::RegistryError::DuplicatePreviewId {
            showcase_id: "duplicate-preview",
            preview_id: "default",
        })
    );
}

#[test]
fn registry_rejects_showcases_without_routed_previews() {
    let no_previews: [&Preview<Render>; 0] = [];
    let empty = showcase("empty-showcase", "Empty showcase", None, None, &no_previews);
    assert_eq!(
        showcases::build_registry(vec![&empty]),
        Err(showcases::RegistryError::ShowcaseWithoutPreviews {
            showcase_id: "empty-showcase",
        })
    );
}

#[test]
fn thumbnail_falls_back_to_the_first_routed_preview() {
    let first_preview = preview("default", "Default", None, render(), "");
    let previews = [&first_preview];
    let first: Showcase<Render> = showcase("duplicate-showcase", "First", None, None, &previews);
    assert_eq!(first.first_preview(), Some(&first_preview));
    assert_eq!(first.thumbnail(), Some(&first_preview));
}

#[test]
fn distributed_registry_reports_duplicate_showcase_ids() {
    let default_preview = preview("default", "Default", None, render(), "");
    let previews = [&default_preview];
    let first = showcase("distributed-duplicate", "First", None, None, &previews);
    let second = showcase("distributed-duplicate", "Second", None, None, &previews);
    assert_eq!(
        showcases::init_registry(vec![&first, &second]),
        Err(showcases::RegistryError::DuplicateShowcaseId {
            id: "distributed-duplicate"
        })
    );
}

#[test]
fn registry_sorts_story_sets_by_name_then_identifier() {
    let default_story = story("default", "Default", None, render(), "");
    let stories = [&default_story];
    let zebra = story_set("zebra", "Zebra", None, None, &stories);
    let button_b = story_set("button-b", "Button", None, None, &stories);
    let button_a = story_set("button-a", "Button", None, None, &stories);
    let sorted = build_registry(vec![&zebra, &button_b, &button_a]).unwrap();
    let ids: Vec<&str> = sorted.iter().map(|set| set.id()).collect();
    assert_eq!(ids, ["button-a", "button-b", "zebra"]);
}

#[test]
fn registry_validity_does_not_depend_on_registration_order() {
    let default_story = story("default", "Default", None, render(), "");
    let stories = [&default_story];
    let no_stories: [&Story<Render>; 0] = [];
    let alpha = story_set("alpha", "Alpha", None, None, &stories);
    let beta = story_set("beta", "Beta", None, None, &stories);
    let empty = story_set("empty", "Empty", None, None, &no_stories);
    assert!(init_registry(vec![&alpha, &beta]).is_ok());
    assert!(init_registry(vec![&beta, &alpha]).is_ok());
    assert!(init_registry(vec![&alpha, &empty, &beta]).is_err());
    assert!(init_registry(vec![&empty, &beta, &alpha]).is_err());
    assert_eq!(
        init_registry(vec![&beta, &alpha, &empty]),
        init_registry(vec![&empty, &alpha, &beta])
    );
}

#[test]
fn registry_reports_the_first_failure_in_display_order() {
    let default_story = story("default", "Default", None, render(), "");
    let stories = [&default_story];
    let no_stories: [&Story<Render>; 0] = [];
    let later_empty = story_set("later", "Zebra", None, None, &no_stories);
    let earlier_empty = story_set("earlier", "Apple", None, None, &no_stories);
    let fine = story_set("fine", "Middle", None, None, &stories);
    assert_eq!(
        build_registry(vec![&later_empty, &fine, &earlier_empty]),
        Err(RegistryError::StorySetWithoutStories {
            story_set_id: "earlier"
        })
    );
}

#[test]
fn validation_strategies_agree() {
    let default_story = story("default", "Default", None, render(), "");
    let stories = [&default_story];
    let first = story_set("same", "First", None, None, &stories);
    let second = story_set("same", "Second", None, None, &stories);
    let third = story_set("other", "Third", None, None, &stories);
    let sets = [&first, &third, &second];
    assert_eq!(
        validate_unique_ids_with_linear_scan(&sets),
        validate_unique_ids_with_hash_set(&sets)
    );
    assert_eq!(
        validate_unique_ids(&sets),
        Err(RegistryError::DuplicateStorySetId { id: "same" })
    );
    let distinct = [&first, &third];
    assert_eq!(validate_unique_ids_with_hash_set(&distinct), Ok(()));
    assert_eq!(validate_unique_ids_with_linear_scan(&distinct), Ok(()));
}

#[test]
fn display_order_keeps_every_registration() {
    let default_story = story("default", "Default", None, render(), "");
    let stories = [&default_story];
    let c = story_set("c", "C", None, None, &stories);
    let a = story_set("a", "A", None, None, &stories);
    let b = story_set("b", "B", None, None, &stories);
    let sorted = sort_for_display(&vec![&c, &a, &b]);
    let names: Vec<&str> = sorted.iter().map(|set| set.name()).collect();
    assert_eq!(names, ["A", "B", "C"]);
}

#[test]
fn benchmark_build_matches_the_registry_build() {
    let default_story = story("default", "Default", None, render(), "");
    let stories = [&default_story];
    let first = story_set("first", "First", None, None, &stories);
    let second = story_set("second", "Second", None, None, &stories);
    assert_eq!(
        build_registry_for_benchmark(vec![&second, &first]),
        build_registry(vec![&second, &first])
    );
    let first_preview = preview("default", "Default", None, render(), "");
    let previews = [&first_preview];
    let shown = showcase("shown", "Shown", None, None, &previews);
    assert_eq!(
        showcases::build_registry_for_benchmark(vec![&shown]).map(|v| v.len()),
        Ok(1)
    );
}

#[test]
fn registry_lookup_finds_stories_by_identifiers() {
    let default_story = story("default-state", "Default State", Some("Default component state."), render(), "fn default_state() {}");
    let compact = story("compact", "Compact", None, render(), "fn compact() {}");
    let stories = [&default_story, &compact];
    let set = story_set("registry-test", "Registry test", Some("Registry test component."), Some(&compact), &stories);
    let sets = [&set];
    let (found_set, found_story) = find(&sets, "registry-test", "default-state").unwrap();
    assert_eq!(found_set.name(), "Registry test");
    assert_eq!(found_story.name(), "Default State");
    assert_eq!(found_story.description(), Some("Default component state."));
    assert_eq!(found_story.source(), "fn default_state() {}");
    assert_eq!(found_set.thumbnail().map(|s| s.id()), Some("compact"));
    assert!(find(&sets, "registry-test", "missing").is_none());
    assert!(find(&sets, "missing", "default-state").is_none());
}

#[test]
fn registry_errors_describe_themselves() {
    assert_eq!(
        RegistryError::DuplicateStorySetId { id: "button" }.message(),
        "duplicate story set ID `button`"
    );
    assert_eq!(
        RegistryError::DuplicateStoryId {
            story_set_id: "button",
            story_id: "default"
        }
        .message(),
        "duplicate story ID `default` in story set `button`"
    );
    assert_eq!(
        RegistryError::StorySetWithoutStories { story_set_id: "button" }.message(),
        "story set `button` has no routed stories"
    );
    assert_eq!(
        showcases::RegistryError::DuplicateShowcaseId { id: "button" }.message(),
        "duplicate showcase ID `button`"
    );
    assert_eq!(
        showcases::RegistryError::DuplicatePreviewId {
            showcase_id: "button",
            preview_id: "default"
        }
        .message(),
        "duplicate preview ID `default` in showcase `button`"
    );
    assert_eq!(
        showcases::RegistryError::ShowcaseWithoutPreviews { showcase_id: "button" }.message(),
        "showcase `button` has no routed previews"
    );
}

#[test]
fn story_accessors_return_what_was_registered() {
    let s = story("id", "Name", Some("Description"), render(), "source");
    assert_eq!(s.id(), "id");
    assert_eq!(s.name(), "Name");
    assert_eq!(s.description(), Some("Description"));
    assert_eq!(s.source(), "source");
    let draw = s.render();
    draw();
    let stories = [&s];
    let set: StorySet<Render> = story_set("set", "Set", None, None, &stories);
    assert_eq!(set.stories().len(), 1);
    assert_eq!(set.previews().len(), 1);
    assert_eq!(set.description(), None);
}

#[test]
fn registered_story_sets_are_sorted_and_searchable() {
    let default_state = story("default-state", "Default State", Some("Default component state."), render(), "fn default_state() -> Element {\n    rsx! {}\n}\n");
    let compact = story("compact", "Compact", Some("Compact component state.\n\n    let compact = true;"), render(), "fn compact() {}\n");
    let thumbnail = story("catalog_thumbnail", "Catalog thumbnail", None, render(), "fn thumbnail() {}\n");
    let stories = [&default_state, &compact];
    let registry_test = story_set(
        "registry-test",
        "Registry test",
        Some("Registry test component.\nAdditional usage guidance."),
        Some(&thumbnail),
        &stories,
    );
    let other_stories = [&compact];
    let other = story_set("another", "Another", None, None, &other_stories);
    let registered = build_registry(vec![&registry_test, &other]).unwrap();
    assert!(registered.windows(2).all(|pair| pair[0].name() <= pair[1].name()));
    let found = find(&registered, "registry-test", "default-state");
    assert!(found.is_some());
    if let Some((set, found_story)) = found {
        assert_eq!(set.name(), "Registry test");
        assert_eq!(set.description(), Some("Registry test component.\nAdditional usage guidance."));
        assert_eq!(found_story.name(), "Default State");
        assert_eq!(found_story.description(), Some("Default component state."));
        assert!(found_story.source().contains("fn default_state"));
        assert!(found_story.source().ends_with("\n}\n"));
        assert_eq!(set.thumbnail().map(Story::id), Some("catalog_thumbnail"));
    }
    let (_, compact_story) = find(&registered, "registry-test", "compact").unwrap();
    assert_eq!(compact_story.description(), Some("Compact component state.\n\n    let compact = true;"));
}

#[test]
fn unknown_story_set_paths_do_not_resolve() {
    let default_state = story("default-state", "Default State", None, render(), "");
    let stories = [&default_state];
    let registry_test = story_set("registry-test", "Registry test", None, None, &stories);
    let registered = build_registry(vec![&registry_test]).unwrap();
    assert!(find(&registered, "registry-test", "missing").is_none());
    assert!(find(&registered, "missing", "default-state").is_none());
}

#[test]
fn registered_showcases_are_sorted_and_searchable() {
    let default_state = preview("default-state", "Default State", Some("Default component state."), render(), "fn default_state() -> Element {\n    rsx! {}\n}\n");
    let compact = preview("compact", "Compact", Some("Compact component state.\n\n    let compact = true;"), render(), "fn compact() {}\n");
    let thumbnail = preview("catalog_thumbnail", "Catalog thumbnail", None, render(), "fn thumbnail() {}\n");
    let previews = [&default_state, &compact];
    let registry_test = showcase(
        "registry-test",
        "Registry test",
        Some("Registry test component.\nAdditional usage guidance."),
        Some(&thumbnail),
        &previews,
    );
    let other_previews = [&compact];
    let other = showcase("another", "Another", None, None, &other_previews);
    let registered = showcases::build_registry(vec![&registry_test, &other]).unwrap();
    assert!(registered.windows(2).all(|pair| pair[0].name() <= pair[1].name()));
    let found = find(&registered, "registry-test", "default-state");
    assert!(found.is_some());
    if let Some((found_showcase, found_preview)) = found {
        assert_eq!(found_showcase.name(), "Registry test");
        assert_eq!(found_showcase.description(), Some("Registry test component.\nAdditional usage guidance."));
        assert_eq!(found_preview.name(), "Default State");
        assert_eq!(found_preview.description(), Some("Default component state."));
        assert!(found_preview.source().contains("fn default_state"));
        assert!(found_preview.source().ends_with("\n}\n"));
        assert_eq!(found_showcase.thumbnail().map(Preview::id), Some("catalog_thumbnail"));
    }
    let (_, compact_preview) = find(&registered, "registry-test", "compact").unwrap();
    assert_eq!(compact_preview.description(), Some("Compact component state.\n\n    let compact = true;"));
}

#[test]
fn unknown_showcase_paths_do_not_resolve() {
    let default_state = preview("default-state", "Default State", None, render(), "");
    let previews = [&default_state];
    let registry_test = showcase("registry-test", "Registry test", None, None, &previews);
    let registered = showcases::build_registry(vec![&registry_test]).unwrap();
    assert!(find(&registered, "registry-test", "missing").is_none());
    assert!(find(&registered, "missing", "default-state").is_none());
}

#[test]
fn equal_display_keys_keep_registration_order() {
    let only = story("default", "Default", None, render(), "");
    let stories = [&only];
    let first = story_set("same", "Same", Some("first"), None, &stories);
    let second = story_set("same", "Same", Some("second"), None, &stories);
    let sorted = sort_for_display(&vec![&first, &second]);
    assert_eq!(sorted[0].description(), Some("first"));
    assert_eq!(sorted[1].description(), Some("second"));
    let sorted = sort_for_display(&vec![&second, &first]);
    assert_eq!(sorted[0].description(), Some("second"));
    assert_eq!(sorted[1].description(), Some("first"));
}

#[test]
fn registration_order_does_not_change_the_registry() {
    let only = story("default", "Default", None, render(), "");
    let duplicate = story("default", "Again", None, render(), "");
    let fine = [&only];
    let broken = [&only, &duplicate];
    let alpha = story_set("alpha", "Alpha", None, None, &fine);
    let beta = story_set("beta", "Beta", None, None, &broken);
    let gamma = story_set("gamma", "Gamma", None, None, &[]);
    let forward = build_registry(vec![&alpha, &beta, &gamma]);
    let backward = build_registry(vec![&gamma, &beta, &alpha]);
    assert_eq!(forward, backward);
    assert_eq!(
        forward,
        Err(RegistryError::DuplicateStoryId { story_set_id: "beta", story_id: "default" })
    );
    assert_eq!(
        ids(build_registry(vec![&alpha, &gamma]).unwrap_or_default()),
        Vec::<&str>::new()
    );
    let fine_gamma = story_set("gamma", "Gamma", None, None, &fine);
    assert_eq!(ids(build_registry(vec![&fine_gamma, &alpha]).unwrap()), vec!["alpha", "gamma"]);
    assert_eq!(ids(build_registry(vec![&alpha, &fine_gamma]).unwrap()), vec!["alpha", "gamma"]);
}
