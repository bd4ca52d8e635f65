use dx_story::catalog::{
    card_canvas_class, card_description, default_story_sets_per_page, normalize_sidebar_query,
    page_indicator, render_path, route_selects_story, route_selects_story_set,
    sidebar_story_set_match, sidebar_story_set_starts_open, story_canvas_class,
    story_count_label, story_link_aria_current, story_link_class, story_matches_query,
    story_set_group_class, value_matches_query, CatalogConfig, CatalogRoute, SidebarStorySetMatch,
};
use dx_story::pagination::PageSize;
use dx_story::preview_catalog::{
    self, default_showcases_per_page, preview_count_label, sidebar_showcase_match,
    sidebar_showcase_starts_open, SidebarShowcaseMatch,
};
use dx_story::showcases::{preview, showcase};
use dx_story::stories::{story, story_set};

fn render_story() {}

type Render = fn();

fn render() -> Render {
    render_story
}

#[test]
fn catalog_catalog_configuration_has_bounded_defaults() {
    let config = CatalogConfig::<Render>::new("UI catalog");

    assert_eq!(config.title(), "UI catalog");
    assert_eq!(config.story_sets_per_page(), default_story_sets_per_page());
    assert!(config.canvas_class().is_empty());
    assert!(config.sidebar_footer().is_none());

    let config = preview_catalog::CatalogConfig::<Render>::new("UI catalog");

    assert_eq!(config.title(), "UI catalog");
    assert_eq!(config.showcases_per_page(), default_showcases_per_page());
    assert!(config.canvas_class().is_empty());
    assert!(config.sidebar_footer().is_none());
}

#[test]
fn catalog_catalog_configuration_preserves_consumer_canvas_classes() {
    let config = CatalogConfig::<Render>::new("UI catalog").with_canvas_class("font-sans app-theme");

    assert_eq!(config.canvas_class(), "font-sans app-theme");

    let config =
        preview_catalog::CatalogConfig::<Render>::new("UI catalog").with_canvas_class("font-sans app-theme");

    assert_eq!(config.canvas_class(), "font-sans app-theme");
}

#[test]
fn sidebar_search_matches_story_sets_and_stories() {
    let default_story = story("default", "Default", None, render(), "fn default() {}");
    let outlined_story = story("outlined", "Outlined button", None, render(), "fn outlined() {}");
    let stories = [&default_story, &outlined_story];
    let button = story_set("button", "Button", None, None, &stories);
    let cases = [
        ("", SidebarStorySetMatch::AllStories),
        (" button ", SidebarStorySetMatch::AllStories),
        ("BUTTON", SidebarStorySetMatch::AllStories),
        ("outlined", SidebarStorySetMatch::MatchingStories),
        ("missing", SidebarStorySetMatch::Hidden),
    ];

    for (query, expected) in cases {
        let query = normalize_sidebar_query(query);
        assert_eq!(sidebar_story_set_match(&button, &query), expected);
    }
}

#[test]
fn story_only_matches_hide_siblings() {
    let default_story = story("default", "Default", None, render(), "fn default() {}");
    let outlined_story = story("outlined", "Outlined button", None, render(), "fn outlined() {}");
    let stories = [&default_story, &outlined_story];
    let button = story_set("button", "Button", None, None, &stories);
    let query = normalize_sidebar_query("OUTLINED");
    let matched = sidebar_story_set_match(&button, &query);

    assert!(!matched.includes(&default_story, &query));
    assert!(matched.includes(&outlined_story, &query));
}

#[test]
fn catalog_sidebar_components_open_only_for_navigation_context() {
    assert!(!sidebar_story_set_starts_open(false, ""));
    assert!(sidebar_story_set_starts_open(true, ""));
    assert!(sidebar_story_set_starts_open(false, "button"));

    assert!(!sidebar_showcase_starts_open(false, ""));
    assert!(sidebar_showcase_starts_open(true, ""));
    assert!(sidebar_showcase_starts_open(false, "button"));
}

#[test]
fn sidebar_search_matches_showcases_and_previews() {
    let default_preview = preview("default", "Default", None, render(), "fn default() {}");
    let outlined_preview = preview("outlined", "Outlined button", None, render(), "fn outlined() {}");
    let previews = [&default_preview, &outlined_preview];
    let button = showcase("button", "Button", None, None, &previews);
    let cases = [
        ("", SidebarShowcaseMatch::AllPreviews),
        (" button ", SidebarShowcaseMatch::AllPreviews),
        ("BUTTON", SidebarShowcaseMatch::AllPreviews),
        ("outlined", SidebarShowcaseMatch::MatchingPreviews),
        ("missing", SidebarShowcaseMatch::Hidden),
    ];

    for (query, expected) in cases {
        let query = normalize_sidebar_query(query);
        assert_eq!(sidebar_showcase_match(&button, &query), expected);
    }
}

#[test]
fn preview_only_matches_hide_siblings() {
    let default_preview = preview("default", "Default", None, render(), "fn default() {}");
    let outlined_preview = preview("outlined", "Outlined button", None, render(), "fn outlined() {}");
    let previews = [&default_preview, &outlined_preview];
    let button = showcase("button", "Button", None, None, &previews);
    let query = normalize_sidebar_query("OUTLINED");
    let matched = sidebar_showcase_match(&button, &query);

    assert!(!matched.includes(&default_preview, &query));
    assert!(matched.includes(&outlined_preview, &query));
}

#[test]
fn sidebar_query_is_trimmed_and_lowered() {
    assert_eq!(normalize_sidebar_query("  Outlined BUTTON\t"), "outlined button");
    assert_eq!(normalize_sidebar_query("   "), "");
    assert!(value_matches_query("Outlined Button", "button"));
    assert!(!value_matches_query("Outlined Button", "card"));
    let s = story("primary-action", "Primary", None, render(), "");
    assert!(story_matches_query(&s, "action"));
    assert!(story_matches_query(&s, "prim"));
    assert!(!story_matches_query(&s, "secondary"));
}

#[test]
fn configuration_builders_change_one_setting_each() {
    let footer: Render = render_story;
    let per_page = PageSize::new(5).unwrap();
    let config = CatalogConfig::<Render>::default()
        .with_story_sets_per_page(per_page)
        .with_sidebar_footer(footer);
    assert_eq!(config.title(), "Component catalog");
    assert_eq!(config.story_sets_per_page().get(), 5);
    assert!(config.sidebar_footer().is_some());
    assert!(config.canvas_class().is_empty());
    assert_eq!(default_story_sets_per_page().get(), 12);

    let config = preview_catalog::CatalogConfig::<Render>::default().with_showcases_per_page(per_page);
    assert_eq!(config.title(), "Component catalog");
    assert_eq!(config.showcases_per_page().get(), 5);
}

#[test]
fn routes_select_the_shown_story() {
    let default_story = story("default", "Default", None, render(), "");
    let other_story = story("other", "Other", None, render(), "");
    let stories = [&default_story, &other_story];
    let button = story_set("button", "Button", None, None, &stories);
    let route = CatalogRoute::StoryView {
        story_set_id: "button".to_owned(),
        story_id: "default".to_owned(),
    };
    assert!(route_selects_story_set(&route, &button));
    assert!(route_selects_story(&route, &button, &default_story));
    assert!(!route_selects_story(&route, &button, &other_story));
    assert!(!route_selects_story_set(&CatalogRoute::Home, &button));
    let rendered = CatalogRoute::RenderStory {
        story_set_id: "button".to_owned(),
        story_id: "default".to_owned(),
    };
    assert!(!route_selects_story_set(&rendered, &button));
    assert_eq!(render_path(&button, &default_story), "/render/button/default");

    let default_preview = preview("default", "Default", None, render(), "");
    let previews = [&default_preview];
    let card = showcase("card", "Card", None, None, &previews);
    let route = preview_catalog::CatalogRoute::ShowcaseView {
        showcase_id: "card".to_owned(),
        preview_id: "default".to_owned(),
    };
    assert!(preview_catalog::route_selects_showcase(&route, &card));
    assert!(preview_catalog::route_selects_preview(&route, &card, &default_preview));
    assert!(!preview_catalog::route_selects_showcase(&preview_catalog::CatalogRoute::Home, &card));
}

#[test]
fn labels_and_classes_follow_the_catalog_markup() {
    assert_eq!(story_count_label(1), "1 story");
    assert_eq!(story_count_label(0), "0 stories");
    assert_eq!(story_count_label(12), "12 stories");
    assert_eq!(preview_count_label(1), "1 preview");
    assert_eq!(preview_count_label(3), "3 previews");
    assert_eq!(page_indicator(2, 7), "Page 2 of 7");
    let config = CatalogConfig::<Render>::new("UI").with_canvas_class("theme");
    assert_eq!(card_canvas_class(&config), "dxs-frame-content theme");
    assert_eq!(story_canvas_class(&config), "dxs-frame-content dxs-story-frame-content theme");
    assert_eq!(story_set_group_class(true), "dxs-story-set-group dxs-story-set-group-active");
    assert_eq!(story_set_group_class(false), "dxs-story-set-group");
    assert_eq!(story_link_class(true), "dxs-story-link dxs-story-link-active");
    assert_eq!(story_link_class(false), "dxs-story-link");
    assert_eq!(story_link_aria_current(true), "page");
    assert_eq!(story_link_aria_current(false), "false");
    let config = preview_catalog::CatalogConfig::<Render>::new("UI").with_canvas_class("theme");
    assert_eq!(preview_catalog::card_canvas_class(&config), "dxb-frame-content theme");
    assert_eq!(
        preview_catalog::showcase_canvas_class(&config),
        "dxb-frame-content dxb-showcase-frame-content theme"
    );
    assert_eq!(preview_catalog::showcase_group_class(false), "dxb-showcase-group");
    assert_eq!(
        preview_catalog::preview_link_class(true),
        "dxb-preview-link dxb-preview-link-active"
    );
}

#[test]
fn cards_summarize_descriptions() {
    let s = story("default", "Default", None, render(), "");
    let stories = [&s];
    let described = story_set("button", "Button", Some("A **bold** button."), None, &stories);
    let plain = story_set("card", "Card", None, None, &stories);
    assert_eq!(card_description(&described), "A bold button.");
    assert_eq!(card_description(&plain), "Component stories.");
    let p = preview("default", "Default", None, render(), "");
    let previews = [&p];
    let plain = showcase("card", "Card", None, None, &previews);
    assert_eq!(preview_catalog::card_description(&plain), "Component showcase.");
}
