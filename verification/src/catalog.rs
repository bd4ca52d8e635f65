//! The catalog's decisions that do not depend on the renderer: its settings, the sidebar
//! search, route selection and the labels of cards and pages.
use vstd::prelude::*;
use crate::markdown::{markdown_events, summary, summary_of};
use crate::pagination::PageSize;
use crate::stories::{Story, StorySet};
use crate::text::{
    append_text, bool_text, chars_of, contains, contains_text, decimal, decimal_text, lowercase,
    same_text, string_from_chars, to_lowercase, trim, trim_chars,
};

verus! {

/// The number of story sets on a catalog page unless configured otherwise.
pub fn default_story_sets_per_page() -> (r: PageSize)
    ensures
        r.spec_get() == 12,
{
    match PageSize::new(12) {
        Some(p) => p,
        None => PageSize::one(),
    }
}

/// Catalog settings: the title, the number of story sets per page, classes added to every
/// story canvas, and an optional sidebar footer renderer `F`.
#[derive(Clone, Copy, Debug, PartialEq, Eq)]
pub struct CatalogConfig<F> {
    title: &'static str,
    story_sets_per_page: PageSize,
    canvas_class: &'static str,
    sidebar_footer: Option<F>,
}

impl<F> CatalogConfig<F> {
    pub closed spec fn spec_title(self) -> &'static str {
        self.title
    }

    pub closed spec fn spec_story_sets_per_page(self) -> PageSize {
        self.story_sets_per_page
    }

    pub closed spec fn spec_canvas_class(self) -> &'static str {
        self.canvas_class
    }

    pub closed spec fn spec_sidebar_footer(self) -> Option<F> {
        self.sidebar_footer
    }

    /// Settings with the given title, twelve story sets per page, no canvas classes and no
    /// sidebar footer.
    pub fn new(title: &'static str) -> (r: Self)
        ensures
            r.spec_title() == title,
            r.spec_story_sets_per_page().spec_get() == 12,
            r.spec_canvas_class()@.len() == 0,
            r.spec_sidebar_footer() is None,
    {
        proof {
            reveal_strlit("");
        }
        CatalogConfig {
            title,
            story_sets_per_page: default_story_sets_per_page(),
            canvas_class: "",
            sidebar_footer: None,
        }
    }

    /// The same settings with another number of story sets per page.
    pub fn with_story_sets_per_page(self, story_sets_per_page: PageSize) -> (r: Self)
        ensures
            r.spec_title() == self.spec_title(),
            r.spec_story_sets_per_page() == story_sets_per_page,
            r.spec_canvas_class() == self.spec_canvas_class(),
            r.spec_sidebar_footer() == self.spec_sidebar_footer(),
    {
        CatalogConfig { story_sets_per_page, ..self }
    }

    /// The same settings, adding `canvas_class` to every story canvas.
    pub fn with_canvas_class(self, canvas_class: &'static str) -> (r: Self)
        ensures
            r.spec_title() == self.spec_title(),
            r.spec_story_sets_per_page() == self.spec_story_sets_per_page(),
            r.spec_canvas_class() == canvas_class,
            r.spec_sidebar_footer() == self.spec_sidebar_footer(),
    {
        CatalogConfig { canvas_class, ..self }
    }

    /// The same settings with a sidebar footer renderer.
    pub fn with_sidebar_footer(self, render: F) -> (r: Self)
        ensures
            r.spec_title() == self.spec_title(),
            r.spec_story_sets_per_page() == self.spec_story_sets_per_page(),
            r.spec_canvas_class() == self.spec_canvas_class(),
            r.spec_sidebar_footer() == Some(render),
    {
        CatalogConfig { sidebar_footer: Some(render), ..self }
    }

    /// The title.
    pub fn title(&self) -> (r: &'static str)
        ensures
            r == self.spec_title(),
    {
        self.title
    }

    /// The number of story sets per page.
    pub fn story_sets_per_page(&self) -> (r: PageSize)
        ensures
            r == self.spec_story_sets_per_page(),
    {
        self.story_sets_per_page
    }

    /// The classes added to every story canvas.
    pub fn canvas_class(&self) -> (r: &'static str)
        ensures
            r == self.spec_canvas_class(),
    {
        self.canvas_class
    }
}

impl<F: Copy> CatalogConfig<F> {
    /// The sidebar footer renderer, if any.
    pub fn sidebar_footer(&self) -> (r: Option<F>)
        ensures
            r == self.spec_sidebar_footer(),
    {
        self.sidebar_footer
    }
}

impl<F> Default for CatalogConfig<F> {
    /// Settings titled "Component catalog".
    fn default() -> (r: Self)
        ensures
            r.spec_title()@ == "Component catalog"@,
            r.spec_story_sets_per_page().spec_get() == 12,
            r.spec_canvas_class()@.len() == 0,
            r.spec_sidebar_footer() is None,
    {
        Self::new("Component catalog")
    }
}

// ----- Sidebar search -----

/// How much of a story set the sidebar shows for a query.
#[derive(Clone, Copy, Debug, PartialEq, Eq)]
pub enum SidebarStorySetMatch {
    AllStories,
    MatchingStories,
    Hidden,
}

/// A value matches a normalized query when its lower-case form contains the query.
pub open spec fn value_matches(value: Seq<char>, query: Seq<char>) -> bool {
    contains_text(lowercase(value), query)
}

/// A story matches when its identifier or its name matches.
pub open spec fn story_matches<'a, R>(story: &Story<'a, R>, query: Seq<char>) -> bool {
    value_matches(story.spec_id()@, query) || value_matches(story.spec_name()@, query)
}

/// All stories show for an empty query or when the story set's identifier or name matches;
/// otherwise only the matching stories show, and the set is hidden when none matches.
pub open spec fn sidebar_match<'a, R>(story_set: &StorySet<'a, R>, query: Seq<char>) -> SidebarStorySetMatch {
    if query.len() == 0 || value_matches(story_set.spec_id()@, query) || value_matches(
        story_set.spec_name()@,
        query,
    ) {
        SidebarStorySetMatch::AllStories
    } else if exists|i: int|
        0 <= i < story_set.spec_stories().len() && story_matches(
            #[trigger] story_set.spec_stories()[i],
            query,
        ) {
        SidebarStorySetMatch::MatchingStories
    } else {
        SidebarStorySetMatch::Hidden
    }
}

/// The query the sidebar searches for: the typed text without surrounding white space, in
/// lower case.
pub fn normalize_sidebar_query(query: &str) -> (r: String)
    ensures
        r@ == lowercase(trim_chars(query@)),
{
    let trimmed = string_from_chars(&trim(&chars_of(query)));
    to_lowercase(trimmed.as_str())
}

/// Whether `value` matches the normalized `query`.
pub fn value_matches_query(value: &str, query: &str) -> (r: bool)
    ensures
        r == value_matches(value@, query@),
{
    let lowered = to_lowercase(value);
    contains(&chars_of(lowered.as_str()), &chars_of(query))
}

/// Whether `story` matches the normalized `query`.
pub fn story_matches_query<'a, R>(story: &Story<'a, R>, query: &str) -> (r: bool)
    ensures
        r == story_matches(story, query@),
{
    value_matches_query(story.id(), query) || value_matches_query(story.name(), query)
}

/// The sidebar lists a story set with all its stories when the query is empty, or when its
/// lower-cased display name or identifier contains the query, whatever its stories.
pub proof fn lemma_name_or_id_match_lists_all_stories<'a, R>(story_set: &StorySet<'a, R>, query: Seq<char>)
    requires
        query.len() == 0 || contains_text(lowercase(story_set.spec_name()@), query) || contains_text(
            lowercase(story_set.spec_id()@),
            query,
        ),
    ensures
        sidebar_match(story_set, query) == SidebarStorySetMatch::AllStories,
{
}

/// A story set is hidden from the sidebar only when neither its display name, nor its
/// identifier, nor any of its stories' names or identifiers contains the query.
pub proof fn lemma_hidden_only_without_matches<'a, R>(story_set: &StorySet<'a, R>, query: Seq<char>, i: int)
    requires
        sidebar_match(story_set, query) == SidebarStorySetMatch::Hidden,
        0 <= i < story_set.spec_stories().len(),
    ensures
        query.len() > 0,
        !contains_text(lowercase(story_set.spec_name()@), query),
        !contains_text(lowercase(story_set.spec_id()@), query),
        !contains_text(lowercase(story_set.spec_stories()[i].spec_name()@), query),
        !contains_text(lowercase(story_set.spec_stories()[i].spec_id()@), query),
{
    if story_matches(story_set.spec_stories()[i], query) {
        assert(exists|k: int|
            0 <= k < story_set.spec_stories().len() && story_matches(#[trigger] story_set.spec_stories()[k], query));
    }
}

/// How much of `story_set` the sidebar shows for the normalized `query`.
pub fn sidebar_story_set_match<'a, R>(story_set: &StorySet<'a, R>, query: &str) -> (r: SidebarStorySetMatch)
    ensures
        r == sidebar_match(story_set, query@),
{
    if query.is_empty() || value_matches_query(story_set.id(), query) || value_matches_query(
        story_set.name(),
        query,
    ) {
        return SidebarStorySetMatch::AllStories;
    }
    let stories = story_set.stories();
    let mut i: usize = 0;
    while i < stories.len()
        invariant
            i <= stories@.len(),
            stories@ == story_set.spec_stories(),
            !(query@.len() == 0 || value_matches(story_set.spec_id()@, query@) || value_matches(
                story_set.spec_name()@,
                query@,
            )),
            forall|m: int| 0 <= m < i ==> !story_matches(#[trigger] stories@[m], query@),
        decreases stories@.len() - i,
    {
        if story_matches_query(stories[i], query) {
            assert(story_matches(story_set.spec_stories()[i as int], query@));
            return SidebarStorySetMatch::MatchingStories;
        }
        i += 1;
    }
    SidebarStorySetMatch::Hidden
}

impl SidebarStorySetMatch {
    /// Whether the sidebar lists `story` under this match for the normalized `query`.
    pub fn includes<'a, R>(self, story: &Story<'a, R>, query: &str) -> (r: bool)
        ensures
            r == match self {
                SidebarStorySetMatch::AllStories => true,
                SidebarStorySetMatch::MatchingStories => story_matches(story, query@),
                SidebarStorySetMatch::Hidden => false,
            },
    {
        match self {
            SidebarStorySetMatch::AllStories => true,
            SidebarStorySetMatch::MatchingStories => story_matches_query(story, query),
            SidebarStorySetMatch::Hidden => false,
        }
    }
}

/// A story set's disclosure starts open when it holds the current story or a search is
/// active.
pub fn sidebar_story_set_starts_open(active_story_set: bool, query: &str) -> (r: bool)
    ensures
        r == (active_story_set || query@.len() > 0),
{
    active_story_set || !query.is_empty()
}

// ----- Routes -----

/// The catalog's pages: the home page, a story inside the catalog, and a story rendered
/// alone.
#[derive(Clone, Debug, PartialEq, Eq)]
pub enum CatalogRoute {
    Home,
    StoryView { story_set_id: String, story_id: String },
    RenderStory { story_set_id: String, story_id: String },
}

/// The route shows a story of `story_set` inside the catalog.
pub open spec fn route_in_story_set<'a, R>(route: &CatalogRoute, story_set: &StorySet<'a, R>) -> bool {
    match route {
        CatalogRoute::StoryView { story_set_id, story_id } => story_set_id@ == story_set.spec_id()@,
        _ => false,
    }
}

/// The route shows `story` of `story_set` inside the catalog.
pub open spec fn route_at_story<'a, R>(
    route: &CatalogRoute,
    story_set: &StorySet<'a, R>,
    story: &Story<'a, R>,
) -> bool {
    match route {
        CatalogRoute::StoryView { story_set_id, story_id } => story_set_id@ == story_set.spec_id()@
            && story_id@ == story.spec_id()@,
        _ => false,
    }
}

/// Whether the route shows a story of `story_set` inside the catalog.
pub fn route_selects_story_set<'a, R>(route: &CatalogRoute, story_set: &StorySet<'a, R>) -> (r: bool)
    ensures
        r == route_in_story_set(route, story_set),
{
    match route {
        CatalogRoute::StoryView { story_set_id, .. } => same_text(story_set_id.as_str(), story_set.id()),
        _ => false,
    }
}

/// Whether the route shows `story` of `story_set` inside the catalog.
pub fn route_selects_story<'a, R>(route: &CatalogRoute, story_set: &StorySet<'a, R>, story: &Story<'a, R>) -> (r: bool)
    ensures
        r == route_at_story(route, story_set, story),
{
    match route {
        CatalogRoute::StoryView { story_set_id, story_id } => same_text(
            story_set_id.as_str(),
            story_set.id(),
        ) && same_text(story_id.as_str(), story.id()),
        _ => false,
    }
}

/// The path that renders a story alone: `/render/{story set}/{story}`.
pub fn render_path<'a, R>(story_set: &StorySet<'a, R>, story: &Story<'a, R>) -> (r: String)
    ensures
        r@ == "/render/"@ + story_set.spec_id()@ + "/"@ + story.spec_id()@,
{
    let mut path = "/render/".to_owned();
    append_text(&mut path, story_set.id());
    append_text(&mut path, "/");
    append_text(&mut path, story.id());
    path
}

// ----- Labels -----

/// The accessible label of a story count: "1 story", otherwise "{count} stories".
pub fn story_count_label(count: usize) -> (r: String)
    ensures
        r@ == if count == 1 {
            "1 story"@
        } else {
            decimal(count as nat) + " stories"@
        },
{
    if count == 1 {
        "1 story".to_owned()
    } else {
        let mut label = decimal_text(count as u64);
        append_text(&mut label, " stories");
        label
    }
}

/// The class of a catalog card's canvas: the frame content class and the configured
/// canvas classes.
pub fn card_canvas_class<F>(config: &CatalogConfig<F>) -> (r: String)
    ensures
        r@ == "dxs-frame-content "@ + config.spec_canvas_class()@,
{
    let mut class = "dxs-frame-content ".to_owned();
    append_text(&mut class, config.canvas_class());
    class
}

/// The class of a story canvas: the frame content classes and the configured canvas
/// classes.
pub fn story_canvas_class<F>(config: &CatalogConfig<F>) -> (r: String)
    ensures
        r@ == "dxs-frame-content dxs-story-frame-content "@ + config.spec_canvas_class()@,
{
    let mut class = "dxs-frame-content dxs-story-frame-content ".to_owned();
    append_text(&mut class, config.canvas_class());
    class
}

/// The class of a story set's sidebar group.
pub fn story_set_group_class(active_story_set: bool) -> (r: &'static str)
    ensures
        r@ == if active_story_set {
            "dxs-story-set-group dxs-story-set-group-active"@
        } else {
            "dxs-story-set-group"@
        },
{
    if active_story_set {
        "dxs-story-set-group dxs-story-set-group-active"
    } else {
        "dxs-story-set-group"
    }
}

/// The class of a story's sidebar link.
pub fn story_link_class(selected: bool) -> (r: &'static str)
    ensures
        r@ == if selected {
            "dxs-story-link dxs-story-link-active"@
        } else {
            "dxs-story-link"@
        },
{
    if selected {
        "dxs-story-link dxs-story-link-active"
    } else {
        "dxs-story-link"
    }
}

/// The `aria-current` value of a story's sidebar link.
pub fn story_link_aria_current(selected: bool) -> (r: &'static str)
    ensures
        r@ == if selected {
            "page"@
        } else {
            bool_text(false)
        },
{
    if selected {
        "page"
    } else {
        proof {
            reveal_strlit("false");
        }
        "false"
    }
}

/// The page indicator: "Page {number} of {count}".
pub fn page_indicator(page_number: usize, page_count: usize) -> (r: String)
    ensures
        r@ == "Page "@ + decimal(page_number as nat) + " of "@ + decimal(page_count as nat),
{
    let mut text = "Page ".to_owned();
    append_text(&mut text, decimal_text(page_number as u64).as_str());
    append_text(&mut text, " of ");
    append_text(&mut text, decimal_text(page_count as u64).as_str());
    text
}

/// The description on a story set's card: the summary of its Markdown description, at
/// most 150 characters, or "Component stories." when it has none.
pub fn card_description<'a, R>(story_set: &StorySet<'a, R>) -> (r: String)
    ensures
        r@ == match story_set.spec_description() {
            Some(source) => summary_of(markdown_events(source@), 150),
            None => "Component stories."@,
        },
{
    match story_set.description() {
        Some(source) => summary(source, 150),
        None => "Component stories.".to_owned(),
    }
}

} // verus!
