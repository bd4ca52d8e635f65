//! The showcase catalog's decisions that do not depend on the renderer: its settings, the
//! sidebar search over showcases and previews, route selection and the labels of cards.
use vstd::prelude::*;
use crate::catalog::{sidebar_match, sidebar_story_set_match, story_matches, story_matches_query, SidebarStorySetMatch};
use crate::markdown::{markdown_events, summary, summary_of};
use crate::pagination::PageSize;
use crate::showcases::{Preview, Showcase};
use crate::text::{append_text, decimal, decimal_text, same_text};

verus! {

/// The number of showcases on a catalog page unless configured otherwise.
pub fn default_showcases_per_page() -> (r: PageSize)
    ensures
        r.spec_get() == 12,
{
    crate::catalog::default_story_sets_per_page()
}

/// Showcase catalog settings: the title, the number of showcases per page, classes added
/// to every preview canvas, and an optional sidebar footer renderer `F`.
#[derive(Clone, Copy, Debug, PartialEq, Eq)]
pub struct CatalogConfig<F> {
    title: &'static str,
    showcases_per_page: PageSize,
    canvas_class: &'static str,
    sidebar_footer: Option<F>,
}

impl<F> CatalogConfig<F> {
    pub closed spec fn spec_title(self) -> &'static str {
        self.title
    }

    pub closed spec fn spec_showcases_per_page(self) -> PageSize {
        self.showcases_per_page
    }

    pub closed spec fn spec_canvas_class(self) -> &'static str {
        self.canvas_class
    }

    pub closed spec fn spec_sidebar_footer(self) -> Option<F> {
        self.sidebar_footer
    }

    /// Settings with the given title, twelve showcases per page, no canvas classes and no
    /// sidebar footer.
    pub fn new(title: &'static str) -> (r: Self)
        ensures
            r.spec_title() == title,
            r.spec_showcases_per_page().spec_get() == 12,
            r.spec_canvas_class()@.len() == 0,
            r.spec_sidebar_footer() is None,
    {
        proof {
            reveal_strlit("");
        }
        CatalogConfig {
            title,
            showcases_per_page: default_showcases_per_page(),
            canvas_class: "",
            sidebar_footer: None,
        }
    }

    /// The same settings with another number of showcases per page.
    pub fn with_showcases_per_page(self, showcases_per_page: PageSize) -> (r: Self)
        ensures
            r.spec_title() == self.spec_title(),
            r.spec_showcases_per_page() == showcases_per_page,
            r.spec_canvas_class() == self.spec_canvas_class(),
            r.spec_sidebar_footer() == self.spec_sidebar_footer(),
    {
        CatalogConfig { showcases_per_page, ..self }
    }

    /// The same settings, adding `canvas_class` to every preview canvas.
    pub fn with_canvas_class(self, canvas_class: &'static str) -> (r: Self)
        ensures
            r.spec_title() == self.spec_title(),
            r.spec_showcases_per_page() == self.spec_showcases_per_page(),
            r.spec_canvas_class() == canvas_class,
            r.spec_sidebar_footer() == self.spec_sidebar_footer(),
    {
        CatalogConfig { canvas_class, ..self }
    }

    /// The same settings with a sidebar footer renderer.
    pub fn with_sidebar_footer(self, render: F) -> (r: Self)
        ensures
            r.spec_title() == self.spec_title(),
            r.spec_showcases_per_page() == self.spec_showcases_per_page(),
            r.spec_canvas_class() == self.spec_canvas_class(),
            r.spec_sidebar_footer() == Some(render),
    {
        CatalogConfig { sidebar_footer: Some(render), ..self }
    }

    /// The title.
    pub fn title(&self) -> (r: &'static str)
        ensures
            r == self.spec_title(),
    {
        self.title
    }

    /// The number of showcases per page.
    pub fn showcases_per_page(&self) -> (r: PageSize)
        ensures
            r == self.spec_showcases_per_page(),
    {
        self.showcases_per_page
    }

    /// The classes added to every preview canvas.
    pub fn canvas_class(&self) -> (r: &'static str)
        ensures
            r == self.spec_canvas_class(),
    {
        self.canvas_class
    }
}

impl<F: Copy> CatalogConfig<F> {
    /// The sidebar footer renderer, if any.
    pub fn sidebar_footer(&self) -> (r: Option<F>)
        ensures
            r == self.spec_sidebar_footer(),
    {
        self.sidebar_footer
    }
}

impl<F> Default for CatalogConfig<F> {
    /// Settings titled "Component catalog".
    fn default() -> (r: Self)
        ensures
            r.spec_title()@ == "Component catalog"@,
            r.spec_showcases_per_page().spec_get() == 12,
            r.spec_canvas_class()@.len() == 0,
            r.spec_sidebar_footer() is None,
    {
        Self::new("Component catalog")
    }
}

// ----- Sidebar search -----

/// How much of a showcase the sidebar shows for a query.
#[derive(Clone, Copy, Debug, PartialEq, Eq)]
pub enum SidebarShowcaseMatch {
    AllPreviews,
    MatchingPreviews,
    Hidden,
}

/// All previews show for an empty query or when the showcase's identifier or name
/// matches; otherwise only the matching previews show, and the showcase is hidden when
/// none matches.
pub open spec fn showcase_match<'a, R>(showcase: &Showcase<'a, R>, query: Seq<char>) -> SidebarShowcaseMatch {
    match sidebar_match(showcase, query) {
        SidebarStorySetMatch::AllStories => SidebarShowcaseMatch::AllPreviews,
        SidebarStorySetMatch::MatchingStories => SidebarShowcaseMatch::MatchingPreviews,
        SidebarStorySetMatch::Hidden => SidebarShowcaseMatch::Hidden,
    }
}

/// Whether `preview` matches the normalized `query` by identifier or name.
pub fn preview_matches_query<'a, R>(preview: &Preview<'a, R>, query: &str) -> (r: bool)
    ensures
        r == story_matches(preview, query@),
{
    story_matches_query(preview, query)
}

/// How much of `showcase` the sidebar shows for the normalized `query`.
pub fn sidebar_showcase_match<'a, R>(showcase: &Showcase<'a, R>, query: &str) -> (r: SidebarShowcaseMatch)
    ensures
        r == showcase_match(showcase, query@),
{
    match sidebar_story_set_match(showcase, query) {
        SidebarStorySetMatch::AllStories => SidebarShowcaseMatch::AllPreviews,
        SidebarStorySetMatch::MatchingStories => SidebarShowcaseMatch::MatchingPreviews,
        SidebarStorySetMatch::Hidden => SidebarShowcaseMatch::Hidden,
    }
}

impl SidebarShowcaseMatch {
    /// Whether the sidebar lists `preview` under this match for the normalized `query`.
    pub fn includes<'a, R>(self, preview: &Preview<'a, R>, query: &str) -> (r: bool)
        ensures
            r == match self {
                SidebarShowcaseMatch::AllPreviews => true,
                SidebarShowcaseMatch::MatchingPreviews => story_matches(preview, query@),
                SidebarShowcaseMatch::Hidden => false,
            },
    {
        match self {
            SidebarShowcaseMatch::AllPreviews => true,
            SidebarShowcaseMatch::MatchingPreviews => preview_matches_query(preview, query),
            SidebarShowcaseMatch::Hidden => false,
        }
    }
}

/// A showcase's disclosure starts open when it holds the current preview or a search is
/// active.
pub fn sidebar_showcase_starts_open(active_showcase: bool, query: &str) -> (r: bool)
    ensures
        r == (active_showcase || query@.len() > 0),
{
    active_showcase || !query.is_empty()
}

// ----- Routes -----

/// The showcase catalog's pages: the home page, a preview inside the catalog, and a
/// preview rendered alone.
#[derive(Clone, Debug, PartialEq, Eq)]
pub enum CatalogRoute {
    Home,
    ShowcaseView { showcase_id: String, preview_id: String },
    RenderPreview { showcase_id: String, preview_id: String },
}

/// Whether the route shows a preview of `showcase` inside the catalog.
pub fn route_selects_showcase<'a, R>(route: &CatalogRoute, showcase: &Showcase<'a, R>) -> (r: bool)
    ensures
        r == match route {
            CatalogRoute::ShowcaseView { showcase_id, preview_id } => showcase_id@ == showcase.spec_id()@,
            _ => false,
        },
{
    match route {
        CatalogRoute::ShowcaseView { showcase_id, .. } => same_text(showcase_id.as_str(), showcase.id()),
        _ => false,
    }
}

/// Whether the route shows `preview` of `showcase` inside the catalog.
pub fn route_selects_preview<'a, R>(route: &CatalogRoute, showcase: &Showcase<'a, R>, preview: &Preview<'a, R>) -> (r: bool)
    ensures
        r == match route {
            CatalogRoute::ShowcaseView { showcase_id, preview_id } => showcase_id@ == showcase.spec_id()@
                && preview_id@ == preview.spec_id()@,
            _ => false,
        },
{
    match route {
        CatalogRoute::ShowcaseView { showcase_id, preview_id } => same_text(
            showcase_id.as_str(),
            showcase.id(),
        ) && same_text(preview_id.as_str(), preview.id()),
        _ => false,
    }
}

// ----- Labels -----

/// The accessible label of a preview count: "1 preview", otherwise "{count} previews".
pub fn preview_count_label(count: usize) -> (r: String)
    ensures
        r@ == if count == 1 {
            "1 preview"@
        } else {
            decimal(count as nat) + " previews"@
        },
{
    if count == 1 {
        "1 preview".to_owned()
    } else {
        let mut label = decimal_text(count as u64);
        append_text(&mut label, " previews");
        label
    }
}

/// The class of a showcase card's canvas: the frame content class and the configured
/// canvas classes.
pub fn card_canvas_class<F>(config: &CatalogConfig<F>) -> (r: String)
    ensures
        r@ == "dxb-frame-content "@ + config.spec_canvas_class()@,
{
    let mut class = "dxb-frame-content ".to_owned();
    append_text(&mut class, config.canvas_class());
    class
}

/// The class of a preview canvas: the frame content classes and the configured canvas
/// classes.
pub fn showcase_canvas_class<F>(config: &CatalogConfig<F>) -> (r: String)
    ensures
        r@ == "dxb-frame-content dxb-showcase-frame-content "@ + config.spec_canvas_class()@,
{
    let mut class = "dxb-frame-content dxb-showcase-frame-content ".to_owned();
    append_text(&mut class, config.canvas_class());
    class
}

/// The class of a showcase's sidebar group.
pub fn showcase_group_class(active_showcase: bool) -> (r: &'static str)
    ensures
        r@ == if active_showcase {
            "dxb-showcase-group dxb-showcase-group-active"@
        } else {
            "dxb-showcase-group"@
        },
{
    if active_showcase {
        "dxb-showcase-group dxb-showcase-group-active"
    } else {
        "dxb-showcase-group"
    }
}

/// The class of a preview's sidebar link.
pub fn preview_link_class(selected: bool) -> (r: &'static str)
    ensures
        r@ == if selected {
            "dxb-preview-link dxb-preview-link-active"@
        } else {
            "dxb-preview-link"@
        },
{
    if selected {
        "dxb-preview-link dxb-preview-link-active"
    } else {
        "dxb-preview-link"
    }
}

/// The description on a showcase's card: the summary of its Markdown description, at most
/// 150 characters, or "Component showcase." when it has none.
pub fn card_description<'a, R>(showcase: &Showcase<'a, R>) -> (r: String)
    ensures
        r@ == match showcase.spec_description() {
            Some(source) => summary_of(markdown_events(source@), 150),
            None => "Component showcase."@,
        },
{
    match showcase.description() {
        Some(source) => summary(source, 150),
        None => "Component showcase.".to_owned(),
    }
}

} // verus!
