//! Previews and showcases: the same records as stories and story sets, named for catalogs
//! that present components as showcases of previews. The registry is the story registry;
//! only its failures are reported in showcase terms.
use vstd::prelude::*;
use crate::stories::{
    is_display_order_of, registry_error, stable_display_order, registry_is_valid, story, story_set, Story, StorySet,
};
use crate::text::append_text;

verus! {

/// A renderable component state.
pub type Preview<'a, R> = Story<'a, R>;

/// A component and its previews.
pub type Showcase<'a, R> = StorySet<'a, R>;

/// The number of showcases above which validation switches from a linear scan to a hash
/// set.
pub const SHOWCASE_COUNT_LINEAR_VALIDATION_MAX: usize = crate::stories::STORY_SET_COUNT_LINEAR_VALIDATION_MAX;

/// A registry validation failure, in showcase terms.
#[derive(Clone, Copy, Debug, PartialEq, Eq)]
pub enum RegistryError<'a> {
    DuplicateShowcaseId { id: &'a str },
    DuplicatePreviewId { showcase_id: &'a str, preview_id: &'a str },
    ShowcaseWithoutPreviews { showcase_id: &'a str },
}

/// A story registry failure named in showcase terms.
pub open spec fn showcase_error<'a>(error: crate::stories::RegistryError<'a>) -> RegistryError<'a> {
    match error {
        crate::stories::RegistryError::DuplicateStorySetId { id } => RegistryError::DuplicateShowcaseId { id },
        crate::stories::RegistryError::DuplicateStoryId { story_set_id, story_id } => {
            RegistryError::DuplicatePreviewId { showcase_id: story_set_id, preview_id: story_id }
        },
        crate::stories::RegistryError::StorySetWithoutStories { story_set_id } => {
            RegistryError::ShowcaseWithoutPreviews { showcase_id: story_set_id }
        },
    }
}

/// Names a story registry failure in showcase terms.
pub fn from_story_error<'a>(error: crate::stories::RegistryError<'a>) -> (r: RegistryError<'a>)
    ensures
        r == showcase_error(error),
{
    match error {
        crate::stories::RegistryError::DuplicateStorySetId { id } => RegistryError::DuplicateShowcaseId { id },
        crate::stories::RegistryError::DuplicateStoryId { story_set_id, story_id } => {
            RegistryError::DuplicatePreviewId { showcase_id: story_set_id, preview_id: story_id }
        },
        crate::stories::RegistryError::StorySetWithoutStories { story_set_id } => {
            RegistryError::ShowcaseWithoutPreviews { showcase_id: story_set_id }
        },
    }
}

/// Builds a preview from its route identifier, display name, Markdown description, render
/// handle and Rust source.
pub fn preview<'a, R>(
    id: &'a str,
    name: &'a str,
    description: Option<&'a str>,
    render: R,
    source: &'a str,
) -> (r: Preview<'a, R>)
    ensures
        r.spec_id() == id,
        r.spec_name() == name,
        r.spec_description() == description,
        r.spec_render() == render,
        r.spec_source() == source,
{
    story(id, name, description, render, source)
}

/// Builds a showcase from its route identifier, display name, Markdown description,
/// optional thumbnail preview and previews.
pub fn showcase<'a, R>(
    id: &'a str,
    name: &'a str,
    description: Option<&'a str>,
    thumbnail: Option<&'a Preview<'a, R>>,
    previews: &'a [&'a Preview<'a, R>],
) -> (r: Showcase<'a, R>)
    ensures
        r.spec_id() == id,
        r.spec_name() == name,
        r.spec_description() == description,
        r.spec_thumbnail() == thumbnail,
        r.spec_stories() == previews@,
{
    story_set(id, name, description, thumbnail, previews)
}

impl<'a, R> StorySet<'a, R> {
    /// The previews, in declaration order.
    pub fn previews(&self) -> (r: &'a [&'a Preview<'a, R>])
        ensures
            r@ == self.spec_stories(),
    {
        self.stories()
    }

    /// The first preview, if any.
    pub fn first_preview(&self) -> (r: Option<&'a Preview<'a, R>>)
        ensures
            r == self.spec_first_story(),
    {
        self.first_story()
    }
}

/// Puts registered showcases in display order and validates them: the result is the
/// showcases in display order, or the first failure in that order.
pub fn build_registry<'a, R>(registrations: Vec<&'a Showcase<'a, R>>) -> (r: Result<
    Vec<&'a Showcase<'a, R>>,
    RegistryError<'a>,
>)
    ensures
        r is Ok <==> registry_is_valid(registrations@),
        match r {
            Ok(v) => v@ == stable_display_order(registrations@) && is_display_order_of(v@, registrations@)
                && registry_error(v@, v@.len()) is None,
            Err(e) => exists|f: crate::stories::RegistryError<'a>|
                registry_error(stable_display_order(registrations@), registrations@.len()) == Some(f)
                    && e == showcase_error(f),
        },
{
    match crate::stories::build_registry(registrations) {
        Ok(v) => Ok(v),
        Err(f) => {
            let e = from_story_error(f);
            Err(e)
        },
    }
}

/// Validates registered showcases: succeeds exactly when they hold no duplicate
/// identifier and no empty showcase.
pub fn init_registry<'a, R>(registrations: Vec<&'a Showcase<'a, R>>) -> (r: Result<(), RegistryError<'a>>)
    ensures
        r is Ok <==> registry_is_valid(registrations@),
        match r {
            Ok(()) => registry_error(stable_display_order(registrations@), registrations@.len()) is None,
            Err(e) => exists|f: crate::stories::RegistryError<'a>|
                registry_error(stable_display_order(registrations@), registrations@.len()) == Some(f)
                    && e == showcase_error(f),
        },
{
    let ghost regs = registrations@;
    match build_registry(registrations) {
        Ok(v) => {
            assert(v@.len() == regs.len()) by {
                broadcast use vstd::seq_lib::group_to_multiset_ensures;
                assert(v@.to_multiset().len() == regs.to_multiset().len());
            }
            Ok(())
        },
        Err(e) => Err(e),
    }
}

/// The registry build that benchmarks measure; the same as `build_registry`.
pub fn build_registry_for_benchmark<'a, R>(registrations: Vec<&'a Showcase<'a, R>>) -> (r: Result<
    Vec<&'a Showcase<'a, R>>,
    RegistryError<'a>,
>)
    ensures
        r is Ok <==> registry_is_valid(registrations@),
        match r {
            Ok(v) => v@ == stable_display_order(registrations@) && is_display_order_of(v@, registrations@)
                && registry_error(v@, v@.len()) is None,
            Err(e) => exists|f: crate::stories::RegistryError<'a>|
                registry_error(stable_display_order(registrations@), registrations@.len()) == Some(f)
                    && e == showcase_error(f),
        },
{
    build_registry(registrations)
}

/// The human-readable description of a showcase registry failure.
pub open spec fn error_message<'a>(error: RegistryError<'a>) -> Seq<char> {
    match error {
        RegistryError::DuplicateShowcaseId { id } => "duplicate showcase ID `"@ + id@ + "`"@,
        RegistryError::DuplicatePreviewId { showcase_id, preview_id } => "duplicate preview ID `"@
            + preview_id@ + "` in showcase `"@ + showcase_id@ + "`"@,
        RegistryError::ShowcaseWithoutPreviews { showcase_id } => "showcase `"@ + showcase_id@
            + "` has no routed previews"@,
    }
}

impl<'a> RegistryError<'a> {
    /// The human-readable description of this failure.
    pub fn message(&self) -> (r: String)
        ensures
            r@ == error_message(*self),
    {
        match *self {
            RegistryError::DuplicateShowcaseId { id } => {
                let mut text = "duplicate showcase ID `".to_owned();
                append_text(&mut text, id);
                append_text(&mut text, "`");
                text
            },
            RegistryError::DuplicatePreviewId { showcase_id, preview_id } => {
                let mut text = "duplicate preview ID `".to_owned();
                append_text(&mut text, preview_id);
                append_text(&mut text, "` in showcase `");
                append_text(&mut text, showcase_id);
                append_text(&mut text, "`");
                text
            },
            RegistryError::ShowcaseWithoutPreviews { showcase_id } => {
                let mut text = "showcase `".to_owned();
                append_text(&mut text, showcase_id);
                append_text(&mut text, "` has no routed previews");
                text
            },
        }
    }
}

} // verus!
