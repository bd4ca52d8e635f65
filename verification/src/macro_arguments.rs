//! The rules of the catalog attributes' arguments and story lists: which `key = value`
//! arguments a story or story-set attribute accepts, and which story lists a story-set
//! declaration accepts. Problems are collected in the order they are found, as the
//! attributes report them all at once.
use vstd::prelude::*;
use crate::naming::{invalid_id_message, invalid_name_message, is_canonical_id, is_valid_name, validate_id, validate_name};
use crate::project::texts;
use crate::text::{append_text, chars_of, same_text, string_from_range};

verus! {

/// The value of a `key = value` argument, as far as the rules read it.
#[derive(Clone, Debug, PartialEq, Eq)]
pub enum ArgumentValue {
    /// A string literal.
    Text(String),
    /// A path; the identifier when the path is a single one.
    Path(Option<String>),
    /// Any other expression.
    Other,
}

/// One argument of a catalog attribute.
#[derive(Clone, Debug, PartialEq, Eq)]
pub enum MacroArgument {
    /// `key = value`; the key when its path is a single identifier.
    KeyValue { key: Option<String>, value: ArgumentValue },
    /// Any other form.
    Other,
}

/// The key of an argument is the single identifier `name`.
pub open spec fn key_is(key: Option<String>, name: Seq<char>) -> bool {
    match key {
        Some(k) => k@ == name,
        None => false,
    }
}

fn key_matches(key: &Option<String>, name: &str) -> (r: bool)
    ensures
        r == key_is(*key, name@),
{
    match key {
        Some(k) => same_text(k.as_str(), name),
        None => false,
    }
}

/// The text of an optional string.
pub open spec fn opt_text(o: Option<String>) -> Option<Seq<char>> {
    match o {
        Some(s) => Some(s@),
        None => None,
    }
}

/// The identifier and display name read so far, and the problems found.
pub type MetadataView = (Option<Seq<char>>, Option<Seq<char>>, Seq<Seq<char>>);

/// Reading an `id` or `name` argument: a repeat is reported, a string literal is taken,
/// anything else is reported.
pub open spec fn metadata_step(state: MetadataView, field: Seq<char>, value: ArgumentValue) -> MetadataView {
    let current = if field == "id"@ { state.0 } else { state.1 };
    let (next, errors) = if current is Some {
        (current, state.2.push("duplicate `"@ + field + "` argument"@))
    } else {
        match value {
            ArgumentValue::Text(t) => (Some(t@), state.2),
            _ => (current, state.2.push("`"@ + field + "` must be a string literal"@)),
        }
    };
    if field == "id"@ {
        (next, state.1, errors)
    } else {
        (state.0, next, errors)
    }
}

/// Reading the arguments of a story or preview attribute of the given `kind`.
pub open spec fn item_arguments_view(arguments: Seq<MacroArgument>, kind: Seq<char>) -> MetadataView
    decreases arguments.len(),
{
    if arguments.len() == 0 {
        (None, None, seq![])
    } else {
        let state = item_arguments_view(arguments.drop_last(), kind);
        match arguments.last() {
            MacroArgument::Other => (state.0, state.1, state.2.push(kind + " arguments must use `key = value` syntax"@)),
            MacroArgument::KeyValue { key, value } => if key_is(key, "id"@) {
                metadata_step(state, "id"@, value)
            } else if key_is(key, "name"@) {
                metadata_step(state, "name"@, value)
            } else {
                (state.0, state.1, state.2.push("unknown "@ + kind + " argument"@))
            },
        }
    }
}

/// The problems of a given identifier and name: a non-canonical identifier, a padded or
/// empty name.
pub open spec fn metadata_problems(id: Option<Seq<char>>, name: Option<Seq<char>>, kind: Seq<char>) -> Seq<Seq<char>> {
    let with_id = match id {
        Some(i) => if is_canonical_id(i) { seq![] } else { seq![invalid_id_message(kind)] },
        None => seq![],
    };
    match name {
        Some(n) => if is_valid_name(n) { with_id } else { with_id.push(invalid_name_message(kind)) },
        None => with_id,
    }
}

fn push_message(errors: &mut Vec<String>, message: String)
    ensures
        texts(final(errors)@) == texts(old(errors)@).push(message@),
{
    errors.push(message);
    assert(texts(errors@) == texts(old(errors)@).push(message@));
}

fn read_metadata(id: &mut Option<String>, name: &mut Option<String>, errors: &mut Vec<String>, is_id: bool, value: &ArgumentValue)
    ensures
        (opt_text(*final(id)), opt_text(*final(name)), texts(final(errors)@)) == metadata_step(
            (opt_text(*old(id)), opt_text(*old(name)), texts(old(errors)@)),
            if is_id { "id"@ } else { "name"@ },
            *value,
        ),
{
    proof {
        reveal_strlit("id");
        reveal_strlit("name");
    }
    let field = if is_id { "id" } else { "name" };
    let present = if is_id { id.is_some() } else { name.is_some() };
    if present {
        let mut message = "duplicate `".to_owned();
        append_text(&mut message, field);
        append_text(&mut message, "` argument");
        push_message(errors, message);
        return;
    }
    match value {
        ArgumentValue::Text(t) => {
            if is_id {
                *id = Some(t.clone());
            } else {
                *name = Some(t.clone());
            }
        },
        _ => {
            let mut message = "`".to_owned();
            append_text(&mut message, field);
            append_text(&mut message, "` must be a string literal");
            push_message(errors, message);
        },
    }
}

fn metadata_validation(id: &Option<String>, name: &Option<String>, kind: &str, errors: &mut Vec<String>)
    ensures
        texts(final(errors)@) == texts(old(errors)@) + metadata_problems(opt_text(*id), opt_text(*name), kind@),
{
    let ghost start = texts(errors@);
    match id {
        Some(i) => match validate_id(i.as_str(), kind) {
            Ok(()) => {},
            Err(message) => push_message(errors, message),
        },
        None => {},
    }
    assert(texts(errors@) == start + match opt_text(*id) {
        Some(i) => if is_canonical_id(i) { seq![] } else { seq![invalid_id_message(kind@)] },
        None => seq![],
    });
    match name {
        Some(n) => match validate_name(n.as_str(), kind) {
            Ok(()) => {},
            Err(message) => push_message(errors, message),
        },
        None => {},
    }
}

/// What a story or preview attribute sets: its identifier and display name, each unless
/// derived from the function.
#[derive(Clone, Debug, PartialEq, Eq)]
pub struct ItemArguments {
    pub id: Option<String>,
    pub name: Option<String>,
}

/// Reads the arguments of a story or preview attribute (`kind` names it in messages): the
/// identifier and display name, or every problem found, in order.
pub fn item_arguments(arguments: &Vec<MacroArgument>, kind: &str) -> (r: Result<ItemArguments, Vec<String>>)
    ensures
        ({
            let view = item_arguments_view(arguments@, kind@);
            let problems = view.2 + metadata_problems(view.0, view.1, kind@);
            match r {
                Ok(read) => problems.len() == 0 && opt_text(read.id) == view.0 && opt_text(read.name) == view.1,
                Err(errors) => problems.len() > 0 && texts(errors@) == problems,
            }
        }),
{
    let mut id: Option<String> = None;
    let mut name: Option<String> = None;
    let mut errors: Vec<String> = Vec::new();
    let mut i: usize = 0;
    while i < arguments.len()
        invariant
            i <= arguments@.len(),
            (opt_text(id), opt_text(name), texts(errors@)) == item_arguments_view(arguments@.take(i as int), kind@),
        decreases arguments@.len() - i,
    {
        assert(arguments@.take(i + 1).drop_last() == arguments@.take(i as int));
        assert(arguments@.take(i + 1).last() == arguments@[i as int]);
        match &arguments[i] {
            MacroArgument::Other => {
                let mut message = kind.to_owned();
                append_text(&mut message, " arguments must use `key = value` syntax");
                push_message(&mut errors, message);
            },
            MacroArgument::KeyValue { key, value } => {
                if key_matches(key, "id") {
                    read_metadata(&mut id, &mut name, &mut errors, true, value);
                } else if key_matches(key, "name") {
                    read_metadata(&mut id, &mut name, &mut errors, false, value);
                } else {
                    let mut message = "unknown ".to_owned();
                    append_text(&mut message, kind);
                    append_text(&mut message, " argument");
                    push_message(&mut errors, message);
                }
            },
        }
        i += 1;
    }
    assert(arguments@.take(arguments@.len() as int) == arguments@);
    metadata_validation(&id, &name, kind, &mut errors);
    if errors.len() > 0 {
        return Err(errors);
    }
    Ok(ItemArguments { id, name })
}

// ----- Story-set arguments -----

/// What a story-set attribute has read so far: the identifier and name, the position of the
/// `extra_docs` argument, the thumbnail story, and the problems found.
pub type SetArgumentsView = (Option<Seq<char>>, Option<Seq<char>>, Option<int>, Option<Seq<char>>, Seq<Seq<char>>);

/// Reading one argument of a story-set attribute of the given `kind`, at position `i`, whose
/// stories are called `item`s.
pub open spec fn set_argument_step(
    state: SetArgumentsView,
    i: int,
    argument: MacroArgument,
    kind: Seq<char>,
    item: Seq<char>,
) -> SetArgumentsView {
    match argument {
        MacroArgument::Other => (state.0, state.1, state.2, state.3, state.4.push(kind + " arguments must use `key = value` syntax"@)),
        MacroArgument::KeyValue { key, value } => if key_is(key, "id"@) || key_is(key, "name"@) {
            let m = metadata_step((state.0, state.1, state.4), if key_is(key, "id"@) { "id"@ } else { "name"@ }, value);
            (m.0, m.1, state.2, state.3, m.2)
        } else if key_is(key, "extra_docs"@) {
            if state.2 is Some {
                (state.0, state.1, state.2, state.3, state.4.push("duplicate `extra_docs` argument"@))
            } else {
                match value {
                    ArgumentValue::Path(_) => (state.0, state.1, Some(i), state.3, state.4),
                    _ => (state.0, state.1, state.2, state.3, state.4.push("`extra_docs` must be a path to a `&'static str` constant"@)),
                }
            }
        } else if key_is(key, "thumbnail"@) {
            if state.3 is Some {
                (state.0, state.1, state.2, state.3, state.4.push("duplicate `thumbnail` argument"@))
            } else {
                match value {
                    ArgumentValue::Path(Some(ident)) => (state.0, state.1, state.2, Some(ident@), state.4),
                    _ => (state.0, state.1, state.2, state.3, state.4.push("`thumbnail` must be an unqualified "@ + item + " function name"@)),
                }
            }
        } else {
            (state.0, state.1, state.2, state.3, state.4.push("unknown "@ + kind + " argument"@))
        },
    }
}

/// Reading the arguments of a story-set attribute.
pub open spec fn set_arguments_view(arguments: Seq<MacroArgument>, kind: Seq<char>, item: Seq<char>) -> SetArgumentsView
    decreases arguments.len(),
{
    if arguments.len() == 0 {
        (None, None, None, None, seq![])
    } else {
        set_argument_step(
            set_arguments_view(arguments.drop_last(), kind, item),
            arguments.len() - 1,
            arguments.last(),
            kind,
            item,
        )
    }
}

/// The problems found once all arguments are read: a missing identifier or name, then
/// the checks of those given.
pub open spec fn set_finish_problems(view: SetArgumentsView, kind: Seq<char>) -> Seq<Seq<char>> {
    let missing_id = if view.0 is None { seq![kind + " requires the `id` argument"@] } else { seq![] };
    let missing_name = if view.1 is None { missing_id.push(kind + " requires the `name` argument"@) } else { missing_id };
    missing_name + metadata_problems(view.0, view.1, kind)
}

/// What a story-set attribute sets: its identifier and display name, the position of the
/// argument naming extra documentation, and the thumbnail story.
#[derive(Clone, Debug, PartialEq, Eq)]
pub struct SetArguments {
    pub id: String,
    pub name: String,
    pub extra_docs: Option<usize>,
    pub thumbnail: Option<String>,
}

fn required_message(kind: &str, is_id: bool) -> (r: String)
    ensures
        r@ == kind@ + if is_id { " requires the `id` argument"@ } else { " requires the `name` argument"@ },
{
    let mut message = kind.to_owned();
    if is_id {
        append_text(&mut message, " requires the `id` argument");
    } else {
        append_text(&mut message, " requires the `name` argument");
    }
    message
}

/// Reads the arguments of a story-set or showcase attribute (`kind` names it in messages,
/// `item` names its stories): the settings, or every problem found, in order.
pub fn set_arguments(arguments: &Vec<MacroArgument>, kind: &str, item: &str) -> (r: Result<SetArguments, Vec<String>>)
    ensures
        ({
            let view = set_arguments_view(arguments@, kind@, item@);
            let problems = view.4 + set_finish_problems(view, kind@);
            match r {
                Ok(read) => problems.len() == 0 && Some(read.id@) == view.0 && Some(read.name@) == view.1
                    && match read.extra_docs {
                    Some(k) => view.2 == Some(k as int),
                    None => view.2 is None,
                } && opt_text(read.thumbnail) == view.3,
                Err(errors) => problems.len() > 0 && texts(errors@) == problems,
            }
        }),
{
    let mut id: Option<String> = None;
    let mut name: Option<String> = None;
    let mut extra_docs: Option<usize> = None;
    let mut thumbnail: Option<String> = None;
    let mut errors: Vec<String> = Vec::new();
    let mut i: usize = 0;
    proof {
        reveal_strlit("id");
        reveal_strlit("name");
    }
    while i < arguments.len()
        invariant
            i <= arguments@.len(),
            ({
                let view = set_arguments_view(arguments@.take(i as int), kind@, item@);
                &&& opt_text(id) == view.0
                &&& opt_text(name) == view.1
                &&& match extra_docs {
                    Some(k) => view.2 == Some(k as int),
                    None => view.2 is None,
                }
                &&& opt_text(thumbnail) == view.3
                &&& texts(errors@) == view.4
            }),
        decreases arguments@.len() - i,
    {
        assert(arguments@.take(i + 1).drop_last() == arguments@.take(i as int));
        assert(arguments@.take(i + 1).last() == arguments@[i as int]);
        match &arguments[i] {
            MacroArgument::Other => {
                let mut message = kind.to_owned();
                append_text(&mut message, " arguments must use `key = value` syntax");
                push_message(&mut errors, message);
            },
            MacroArgument::KeyValue { key, value } => {
                if key_matches(key, "id") {
                    read_metadata(&mut id, &mut name, &mut errors, true, value);
                } else if key_matches(key, "name") {
                    read_metadata(&mut id, &mut name, &mut errors, false, value);
                } else if key_matches(key, "extra_docs") {
                    if extra_docs.is_some() {
                        push_message(&mut errors, "duplicate `extra_docs` argument".to_owned());
                    } else {
                        match value {
                            ArgumentValue::Path(_) => {
                                extra_docs = Some(i);
                            },
                            _ => push_message(&mut errors, "`extra_docs` must be a path to a `&'static str` constant".to_owned()),
                        }
                    }
                } else if key_matches(key, "thumbnail") {
                    if thumbnail.is_some() {
                        push_message(&mut errors, "duplicate `thumbnail` argument".to_owned());
                    } else {
                        match value {
                            ArgumentValue::Path(Some(ident)) => {
                                thumbnail = Some(ident.clone());
                            },
                            _ => {
                                let mut message = "`thumbnail` must be an unqualified ".to_owned();
                                append_text(&mut message, item);
                                append_text(&mut message, " function name");
                                push_message(&mut errors, message);
                            },
                        }
                    }
                } else {
                    let mut message = "unknown ".to_owned();
                    append_text(&mut message, kind);
                    append_text(&mut message, " argument");
                    push_message(&mut errors, message);
                }
            },
        }
        i += 1;
    }
    assert(arguments@.take(arguments@.len() as int) == arguments@);
    if id.is_none() {
        push_message(&mut errors, required_message(kind, true));
    }
    if name.is_none() {
        push_message(&mut errors, required_message(kind, false));
    }
    metadata_validation(&id, &name, kind, &mut errors);
    if errors.len() > 0 {
        return Err(errors);
    }
    match (id, name) {
        (Some(id), Some(name)) => Ok(SetArguments { id, name, extra_docs, thumbnail }),
        _ => Err(errors),
    }
}

// ----- Story lists -----

/// One entry of a story-set declaration's list.
#[derive(Clone, Debug, PartialEq, Eq)]
pub enum StoryEntry {
    /// A single identifier, as written (perhaps raw, `r#name`).
    Name(String),
    /// A path of several segments.
    Qualified,
    /// Any other expression.
    Other,
}

/// An identifier without its raw prefix `r#`.
pub open spec fn unraw(name: Seq<char>) -> Seq<char> {
    if name.len() >= 2 && name[0] == 'r' && name[1] == '#' {
        name.skip(2)
    } else {
        name
    }
}

/// An identifier without its raw prefix.
pub fn unraw_name(name: &str) -> (r: String)
    ensures
        r@ == unraw(name@),
{
    let chars = chars_of(name);
    if chars.len() >= 2 && chars[0] == 'r' && chars[1] == '#' {
        string_from_range(&chars, 2, chars.len())
    } else {
        assert(chars@.subrange(0, chars@.len() as int) == chars@);
        string_from_range(&chars, 0, chars.len())
    }
}

/// The canonical names seen, and the problems found, reading the first entries of a list.
pub open spec fn story_list_view(entries: Seq<StoryEntry>, item: Seq<char>, kind: Seq<char>) -> (Seq<Seq<char>>, Seq<Seq<char>>)
    decreases entries.len(),
{
    if entries.len() == 0 {
        (seq![], seq![])
    } else {
        let (seen, errors) = story_list_view(entries.drop_last(), item, kind);
        match entries.last() {
            StoryEntry::Other => (seen, errors.push("expected a "@ + item + " function name"@)),
            StoryEntry::Qualified => (seen, errors.push(item + " function names must be unqualified identifiers"@)),
            StoryEntry::Name(name) => {
                let canonical = unraw(name@);
                if seen.contains(canonical) {
                    (seen, errors.push("duplicate "@ + item + " `"@ + canonical + "` in `#["@ + kind + "]` declaration"@))
                } else {
                    (seen.push(canonical), errors)
                }
            },
        }
    }
}

/// The problems of a declaration's list: an empty list, then each entry that is no
/// identifier, is qualified, or repeats an earlier one.
pub open spec fn story_list_problems(entries: Seq<StoryEntry>, item: Seq<char>, kind: Seq<char>) -> Seq<Seq<char>> {
    let empty = if entries.len() == 0 { seq![kind + " must contain at least one "@ + item] } else { seq![] };
    empty + story_list_view(entries, item, kind).1
}

fn holds(seen: &Vec<String>, name: &str) -> (r: bool)
    ensures
        r == texts(seen@).contains(name@),
{
    let mut i: usize = 0;
    while i < seen.len()
        invariant
            i <= seen@.len(),
            forall|j: int| 0 <= j < i ==> texts(seen@)[j] != name@,
        decreases seen@.len() - i,
    {
        if same_text(seen[i].as_str(), name) {
            assert(texts(seen@)[i as int] == name@);
            return true;
        }
        i += 1;
    }
    false
}

/// Checks the list of a story-set declaration (`kind` is the attribute, `item` its
/// stories): every problem found, in order, or none.
pub fn check_story_list(entries: &Vec<StoryEntry>, item: &str, kind: &str) -> (r: Result<(), Vec<String>>)
    ensures
        match r {
            Ok(()) => story_list_problems(entries@, item@, kind@).len() == 0,
            Err(errors) => story_list_problems(entries@, item@, kind@).len() > 0 && texts(errors@)
                == story_list_problems(entries@, item@, kind@),
        },
{
    let mut errors: Vec<String> = Vec::new();
    if entries.len() == 0 {
        let mut message = kind.to_owned();
        append_text(&mut message, " must contain at least one ");
        append_text(&mut message, item);
        push_message(&mut errors, message);
    }
    let ghost start = texts(errors@);
    let mut seen: Vec<String> = Vec::new();
    let mut i: usize = 0;
    while i < entries.len()
        invariant
            i <= entries@.len(),
            start == (if entries@.len() == 0 { seq![kind@ + " must contain at least one "@ + item@] } else { seq![] }),
            (texts(seen@), texts(errors@)) == (story_list_view(entries@.take(i as int), item@, kind@).0, start + story_list_view(entries@.take(i as int), item@, kind@).1),
        decreases entries@.len() - i,
    {
        assert(entries@.take(i + 1).drop_last() == entries@.take(i as int));
        assert(entries@.take(i + 1).last() == entries@[i as int]);
        match &entries[i] {
            StoryEntry::Other => {
                let mut message = "expected a ".to_owned();
                append_text(&mut message, item);
                append_text(&mut message, " function name");
                push_message(&mut errors, message);
            },
            StoryEntry::Qualified => {
                let mut message = item.to_owned();
                append_text(&mut message, " function names must be unqualified identifiers");
                push_message(&mut errors, message);
            },
            StoryEntry::Name(name) => {
                let canonical = unraw_name(name.as_str());
                if holds(&seen, canonical.as_str()) {
                    let mut message = "duplicate ".to_owned();
                    append_text(&mut message, item);
                    append_text(&mut message, " `");
                    append_text(&mut message, canonical.as_str());
                    append_text(&mut message, "` in `#[");
                    append_text(&mut message, kind);
                    append_text(&mut message, "]` declaration");
                    push_message(&mut errors, message);
                } else {
                    push_message(&mut seen, canonical);
                }
            },
        }
        i += 1;
    }
    assert(entries@.take(entries@.len() as int) == entries@);
    if errors.len() > 0 {
        return Err(errors);
    }
    Ok(())
}

} // verus!
