//! Markdown descriptions: plain-text card summaries, and the sanitization that keeps raw
//! HTML and active link schemes out of rendered documentation.
//!
//! Parsing and HTML rendering are pulldown-cmark's; this module decides what the parsed
//! events become.
use vstd::prelude::*;
use pulldown_cmark::{html, CowStr, Event, LinkType, Options, Parser, Tag, TagEnd};
use crate::text::{is_whitespace, is_whitespace_char, push_char, string_from_chars};

verus! {

#[verifier::external_type_specification]
#[verifier::external_body]
pub struct ExEvent<'a>(Event<'a>);

#[verifier::external_type_specification]
#[verifier::external_body]
pub struct ExTag<'a>(Tag<'a>);

#[verifier::external_type_specification]
#[verifier::external_body]
pub struct ExTagEnd(TagEnd);

#[verifier::external_type_specification]
#[verifier::external_body]
pub struct ExLinkType(LinkType);

#[verifier::external_type_specification]
#[verifier::external_body]
pub struct ExCowStr<'a>(CowStr<'a>);

/// The target of a link or image: its kind, destination, title and reference identifier.
pub struct LinkTarget {
    pub link_type: LinkType,
    pub destination: String,
    pub title: CowStr<'static>,
    pub id: CowStr<'static>,
}

/// The start of a tagged element: links and images, whose destinations sanitization reads,
/// and every other tag as pulldown-cmark gives it.
pub enum MarkdownTag {
    /// A link.
    Link(LinkTarget),
    /// An image.
    Image(LinkTarget),
    /// Any other tag (paragraph, heading, list, table, emphasis, ...).
    Other(Tag<'static>),
}

/// The end of a tagged element: paragraph ends, which summaries read, and every other end.
pub enum MarkdownTagEnd {
    /// The end of a paragraph.
    Paragraph,
    /// The end of any other element.
    Other(TagEnd),
}

/// A parsed Markdown event: one variant for each variant of pulldown-cmark's `Event`.
pub enum MarkdownEvent {
    /// The start of a tagged element.
    Start(MarkdownTag),
    /// The end of a tagged element.
    End(MarkdownTagEnd),
    /// A text node.
    Text(String),
    /// An inline code node.
    Code(String),
    /// An inline math node.
    InlineMath(CowStr<'static>),
    /// A display math node.
    DisplayMath(CowStr<'static>),
    /// A line of a raw HTML block.
    Html(String),
    /// An inline raw HTML node.
    InlineHtml(String),
    /// A footnote reference.
    FootnoteReference(CowStr<'static>),
    /// A soft line break.
    SoftBreak,
    /// A hard line break.
    HardBreak,
    /// A horizontal rule.
    Rule,
    /// A task list marker, checked or not.
    TaskListMarker(bool),
}

/// The events pulldown-cmark reads from a Markdown source with every extension enabled.
pub uninterp spec fn markdown_events(source: Seq<char>) -> Seq<MarkdownEvent>;

/// One pulldown-cmark event as a `MarkdownEvent`, variant for variant: text that summaries
/// or sanitization read taken as an owned string, other text kept as pulldown-cmark's.
#[verifier::external_body]
fn markdown_event(event: Event<'_>) -> MarkdownEvent {
    match event {
        Event::Start(t) => MarkdownEvent::Start(markdown_tag(t)),
        Event::End(t) => MarkdownEvent::End(markdown_tag_end(t)),
        Event::Text(v) => MarkdownEvent::Text(owned(v)),
        Event::Code(v) => MarkdownEvent::Code(owned(v)),
        Event::InlineMath(v) => MarkdownEvent::InlineMath(v.into_static()),
        Event::DisplayMath(v) => MarkdownEvent::DisplayMath(v.into_static()),
        Event::Html(v) => MarkdownEvent::Html(owned(v)),
        Event::InlineHtml(v) => MarkdownEvent::InlineHtml(owned(v)),
        Event::FootnoteReference(v) => MarkdownEvent::FootnoteReference(v.into_static()),
        Event::SoftBreak => MarkdownEvent::SoftBreak,
        Event::HardBreak => MarkdownEvent::HardBreak,
        Event::Rule => MarkdownEvent::Rule,
        Event::TaskListMarker(b) => MarkdownEvent::TaskListMarker(b),
    }
}

/// A pulldown-cmark tag as a `MarkdownTag`: link and image tags by their parts, any other
/// tag moved unchanged.
#[verifier::external_body]
fn markdown_tag(tag: Tag<'_>) -> MarkdownTag {
    match tag {
        Tag::Link { link_type, dest_url, title, id } => MarkdownTag::Link(link_target(link_type, dest_url, title, id)),
        Tag::Image { link_type, dest_url, title, id } => MarkdownTag::Image(link_target(link_type, dest_url, title, id)),
        other => MarkdownTag::Other(other.into_static()),
    }
}

/// A pulldown-cmark tag end as a `MarkdownTagEnd`: a paragraph end, or any other end moved
/// unchanged.
#[verifier::external_body]
fn markdown_tag_end(end: TagEnd) -> MarkdownTagEnd {
    match end {
        TagEnd::Paragraph => MarkdownTagEnd::Paragraph,
        other => MarkdownTagEnd::Other(other),
    }
}

/// A pulldown-cmark string as an owned `String` (`CowStr::into_string`).
#[verifier::external_body]
fn owned(text: CowStr<'_>) -> String {
    text.into_string()
}

/// The parts of a pulldown-cmark link or image tag as a `LinkTarget`.
#[verifier::external_body]
fn link_target(link_type: LinkType, destination: CowStr<'_>, title: CowStr<'_>, id: CowStr<'_>) -> LinkTarget {
    LinkTarget { link_type, destination: destination.into_string(), title: title.into_static(), id: id.into_static() }
}

/// `pulldown_cmark::Parser::new_ext(source, Options::all())`: the events of the source, each
/// converted variant for variant into a `MarkdownEvent`; the result is named `markdown_events`.
#[verifier::external_body]
fn parse_markdown(source: &str) -> (r: Vec<MarkdownEvent>)
    ensures
        r@ == markdown_events(source@),
{
    Parser::new_ext(source, Options::all()).map(markdown_event).collect()
}

/// A `MarkdownEvent` back as the pulldown-cmark event it stands for.
#[verifier::external_body]
fn pulldown_event(event: MarkdownEvent) -> Event<'static> {
    match event {
        MarkdownEvent::Start(t) => Event::Start(pulldown_tag(t)),
        MarkdownEvent::End(t) => Event::End(pulldown_tag_end(t)),
        MarkdownEvent::Text(v) => Event::Text(v.into()),
        MarkdownEvent::Code(v) => Event::Code(v.into()),
        MarkdownEvent::InlineMath(v) => Event::InlineMath(v),
        MarkdownEvent::DisplayMath(v) => Event::DisplayMath(v),
        MarkdownEvent::Html(v) => Event::Html(v.into()),
        MarkdownEvent::InlineHtml(v) => Event::InlineHtml(v.into()),
        MarkdownEvent::FootnoteReference(v) => Event::FootnoteReference(v),
        MarkdownEvent::SoftBreak => Event::SoftBreak,
        MarkdownEvent::HardBreak => Event::HardBreak,
        MarkdownEvent::Rule => Event::Rule,
        MarkdownEvent::TaskListMarker(b) => Event::TaskListMarker(b),
    }
}

/// A `MarkdownTagEnd` back as the pulldown-cmark tag end it stands for.
#[verifier::external_body]
fn pulldown_tag_end(end: MarkdownTagEnd) -> TagEnd {
    match end {
        MarkdownTagEnd::Paragraph => TagEnd::Paragraph,
        MarkdownTagEnd::Other(t) => t,
    }
}

/// A `MarkdownTag` back as the pulldown-cmark tag it stands for.
#[verifier::external_body]
fn pulldown_tag(tag: MarkdownTag) -> Tag<'static> {
    match tag {
        MarkdownTag::Link(t) => Tag::Link { link_type: t.link_type, dest_url: t.destination.into(), title: t.title, id: t.id },
        MarkdownTag::Image(t) => Tag::Image { link_type: t.link_type, dest_url: t.destination.into(), title: t.title, id: t.id },
        MarkdownTag::Other(t) => t,
    }
}

/// The HTML that pulldown-cmark writes for a sequence of events.
pub uninterp spec fn html_of(events: Seq<MarkdownEvent>) -> Seq<char>;

/// `pulldown_cmark::html::push_html` into an empty string: the HTML of the events, each
/// converted back one for one into a pulldown-cmark event; the result is named `html_of`.
#[verifier::external_body]
fn render_html(events: Vec<MarkdownEvent>) -> (r: String)
    ensures
        r@ == html_of(events@),
{
    let mut output = String::new();
    html::push_html(&mut output, events.into_iter().map(pulldown_event));
    output
}

// ----- Summaries -----

/// Appends a text fragment to a summary, separating it from a preceding word by a space.
pub open spec fn append_fragment(summary: Seq<char>, value: Seq<char>) -> Seq<char> {
    if summary.len() > 0 && !is_whitespace_char(summary.last()) {
        summary.push(' ') + value
    } else {
        summary + value
    }
}

/// A soft or hard line break, or the end of a paragraph: what a summary reads as a space.
pub open spec fn is_break(event: MarkdownEvent) -> bool {
    ||| event is SoftBreak
    ||| event is HardBreak
    ||| event matches MarkdownEvent::End(MarkdownTagEnd::Paragraph)
}

/// The plain text of the events: text and code fragments, with a space for every line
/// break and paragraph end; everything else is dropped.
pub open spec fn summary_text(events: Seq<MarkdownEvent>) -> Seq<char>
    decreases events.len(),
{
    if events.len() == 0 {
        seq![]
    } else {
        let previous = summary_text(events.drop_last());
        match events.last() {
            MarkdownEvent::Text(v) => append_fragment(previous, v@),
            MarkdownEvent::Code(v) => append_fragment(previous, v@),
            _ => if is_break(events.last()) {
                previous.push(' ')
            } else {
                previous
            },
        }
    }
}

/// Collapses white space in `s` onto `collapsed`: words (maximal runs of non-white-space
/// characters) are kept, separated by single spaces; `gap` records white space seen since
/// the last word.
pub open spec fn collapse_onto(s: Seq<char>, collapsed: Seq<char>, gap: bool) -> Seq<char>
    decreases s.len(),
{
    if s.len() == 0 {
        collapsed
    } else if is_whitespace_char(s[0]) {
        collapse_onto(s.drop_first(), collapsed, collapsed.len() > 0)
    } else {
        let spaced = if gap {
            collapsed.push(' ')
        } else {
            collapsed
        };
        collapse_onto(s.drop_first(), spaced.push(s[0]), false)
    }
}

/// The words of `s` separated by single spaces, without leading or trailing white space
/// (`split_whitespace` joined by `" "`).
pub open spec fn collapse_whitespace(s: Seq<char>) -> Seq<char> {
    collapse_onto(s, seq![], false)
}

/// A text cut to at most `max` characters: when longer, its first `max - 3` characters
/// (none when `max < 3`) followed by three dots.
pub open spec fn bounded(text: Seq<char>, max: nat) -> Seq<char> {
    if text.len() <= max {
        text
    } else {
        let kept: nat = if max >= 3 {
            (max - 3) as nat
        } else {
            0
        };
        text.take(kept as int) + seq!['.', '.', '.']
    }
}

/// The card summary of parsed events.
pub open spec fn summary_of(events: Seq<MarkdownEvent>, max: nat) -> Seq<char> {
    bounded(collapse_whitespace(summary_text(events)), max)
}

fn append_summary_text(summary: &mut Vec<char>, value: &String)
    ensures
        final(summary)@ == append_fragment(old(summary)@, value@),
{
    let n = summary.len();
    if n > 0 && !is_whitespace(summary[n - 1]) {
        summary.push(' ');
    }
    let chars = crate::text::chars_of(value.as_str());
    let mut i: usize = 0;
    let ghost start = summary@;
    while i < chars.len()
        invariant
            i <= chars@.len(),
            summary@ == start + chars@.take(i as int),
        decreases chars@.len() - i,
    {
        summary.push(chars[i]);
        assert(chars@.take(i + 1) == chars@.take(i as int).push(chars@[i as int]));
        i += 1;
    }
    assert(chars@.take(chars@.len() as int) == chars@);
}

/// The plain text of parsed events.
pub fn summary_text_of(events: &Vec<MarkdownEvent>) -> (r: Vec<char>)
    ensures
        r@ == summary_text(events@),
{
    let mut text: Vec<char> = Vec::new();
    let mut i: usize = 0;
    while i < events.len()
        invariant
            i <= events@.len(),
            text@ == summary_text(events@.take(i as int)),
        decreases events@.len() - i,
    {
        assert(events@.take(i + 1).drop_last() == events@.take(i as int));
        match &events[i] {
            MarkdownEvent::Text(v) => append_summary_text(&mut text, v),
            MarkdownEvent::Code(v) => append_summary_text(&mut text, v),
            MarkdownEvent::SoftBreak | MarkdownEvent::HardBreak | MarkdownEvent::End(MarkdownTagEnd::Paragraph) => text.push(' '),
            _ => {},
        }
        i += 1;
    }
    assert(events@.take(events@.len() as int) == events@);
    text
}

/// The words of `s` separated by single spaces.
pub fn collapse(s: &Vec<char>) -> (r: Vec<char>)
    ensures
        r@ == collapse_whitespace(s@),
{
    let mut collapsed: Vec<char> = Vec::new();
    let mut gap = false;
    let mut i: usize = 0;
    assert(s@.skip(0) == s@);
    while i < s.len()
        invariant
            i <= s@.len(),
            collapse_whitespace(s@) == collapse_onto(s@.skip(i as int), collapsed@, gap),
        decreases s@.len() - i,
    {
        assert(s@.skip(i as int).drop_first() == s@.skip(i + 1));
        let c = s[i];
        if is_whitespace(c) {
            gap = collapsed.len() > 0;
        } else {
            if gap {
                collapsed.push(' ');
            }
            collapsed.push(c);
            gap = false;
        }
        i += 1;
    }
    collapsed
}

/// A text cut to at most `max` characters, ending in three dots when cut.
pub fn bound(text: Vec<char>, max: usize) -> (r: Vec<char>)
    ensures
        r@ == bounded(text@, max as nat),
{
    if text.len() <= max {
        return text;
    }
    let kept = if max >= 3 {
        max - 3
    } else {
        0
    };
    let mut r: Vec<char> = Vec::new();
    let mut i: usize = 0;
    while i < kept
        invariant
            kept < text@.len(),
            i <= kept,
            r@ == text@.take(i as int),
        decreases kept - i,
    {
        r.push(text[i]);
        assert(text@.take(i + 1) == text@.take(i as int).push(text@[i as int]));
        i += 1;
    }
    r.push('.');
    r.push('.');
    r.push('.');
    r
}

/// The card summary of parsed events: their plain text with white space collapsed, cut to
/// at most `character_count_max` characters.
pub fn summary_of_events(events: &Vec<MarkdownEvent>, character_count_max: usize) -> (r: String)
    ensures
        r@ == summary_of(events@, character_count_max as nat),
{
    let text = summary_text_of(events);
    let normalized = collapse(&text);
    string_from_chars(&bound(normalized, character_count_max))
}

/// The card summary of a Markdown source.
pub fn summary(source: &str, character_count_max: usize) -> (r: String)
    ensures
        r@ == summary_of(markdown_events(source@), character_count_max as nat),
{
    let events = parse_markdown(source);
    summary_of_events(&events, character_count_max)
}

// ----- Sanitization -----

/// ASCII control characters (what `char::is_ascii_control` tests).
pub open spec fn is_ascii_control_char(c: char) -> bool {
    (c as u32) < 0x20 || (c as u32) == 0x7f
}

/// ASCII white space: space, tab, line feed, form feed and carriage return (what
/// `char::is_ascii_whitespace` tests).
pub open spec fn is_ascii_whitespace_char(c: char) -> bool {
    let v = c as u32;
    v == 0x20 || v == 0x09 || v == 0x0a || v == 0x0c || v == 0x0d
}

/// The ASCII lower-case form of a character; other characters are unchanged (what
/// `char::to_ascii_lowercase` returns).
pub open spec fn ascii_lower(c: char) -> char {
    if 'A' <= c <= 'Z' {
        ((c as u32) + 32) as char
    } else {
        c
    }
}

/// A destination as the scheme check reads it: without ASCII control and white-space
/// characters, in ASCII lower case.
pub open spec fn normalized_destination(destination: Seq<char>) -> Seq<char>
    decreases destination.len(),
{
    if destination.len() == 0 {
        seq![]
    } else {
        let rest = normalized_destination(destination.drop_last());
        let c = destination.last();
        if is_ascii_control_char(c) || is_ascii_whitespace_char(c) {
            rest
        } else {
            rest.push(ascii_lower(c))
        }
    }
}

/// `prefix` begins `s`.
pub open spec fn has_prefix(s: Seq<char>, prefix: Seq<char>) -> bool {
    prefix.len() <= s.len() && s.take(prefix.len() as int) == prefix
}

/// A link or image destination may be kept: it starts with `http://`, `https://`,
/// `mailto:`, `#`, `/`, `./` or `../`, or has no scheme separator `:` at all.
pub open spec fn destination_is_safe(destination: Seq<char>) -> bool {
    let n = normalized_destination(destination);
    ||| has_prefix(n, "http://"@)
    ||| has_prefix(n, "https://"@)
    ||| has_prefix(n, "mailto:"@)
    ||| has_prefix(n, "#"@)
    ||| has_prefix(n, "/"@)
    ||| has_prefix(n, "./"@)
    ||| has_prefix(n, "../"@)
    ||| !n.contains(':')
}

/// The destination that the rendered link or image gets: the original when safe,
/// otherwise `#`.
pub open spec fn safe_destination_of(destination: Seq<char>) -> Seq<char> {
    if destination_is_safe(destination) {
        destination
    } else {
        "#"@
    }
}

fn ascii_lowercase(c: char) -> (r: char)
    ensures
        r == ascii_lower(c),
{
    if 'A' <= c && c <= 'Z' {
        let v = c as u32 + 32;
        assert(v <= 0x7a);
        (v as u8) as char
    } else {
        c
    }
}

fn normalize_destination(destination: &Vec<char>) -> (r: Vec<char>)
    ensures
        r@ == normalized_destination(destination@),
{
    let mut r: Vec<char> = Vec::new();
    let mut i: usize = 0;
    while i < destination.len()
        invariant
            i <= destination@.len(),
            r@ == normalized_destination(destination@.take(i as int)),
        decreases destination@.len() - i,
    {
        assert(destination@.take(i + 1).drop_last() == destination@.take(i as int));
        let c = destination[i];
        let v = c as u32;
        let control = v < 0x20 || v == 0x7f;
        let space = v == 0x20 || v == 0x09 || v == 0x0a || v == 0x0c || v == 0x0d;
        if !control && !space {
            r.push(ascii_lowercase(c));
        }
        i += 1;
    }
    assert(destination@.take(destination@.len() as int) == destination@);
    r
}

fn starts_with(s: &Vec<char>, prefix: &str) -> (r: bool)
    ensures
        r == has_prefix(s@, prefix@),
{
    let p = crate::text::chars_of(prefix);
    if p.len() > s.len() {
        return false;
    }
    let mut i: usize = 0;
    while i < p.len()
        invariant
            p@ == prefix@,
            p@.len() <= s@.len(),
            i <= p@.len(),
            s@.take(i as int) == p@.take(i as int),
        decreases p@.len() - i,
    {
        if s[i] != p[i] {
            assert(s@.take(p@.len() as int)[i as int] != p@[i as int]);
            return false;
        }
        assert(s@.take(i + 1) == s@.take(i as int).push(s@[i as int]));
        assert(p@.take(i + 1) == p@.take(i as int).push(p@[i as int]));
        i += 1;
    }
    assert(p@.take(p@.len() as int) == p@);
    true
}

fn has_colon(s: &Vec<char>) -> (r: bool)
    ensures
        r == s@.contains(':'),
{
    let mut i: usize = 0;
    while i < s.len()
        invariant
            i <= s@.len(),
            forall|m: int| 0 <= m < i ==> s@[m] != ':',
        decreases s@.len() - i,
    {
        if s[i] == ':' {
            assert(s@[i as int] == ':');
            return true;
        }
        i += 1;
    }
    false
}

/// Whether a link or image destination may be kept.
pub fn is_safe_destination(destination: &str) -> (r: bool)
    ensures
        r == destination_is_safe(destination@),
{
    let n = normalize_destination(&crate::text::chars_of(destination));
    starts_with(&n, "http://") || starts_with(&n, "https://") || starts_with(&n, "mailto:")
        || starts_with(&n, "#") || starts_with(&n, "/") || starts_with(&n, "./") || starts_with(
        &n,
        "../",
    ) || !has_colon(&n)
}

/// The destination a rendered link or image gets: the original when safe, otherwise `#`.
pub fn safe_destination(destination: String) -> (r: String)
    ensures
        r@ == safe_destination_of(destination@),
{
    if is_safe_destination(destination.as_str()) {
        destination
    } else {
        "#".to_owned()
    }
}

/// `after` is `before` with its destination made safe.
pub open spec fn is_safe_target_of(after: LinkTarget, before: LinkTarget) -> bool {
    &&& after.link_type == before.link_type
    &&& after.title == before.title
    &&& after.id == before.id
    &&& after.destination@ == safe_destination_of(before.destination@)
}

/// `after` is the sanitized form of `before`: raw HTML becomes text that shows its source,
/// link and image destinations are made safe, and every other event is unchanged.
pub open spec fn is_sanitized_of(after: MarkdownEvent, before: MarkdownEvent) -> bool {
    match before {
        MarkdownEvent::Html(v) => after matches MarkdownEvent::Text(w) && w@ == v@,
        MarkdownEvent::InlineHtml(v) => after matches MarkdownEvent::Text(w) && w@ == v@,
        MarkdownEvent::Start(MarkdownTag::Link(t)) => after matches MarkdownEvent::Start(MarkdownTag::Link(u))
            && is_safe_target_of(u, t),
        MarkdownEvent::Start(MarkdownTag::Image(t)) => after matches MarkdownEvent::Start(MarkdownTag::Image(u))
            && is_safe_target_of(u, t),
        _ => after == before,
    }
}

/// An event that rendering cannot turn into active content: no raw HTML, and link and
/// image destinations are safe.
pub open spec fn is_inert(event: MarkdownEvent) -> bool {
    match event {
        MarkdownEvent::Html(_) => false,
        MarkdownEvent::InlineHtml(_) => false,
        MarkdownEvent::Start(MarkdownTag::Link(t)) => destination_is_safe(t.destination@),
        MarkdownEvent::Start(MarkdownTag::Image(t)) => destination_is_safe(t.destination@),
        _ => true,
    }
}

/// A link or image target with its destination made safe.
fn safe_target(t: LinkTarget) -> (r: LinkTarget)
    ensures
        is_safe_target_of(r, t),
{
    LinkTarget { link_type: t.link_type, destination: safe_destination(t.destination), title: t.title, id: t.id }
}

/// The sanitized form of one event.
pub fn sanitize_event(event: MarkdownEvent) -> (r: MarkdownEvent)
    ensures
        is_sanitized_of(r, event),
{
    match event {
        MarkdownEvent::Html(v) => MarkdownEvent::Text(v),
        MarkdownEvent::InlineHtml(v) => MarkdownEvent::Text(v),
        MarkdownEvent::Start(MarkdownTag::Link(t)) => MarkdownEvent::Start(MarkdownTag::Link(safe_target(t))),
        MarkdownEvent::Start(MarkdownTag::Image(t)) => MarkdownEvent::Start(MarkdownTag::Image(safe_target(t))),
        other => other,
    }
}

/// The sanitized form of every event, in order.
pub fn sanitize_events(events: Vec<MarkdownEvent>) -> (r: Vec<MarkdownEvent>)
    ensures
        r@.len() == events@.len(),
        forall|i: int| 0 <= i < events@.len() ==> is_sanitized_of(#[trigger] r@[i], events@[i]),
{
    let mut events = events;
    let ghost original = events@;
    let mut reversed: Vec<MarkdownEvent> = Vec::new();
    while events.len() > 0
        invariant
            events@ == original.take(events@.len() as int),
            reversed@.len() + events@.len() == original.len(),
            forall|k: int| 0 <= k < reversed@.len() ==> is_sanitized_of(#[trigger] reversed@[k], original[original.len() - 1 - k]),
        decreases events@.len(),
    {
        let event = events.pop().unwrap();
        reversed.push(sanitize_event(event));
    }
    let mut r: Vec<MarkdownEvent> = Vec::new();
    let ghost sanitized_reversed = reversed@;
    while reversed.len() > 0
        invariant
            reversed@ == sanitized_reversed.take(reversed@.len() as int),
            sanitized_reversed.len() == original.len(),
            r@.len() + reversed@.len() == original.len(),
            forall|k: int| 0 <= k < sanitized_reversed.len() ==> is_sanitized_of(#[trigger] sanitized_reversed[k], original[original.len() - 1 - k]),
            forall|i: int| 0 <= i < r@.len() ==> is_sanitized_of(#[trigger] r@[i], original[i]),
        decreases reversed@.len(),
    {
        let event = reversed.pop().unwrap();
        proof {
            let k = reversed@.len() as int;
            assert(event == sanitized_reversed[k]);
            assert(original.len() - 1 - k == r@.len());
        }
        r.push(event);
    }
    r
}

/// Sanitization leaves nothing active: every sanitized event is inert.
pub proof fn lemma_sanitized_events_are_inert(after: MarkdownEvent, before: MarkdownEvent)
    requires
        is_sanitized_of(after, before),
    ensures
        is_inert(after),
{
    lemma_safe_destination_is_safe(match before {
        MarkdownEvent::Start(MarkdownTag::Link(t)) => t.destination@,
        MarkdownEvent::Start(MarkdownTag::Image(t)) => t.destination@,
        _ => seq![],
    });
}

/// The destination that sanitization keeps is itself safe, and a safe destination is kept
/// unchanged, so sanitizing twice changes nothing more.
pub proof fn lemma_safe_destination_is_safe(destination: Seq<char>)
    ensures
        destination_is_safe(safe_destination_of(destination)),
        safe_destination_of(safe_destination_of(destination)) == safe_destination_of(destination),
{
    reveal_strlit("#");
    let hash: Seq<char> = "#"@;
    assert(hash.drop_last().len() == 0);
    assert(normalized_destination(hash.drop_last()) == Seq::<char>::empty());
    assert(normalized_destination(hash) == hash);
    assert(has_prefix(normalized_destination(hash), "#"@)) by {
        assert(hash.take(1) == hash);
    }
}

/// Renders Markdown to HTML with raw HTML shown as text and unsafe link and image
/// destinations replaced by `#`: the HTML of the source's events, each sanitized.
pub fn render_safe_html(source: &str) -> (r: String)
    ensures
        exists|sanitized: Seq<MarkdownEvent>| {
            &&& sanitized.len() == markdown_events(source@).len()
            &&& forall|i: int| 0 <= i < sanitized.len() ==> is_sanitized_of(#[trigger] sanitized[i], markdown_events(source@)[i])
            &&& r@ == html_of(sanitized)
        },
{
    let events = sanitize_events(parse_markdown(source));
    let ghost sanitized = events@;
    let r = render_html(events);
    assert(r@ == html_of(sanitized));
    r
}

} // verus!
