use dx_story::markdown::{is_safe_destination, render_safe_html, safe_destination, summary};

#[test]
fn markdown_escapes_raw_html() {
    let rendered = render_safe_html("Hello <script>alert('no')</script>.");

    assert!(!rendered.contains("<script>"));
    assert!(rendered.contains("&lt;script&gt;"));
}

#[test]
fn markdown_rejects_active_link_schemes() {
    let rendered = render_safe_html("[unsafe](javascript:alert('no'))");

    assert!(!rendered.contains("javascript:"));
    assert!(rendered.contains("href=\"#\""));
}

#[test]
fn summary_removes_markdown_and_bounds_card_copy() {
    let rendered = summary("## Heading\n\nA **long** `description` for a card.", 24);

    assert_eq!(rendered, "Heading A long descri...");
}

#[test]
fn safe_links_are_kept() {
    let rendered = render_safe_html("[docs](https://example.com/docs) and [local](./guide.md)");
    assert!(rendered.contains("href=\"https://example.com/docs\""));
    assert!(rendered.contains("href=\"./guide.md\""));
}

#[test]
fn images_with_active_schemes_lose_their_source() {
    let rendered = render_safe_html("![x](data:text/html;base64,AAAA)");
    assert!(!rendered.contains("data:"));
    assert!(rendered.contains("src=\"#\""));
}

#[test]
fn destinations_are_judged_by_scheme() {
    assert!(is_safe_destination("https://example.com"));
    assert!(is_safe_destination("HTTP://EXAMPLE.COM"));
    assert!(is_safe_destination("mailto:someone@example.com"));
    assert!(is_safe_destination("#section"));
    assert!(is_safe_destination("/absolute"));
    assert!(is_safe_destination("../up"));
    assert!(is_safe_destination("relative/path"));
    assert!(!is_safe_destination("javascript:alert(1)"));
    assert!(!is_safe_destination("  JavaScript:alert(1)"));
    assert!(!is_safe_destination("vbscript:x"));
    assert_eq!(safe_destination("javascript:alert(1)".to_owned()), "#");
    assert_eq!(safe_destination("https://example.com".to_owned()), "https://example.com");
    let once = safe_destination("data:x".to_owned());
    assert_eq!(safe_destination(once.clone()), once);
}

#[test]
fn summaries_collapse_white_space_and_keep_short_text() {
    assert_eq!(summary("One\n\ntwo   three", 100), "One two three");
    assert_eq!(summary("", 10), "");
    assert_eq!(summary("Short", 5), "Short");
    assert_eq!(summary("Longer text", 5), "Lo...");
}

#[test]
fn block_and_inline_html_are_both_shown_as_text() {
    let block = render_safe_html("<div onclick=\"x()\">block</div>\n");
    assert!(!block.contains("<div"));
    assert!(block.contains("&lt;div onclick="));
    let inline = render_safe_html("Some <b>bold</b> words and <img src=x onerror=y>.");
    assert!(!inline.contains("<b>"));
    assert!(!inline.contains("<img"));
    assert!(inline.contains("&lt;b&gt;bold&lt;/b&gt;"));
}

#[test]
fn summaries_treat_breaks_and_paragraph_ends_as_spaces() {
    assert_eq!(summary("first\nsecond  \nthird\n\nfourth", 100), "first second third fourth");
    assert_eq!(summary("a <b>tag</b> here", 100), "a tag here");
    assert_eq!(summary("- one\n- two", 100), "one two");
}
