//! The rules of the declaration attributes: which identifiers and names are accepted, how
//! story identifiers, display names and generated item names derive from function names,
//! and how doc comments become descriptions.
use vstd::prelude::*;
use crate::text::{append_text, chars_of, is_whitespace_char, push_char, same_text, string_from_chars, trim, trim_chars};

verus! {

pub open spec fn is_ascii_lowercase_char(c: char) -> bool {
    'a' <= c <= 'z'
}

pub open spec fn is_ascii_digit_char(c: char) -> bool {
    '0' <= c <= '9'
}

pub open spec fn is_separator_char(c: char) -> bool {
    c == '-' || c == '_'
}

/// An identifier for a route: lowercase ASCII letters, digits and single internal hyphens
/// or underscores, starting with a letter and ending with a letter or digit.
pub open spec fn is_canonical_id(id: Seq<char>) -> bool {
    &&& id.len() > 0
    &&& is_ascii_lowercase_char(id[0])
    &&& is_ascii_lowercase_char(id.last()) || is_ascii_digit_char(id.last())
    &&& forall|i: int|
        0 <= i < id.len() ==> is_ascii_lowercase_char(#[trigger] id[i]) || is_ascii_digit_char(id[i])
            || is_separator_char(id[i])
    &&& forall|i: int| 0 < i < id.len() ==> !(is_separator_char(#[trigger] id[i]) && is_separator_char(id[i - 1]))
}

/// An accepted identifier holds only the characters `a`–`z`, `0`–`9`, `-` and `_` (so no
/// upper-case letter anywhere), starts with a letter and ends with a letter or digit.
pub proof fn lemma_accepted_id_characters(id: Seq<char>)
    requires
        is_canonical_id(id),
    ensures
        forall|i: int|
            0 <= i < id.len() ==> ('a' <= #[trigger] id[i] <= 'z') || ('0' <= id[i] <= '9') || id[i] == '-' || id[i]
                == '_',
        'a' <= id[0] <= 'z',
        ('a' <= id[id.len() - 1] <= 'z') || ('0' <= id[id.len() - 1] <= '9'),
{
}

/// An identifier holding an upper-case ASCII letter is refused.
pub proof fn lemma_upper_case_id_refused(id: Seq<char>, i: int)
    requires
        0 <= i < id.len(),
        'A' <= id[i] <= 'Z',
    ensures
        !is_canonical_id(id),
{
    if is_canonical_id(id) {
        lemma_accepted_id_characters(id);
        assert(('a' <= id[i] <= 'z') || ('0' <= id[i] <= '9') || id[i] == '-' || id[i] == '_');
    }
}

fn is_lowercase(c: char) -> (r: bool)
    ensures
        r == is_ascii_lowercase_char(c),
{
    'a' <= c && c <= 'z'
}

fn is_digit(c: char) -> (r: bool)
    ensures
        r == is_ascii_digit_char(c),
{
    '0' <= c && c <= '9'
}

/// Whether `id` is a canonical route identifier.
pub fn is_valid_id(id: &str) -> (r: bool)
    ensures
        r == is_canonical_id(id@),
{
    let chars = chars_of(id);
    let n = chars.len();
    if n == 0 {
        return false;
    }
    if !is_lowercase(chars[0]) || !(is_lowercase(chars[n - 1]) || is_digit(chars[n - 1])) {
        return false;
    }
    let mut i: usize = 0;
    while i < n
        invariant
            n == chars@.len(),
            chars@ == id@,
            i <= n,
            forall|k: int|
                0 <= k < i ==> is_ascii_lowercase_char(#[trigger] chars@[k]) || is_ascii_digit_char(
                    chars@[k],
                ) || is_separator_char(chars@[k]),
            forall|k: int| 0 < k < i ==> !(is_separator_char(#[trigger] chars@[k]) && is_separator_char(chars@[k - 1])),
        decreases n - i,
    {
        let c = chars[i];
        let separator = c == '-' || c == '_';
        if !(is_lowercase(c) || is_digit(c) || separator) {
            return false;
        }
        if separator && i > 0 && (chars[i - 1] == '-' || chars[i - 1] == '_') {
            return false;
        }
        i += 1;
    }
    true
}

/// The message rejecting a non-canonical identifier of a `kind` declaration.
pub open spec fn invalid_id_message(kind: Seq<char>) -> Seq<char> {
    kind
        + " `id` must contain lowercase ASCII letters, digits, and single internal hyphens or underscores"@
}

/// Accepts a canonical route identifier; otherwise the message naming the declaration kind.
pub fn validate_id(id: &str, kind: &str) -> (r: Result<(), String>)
    ensures
        match r {
            Ok(()) => is_canonical_id(id@),
            Err(message) => !is_canonical_id(id@) && message@ == invalid_id_message(kind@),
        },
{
    if is_valid_id(id) {
        Ok(())
    } else {
        let mut message = kind.to_owned();
        append_text(
            &mut message,
            " `id` must contain lowercase ASCII letters, digits, and single internal hyphens or underscores",
        );
        Err(message)
    }
}

/// The message rejecting an empty or padded display name of a `kind` declaration.
pub open spec fn invalid_name_message(kind: Seq<char>) -> Seq<char> {
    kind + " `name` must be non-empty and have no surrounding whitespace"@
}

/// A display name is accepted when it is non-empty and has no surrounding white space.
pub open spec fn is_valid_name(name: Seq<char>) -> bool {
    name.len() > 0 && trim_chars(name) == name
}

/// Accepts a display name; otherwise the message naming the declaration kind.
pub fn validate_name(name: &str, kind: &str) -> (r: Result<(), String>)
    ensures
        match r {
            Ok(()) => is_valid_name(name@),
            Err(message) => !is_valid_name(name@) && message@ == invalid_name_message(kind@),
        },
{
    let chars = chars_of(name);
    let trimmed = trim(&chars);
    let unchanged = trimmed.len() == chars.len();
    proof {
        lemma_trim_is_subrange(chars@);
        if unchanged {
            assert(trim_chars(chars@) == chars@);
        }
    }
    if !name.is_empty() && unchanged {
        Ok(())
    } else {
        let mut message = kind.to_owned();
        append_text(&mut message, " `name` must be non-empty and have no surrounding whitespace");
        Err(message)
    }
}

proof fn lemma_trim_start_suffix(s: Seq<char>)
    ensures
        exists|k: int| 0 <= k <= s.len() && crate::text::trim_start_chars(s) == s.skip(k),
    decreases s.len(),
{
    if s.len() > 0 && is_whitespace_char(s[0]) {
        lemma_trim_start_suffix(s.drop_first());
        let k = choose|k: int| 0 <= k <= s.drop_first().len() && crate::text::trim_start_chars(s.drop_first()) == s.drop_first().skip(k);
        assert(s.drop_first().skip(k) == s.skip(k + 1));
    } else {
        assert(s.skip(0) == s);
    }
}

proof fn lemma_trim_end_prefix(s: Seq<char>)
    ensures
        exists|k: int| 0 <= k <= s.len() && crate::text::trim_end_chars(s) == s.take(k),
    decreases s.len(),
{
    if s.len() > 0 && is_whitespace_char(s.last()) {
        lemma_trim_end_prefix(s.drop_last());
        let k = choose|k: int| 0 <= k <= s.drop_last().len() && crate::text::trim_end_chars(s.drop_last()) == s.drop_last().take(k);
        assert(s.drop_last().take(k) == s.take(k));
    } else {
        assert(s.take(s.len() as int) == s);
    }
}

/// Trimming keeps a contiguous run of the text, so it changes the text exactly when it
/// shortens it.
proof fn lemma_trim_is_subrange(s: Seq<char>)
    ensures
        trim_chars(s).len() <= s.len(),
        trim_chars(s).len() == s.len() ==> trim_chars(s) == s,
{
    lemma_trim_start_suffix(s);
    let k = choose|k: int| 0 <= k <= s.len() && crate::text::trim_start_chars(s) == s.skip(k);
    let t = s.skip(k);
    lemma_trim_end_prefix(t);
    let m = choose|m: int| 0 <= m <= t.len() && crate::text::trim_end_chars(t) == t.take(m);
    if trim_chars(s).len() == s.len() {
        assert(k == 0);
        assert(t == s);
        assert(t.take(m) == s);
    }
}

// ----- Names derived from function names -----

/// A function name that yields a route identifier: lowercase ASCII letters, digits and
/// single internal underscores, starting with a letter and ending with a letter or digit.
pub open spec fn is_canonical_snake_case(name: Seq<char>) -> bool {
    &&& name.len() > 0
    &&& is_ascii_lowercase_char(name[0])
    &&& is_ascii_lowercase_char(name.last()) || is_ascii_digit_char(name.last())
    &&& forall|i: int|
        0 <= i < name.len() ==> is_ascii_lowercase_char(#[trigger] name[i]) || is_ascii_digit_char(name[i])
            || name[i] == '_'
    &&& forall|i: int| 0 < i < name.len() ==> !(#[trigger] name[i] == '_' && name[i - 1] == '_')
}

/// `name` with every underscore replaced by a hyphen.
pub open spec fn hyphenated(name: Seq<char>) -> Seq<char> {
    name.map_values(|c: char| if c == '_' { '-' } else { c })
}

/// The message rejecting a function name that yields no route identifier.
pub open spec fn invalid_function_name_message(kind: Seq<char>) -> Seq<char> {
    kind + " function names must be canonical lowercase ASCII snake_case"@
}

fn route_id(name: &str, kind: &str) -> (r: Result<String, String>)
    ensures
        match r {
            Ok(id) => is_canonical_snake_case(name@) && id@ == hyphenated(name@),
            Err(message) => !is_canonical_snake_case(name@) && message@
                == invalid_function_name_message(kind@),
        },
{
    let chars = chars_of(name);
    let n = chars.len();
    let mut valid = n > 0 && is_lowercase(chars[0]) && (is_lowercase(chars[n - 1]) || is_digit(chars[n - 1]));
    let mut id: Vec<char> = Vec::new();
    let mut i: usize = 0;
    while valid && i < n
        invariant
            n == chars@.len(),
            chars@ == name@,
            i <= n,
            valid ==> n > 0 && is_ascii_lowercase_char(chars@[0]) && (is_ascii_lowercase_char(chars@.last()) || is_ascii_digit_char(chars@.last())),
            valid ==> forall|k: int| 0 <= k < i ==> is_ascii_lowercase_char(#[trigger] chars@[k]) || is_ascii_digit_char(chars@[k]) || chars@[k] == '_',
            valid ==> forall|k: int| 0 < k < i ==> !(#[trigger] chars@[k] == '_' && chars@[k - 1] == '_'),
            valid ==> id@ == hyphenated(chars@.take(i as int)),
            !valid ==> !is_canonical_snake_case(name@),
        decreases n - i,
    {
        let c = chars[i];
        if !(is_lowercase(c) || is_digit(c) || c == '_') || (c == '_' && i > 0 && chars[i - 1] == '_') {
            valid = false;
            i += 1;
        } else {
            id.push(if c == '_' { '-' } else { c });
            assert(chars@.take(i + 1) == chars@.take(i as int).push(c));
            assert(hyphenated(chars@.take(i + 1)) == hyphenated(chars@.take(i as int)).push(if c == '_' { '-' } else { c }));
            i += 1;
        }
    }
    if valid {
        assert(chars@.take(n as int) == chars@);
        Ok(string_from_chars(&id))
    } else {
        let mut message = kind.to_owned();
        append_text(&mut message, " function names must be canonical lowercase ASCII snake_case");
        Err(message)
    }
}

/// The route identifier of a `#[preview]` function: its snake-case name with hyphens.
pub fn preview_id(name: &str) -> (r: Result<String, String>)
    ensures
        match r {
            Ok(id) => is_canonical_snake_case(name@) && id@ == hyphenated(name@),
            Err(message) => !is_canonical_snake_case(name@) && message@
                == invalid_function_name_message("preview"@),
        },
{
    route_id(name, "preview")
}

/// The route identifier of a `#[story]` function: its snake-case name with hyphens.
pub fn story_id(name: &str) -> (r: Result<String, String>)
    ensures
        match r {
            Ok(id) => is_canonical_snake_case(name@) && id@ == hyphenated(name@),
            Err(message) => !is_canonical_snake_case(name@) && message@
                == invalid_function_name_message("story"@),
        },
{
    route_id(name, "story")
}

/// The Unicode upper-case mapping of a character (what `char::to_uppercase` yields).
pub uninterp spec fn uppercase_of(c: char) -> Seq<char>;

/// `char::to_uppercase`: the characters of the upper-case mapping of `c`.
#[verifier::external_body]
fn char_to_uppercase(c: char) -> (r: String)
    ensures
        r@ == uppercase_of(c),
{
    c.to_uppercase().collect()
}

/// `word` with its first character in upper case.
pub open spec fn capitalized(word: Seq<char>) -> Seq<char> {
    if word.len() == 0 {
        seq![]
    } else {
        uppercase_of(word[0]) + word.drop_first()
    }
}

/// A word with its first character in upper case.
pub fn capitalize(word: &str) -> (r: String)
    ensures
        r@ == capitalized(word@),
{
    let chars = chars_of(word);
    if chars.len() == 0 {
        return String::new();
    }
    let mut r = char_to_uppercase(chars[0]);
    let rest = crate::text::string_from_range(&chars, 1, chars.len());
    append_text(&mut r, rest.as_str());
    assert(chars@.subrange(1, chars@.len() as int) == chars@.drop_first());
    r
}

/// The words of a snake-case name, each capitalized, joined by `separator`: every
/// underscore becomes the separator and the first character of each word its upper case.
pub open spec fn title(name: Seq<char>, separator: Seq<char>) -> Seq<char>
    decreases name.len(),
{
    if name.len() == 0 {
        seq![]
    } else {
        let previous = title(name.drop_last(), separator);
        let c = name.last();
        if c == '_' {
            previous + separator
        } else if name.len() == 1 || name[name.len() - 2] == '_' {
            previous + uppercase_of(c)
        } else {
            previous.push(c)
        }
    }
}

fn title_of(name: &str, separator: &str) -> (r: String)
    ensures
        r@ == title(name@, separator@),
{
    let chars = chars_of(name);
    let mut r = String::new();
    let mut i: usize = 0;
    while i < chars.len()
        invariant
            chars@ == name@,
            i <= chars@.len(),
            r@ == title(chars@.take(i as int), separator@),
        decreases chars@.len() - i,
    {
        let ghost t = chars@.take(i + 1);
        assert(t.drop_last() == chars@.take(i as int));
        let c = chars[i];
        if c == '_' {
            append_text(&mut r, separator);
        } else if i == 0 || chars[i - 1] == '_' {
            assert(i > 0 ==> t[t.len() - 2] == chars@[i - 1]);
            let upper = char_to_uppercase(c);
            append_text(&mut r, upper.as_str());
        } else {
            assert(t[t.len() - 2] == chars@[i - 1]);
            push_char(&mut r, c);
        }
        i += 1;
    }
    assert(chars@.take(chars@.len() as int) == chars@);
    r
}

/// The display name of a preview function: its words capitalized and separated by spaces.
pub fn preview_name(name: &str) -> (r: String)
    ensures
        r@ == title(name@, " "@),
{
    title_of(name, " ")
}

/// The display name of a story function: its words capitalized and separated by spaces.
pub fn story_name(name: &str) -> (r: String)
    ensures
        r@ == title(name@, " "@),
{
    title_of(name, " ")
}

/// The name of the component generated for a preview function: `DxPreview` followed by
/// its capitalized words.
pub fn preview_component_ident(name: &str) -> (r: String)
    ensures
        r@ == "DxPreview"@ + title(name@, ""@),
{
    let mut r = "DxPreview".to_owned();
    append_text(&mut r, title_of(name, "").as_str());
    r
}

/// The name of the component generated for a story function: `DxStory` followed by its
/// capitalized words.
pub fn story_component_ident(name: &str) -> (r: String)
    ensures
        r@ == "DxStory"@ + title(name@, ""@),
{
    let mut r = "DxStory".to_owned();
    append_text(&mut r, title_of(name, "").as_str());
    r
}

/// The ASCII upper-case form of a character (what `char::to_ascii_uppercase` returns).
pub open spec fn ascii_upper(c: char) -> char {
    if 'a' <= c <= 'z' {
        ((c as u32) - 32) as char
    } else {
        c
    }
}

fn ascii_uppercase(c: char) -> (r: char)
    ensures
        r == ascii_upper(c),
{
    if 'a' <= c && c <= 'z' {
        let v = c as u32 - 32;
        (v as u8) as char
    } else {
        c
    }
}

/// `prefix` followed by `name` in ASCII upper case.
pub fn generated_uppercase_ident(prefix: &str, name: &str) -> (r: String)
    ensures
        r@ == prefix@ + name@.map_values(|c: char| ascii_upper(c)),
{
    let chars = chars_of(name);
    let mut r = prefix.to_owned();
    let mut i: usize = 0;
    while i < chars.len()
        invariant
            chars@ == name@,
            i <= chars@.len(),
            r@ == prefix@ + chars@.take(i as int).map_values(|c: char| ascii_upper(c)),
        decreases chars@.len() - i,
    {
        push_char(&mut r, ascii_uppercase(chars[i]));
        assert(chars@.take(i + 1).map_values(|c: char| ascii_upper(c)) == chars@.take(i as int).map_values(|c: char| ascii_upper(c)).push(ascii_upper(chars@[i as int])));
        i += 1;
    }
    assert(chars@.take(chars@.len() as int) == chars@);
    r
}

/// The name of the constant generated for a showcase declaration.
pub fn showcase_const_ident(name: &str) -> (r: String)
    ensures
        r@ == "SHOWCASE_"@ + name@.map_values(|c: char| ascii_upper(c)),
{
    generated_uppercase_ident("SHOWCASE_", name)
}

/// The name of the constant generated for a preview function.
pub fn preview_const_ident(name: &str) -> (r: String)
    ensures
        r@ == "PREVIEW_"@ + name@.map_values(|c: char| ascii_upper(c)),
{
    generated_uppercase_ident("PREVIEW_", name)
}

/// The name of the constant generated for a story-set declaration.
pub fn story_set_const_ident(name: &str) -> (r: String)
    ensures
        r@ == "STORY_SET_"@ + name@.map_values(|c: char| ascii_upper(c)),
{
    generated_uppercase_ident("STORY_SET_", name)
}

/// The name of the constant generated for a story function.
pub fn story_const_ident(name: &str) -> (r: String)
    ensures
        r@ == "STORY_"@ + name@.map_values(|c: char| ascii_upper(c)),
{
    generated_uppercase_ident("STORY_", name)
}

// ----- Doc comments and attributes -----

/// A doc-comment line without the single space that follows `///`.
pub open spec fn doc_line(line: Seq<char>) -> Seq<char> {
    if line.len() > 0 && line[0] == ' ' {
        line.drop_first()
    } else {
        line
    }
}

/// The doc-comment lines joined by line feeds.
pub open spec fn joined_doc_lines(lines: Seq<Seq<char>>) -> Seq<char>
    decreases lines.len(),
{
    if lines.len() == 0 {
        seq![]
    } else if lines.len() == 1 {
        doc_line(lines[0])
    } else {
        joined_doc_lines(lines.drop_last()) + seq!['\n'] + doc_line(lines.last())
    }
}

/// The description that doc comments give: their lines joined, or none when that text is
/// only white space.
pub open spec fn documentation_of(lines: Seq<Seq<char>>) -> Option<Seq<char>> {
    let text = joined_doc_lines(lines);
    if trim_chars(text).len() == 0 {
        None
    } else {
        Some(text)
    }
}

/// A doc-comment line without the single leading space.
pub fn normalize_documentation_line(line: &str) -> (r: String)
    ensures
        r@ == doc_line(line@),
{
    let chars = chars_of(line);
    if chars.len() > 0 && chars[0] == ' ' {
        let r = crate::text::string_from_range(&chars, 1, chars.len());
        assert(chars@.subrange(1, chars@.len() as int) == chars@.drop_first());
        r
    } else {
        string_from_chars(&chars)
    }
}

/// The description that doc-comment lines give.
pub fn documentation(lines: &Vec<String>) -> (r: Option<String>)
    ensures
        match documentation_of(lines@.map_values(|l: String| l@)) {
            Some(text) => r is Some && r.unwrap()@ == text,
            None => r is None,
        },
{
    let ghost views = lines@.map_values(|l: String| l@);
    let mut text = String::new();
    let mut i: usize = 0;
    while i < lines.len()
        invariant
            i <= lines@.len(),
            views == lines@.map_values(|l: String| l@),
            text@ == joined_doc_lines(views.take(i as int)),
        decreases lines@.len() - i,
    {
        assert(views.take(i + 1).drop_last() == views.take(i as int));
        assert(views[i as int] == lines@[i as int]@);
        if i > 0 {
            push_char(&mut text, '\n');
        }
        let line = normalize_documentation_line(lines[i].as_str());
        append_text(&mut text, line.as_str());
        i += 1;
    }
    assert(views.take(lines@.len() as int) == views);
    let trimmed = trim(&chars_of(text.as_str()));
    if trimmed.len() == 0 {
        None
    } else {
        Some(text)
    }
}

/// The attributes a catalog declaration may carry: doc comments, configuration and
/// lint levels.
pub open spec fn is_supported_attribute_name(name: Seq<char>) -> bool {
    ||| name == "doc"@
    ||| is_configuration_attribute_name(name)
    ||| name == "allow"@
    ||| name == "warn"@
    ||| name == "deny"@
    ||| name == "forbid"@
    ||| name == "expect"@
}

/// The configuration attributes, which the generated items repeat.
pub open spec fn is_configuration_attribute_name(name: Seq<char>) -> bool {
    name == "cfg"@ || name == "cfg_attr"@
}

/// Whether an attribute whose path is the single identifier `name` may stand on a
/// catalog declaration.
pub fn is_supported_attribute(name: &str) -> (r: bool)
    ensures
        r == is_supported_attribute_name(name@),
{
    same_text(name, "doc") || is_configuration_attribute(name) || same_text(name, "allow")
        || same_text(name, "warn") || same_text(name, "deny") || same_text(name, "forbid")
        || same_text(name, "expect")
}

/// Whether an attribute whose path is the single identifier `name` configures
/// compilation.
pub fn is_configuration_attribute(name: &str) -> (r: bool)
    ensures
        r == is_configuration_attribute_name(name@),
{
    same_text(name, "cfg") || same_text(name, "cfg_attr")
}

// ----- Story lists -----

/// The name at position `i` repeats an earlier name.
pub open spec fn repeats_earlier_name(names: Seq<Seq<char>>, i: int) -> bool {
    exists|j: int| 0 <= j < i && #[trigger] names[j] == names[i]
}

/// For each story named in a declaration, whether it repeats an earlier one (each repeat
/// is reported, the first occurrence is not).
pub fn repeated_names(names: &Vec<String>) -> (r: Vec<bool>)
    ensures
        r@.len() == names@.len(),
        forall|i: int| 0 <= i < names@.len() ==> #[trigger] r@[i] == repeats_earlier_name(names@.map_values(|n: String| n@), i),
{
    let ghost views = names@.map_values(|n: String| n@);
    let mut r: Vec<bool> = Vec::new();
    let mut i: usize = 0;
    while i < names.len()
        invariant
            i <= names@.len(),
            r@.len() == i,
            views == names@.map_values(|n: String| n@),
            forall|k: int| 0 <= k < i ==> #[trigger] r@[k] == repeats_earlier_name(views, k),
        decreases names@.len() - i,
    {
        let mut j: usize = 0;
        let mut found = false;
        while j < i
            invariant
                i < names@.len(),
                j <= i,
                views == names@.map_values(|n: String| n@),
                found == exists|m: int| 0 <= m < j && #[trigger] views[m] == views[i as int],
            decreases i - j,
        {
            if same_text(names[j].as_str(), names[i].as_str()) {
                found = true;
            }
            assert(views[j as int] == names@[j as int]@);
            assert(views[i as int] == names@[i as int]@);
            j += 1;
        }
        r.push(found);
        i += 1;
    }
    r
}

// ----- Story function signatures -----

/// What a story function's signature must not have, in the order the checks report it.
#[derive(Clone, Copy, Debug, PartialEq, Eq)]
pub enum SignatureIssue {
    Const,
    Async,
    SafetyQualifier,
    ForeignAbi,
    Arguments,
    Variadic,
    Generic,
    MissingElementReturn,
}

/// The shape of a function signature, as the story checks read it.
#[derive(Clone, Copy, Debug, PartialEq, Eq)]
pub struct SignatureShape {
    pub is_const: bool,
    pub is_async: bool,
    pub has_safety_qualifier: bool,
    pub has_abi: bool,
    pub has_arguments: bool,
    pub is_variadic: bool,
    pub is_generic: bool,
    pub returns_element: bool,
}

/// `issues` followed by `issue` when `present`.
pub open spec fn with_issue(issues: Seq<SignatureIssue>, present: bool, issue: SignatureIssue) -> Seq<SignatureIssue> {
    if present {
        issues.push(issue)
    } else {
        issues
    }
}

/// Every issue of the signature, in check order.
pub open spec fn signature_issues_of(shape: SignatureShape) -> Seq<SignatureIssue> {
    let a = with_issue(seq![], shape.is_const, SignatureIssue::Const);
    let b = with_issue(a, shape.is_async, SignatureIssue::Async);
    let c = with_issue(b, shape.has_safety_qualifier, SignatureIssue::SafetyQualifier);
    let d = with_issue(c, shape.has_abi, SignatureIssue::ForeignAbi);
    let e = with_issue(d, shape.has_arguments, SignatureIssue::Arguments);
    let f = with_issue(e, shape.is_variadic, SignatureIssue::Variadic);
    let g = with_issue(f, shape.is_generic, SignatureIssue::Generic);
    with_issue(g, !shape.returns_element, SignatureIssue::MissingElementReturn)
}

fn push_issue_if(issues: &mut Vec<SignatureIssue>, present: bool, issue: SignatureIssue)
    ensures
        final(issues)@ == with_issue(old(issues)@, present, issue),
{
    if present {
        issues.push(issue);
    }
}

/// The issues of a story function's signature, in check order; empty when it is accepted.
pub fn signature_issues(shape: &SignatureShape) -> (r: Vec<SignatureIssue>)
    ensures
        r@ == signature_issues_of(*shape),
{
    let mut issues: Vec<SignatureIssue> = Vec::new();
    push_issue_if(&mut issues, shape.is_const, SignatureIssue::Const);
    push_issue_if(&mut issues, shape.is_async, SignatureIssue::Async);
    push_issue_if(&mut issues, shape.has_safety_qualifier, SignatureIssue::SafetyQualifier);
    push_issue_if(&mut issues, shape.has_abi, SignatureIssue::ForeignAbi);
    push_issue_if(&mut issues, shape.has_arguments, SignatureIssue::Arguments);
    push_issue_if(&mut issues, shape.is_variadic, SignatureIssue::Variadic);
    push_issue_if(&mut issues, shape.is_generic, SignatureIssue::Generic);
    push_issue_if(&mut issues, !shape.returns_element, SignatureIssue::MissingElementReturn);
    assert(issues@ == signature_issues_of(*shape));
    issues
}

/// The message of a signature issue.
pub fn signature_issue_message(issue: SignatureIssue) -> (r: &'static str)
    ensures
        r@ == match issue {
            SignatureIssue::Const => "story functions must not be const"@,
            SignatureIssue::Async => "story functions must not be async"@,
            SignatureIssue::SafetyQualifier => "story functions must not use safety qualifiers"@,
            SignatureIssue::ForeignAbi => "story functions must use the Rust ABI"@,
            SignatureIssue::Arguments => "story functions must not accept arguments"@,
            SignatureIssue::Variadic => "story functions must not be variadic"@,
            SignatureIssue::Generic => "story functions must not be generic"@,
            SignatureIssue::MissingElementReturn => "story functions must explicitly return `Element`"@,
        },
{
    match issue {
        SignatureIssue::Const => "story functions must not be const",
        SignatureIssue::Async => "story functions must not be async",
        SignatureIssue::SafetyQualifier => "story functions must not use safety qualifiers",
        SignatureIssue::ForeignAbi => "story functions must use the Rust ABI",
        SignatureIssue::Arguments => "story functions must not accept arguments",
        SignatureIssue::Variadic => "story functions must not be variadic",
        SignatureIssue::Generic => "story functions must not be generic",
        SignatureIssue::MissingElementReturn => "story functions must explicitly return `Element`",
    }
}

/// A return type names `Element` when it is a plain path (no qualified self) whose last
/// segment is `Element` without generic arguments.
pub fn returns_element(last_segment: Option<&str>, has_qualified_self: bool, has_arguments: bool) -> (r: bool)
    ensures
        r == match last_segment {
            Some(name) => !has_qualified_self && name@ == "Element"@ && !has_arguments,
            None => false,
        },
{
    match last_segment {
        Some(name) => !has_qualified_self && same_text(name, "Element") && !has_arguments,
        None => false,
    }
}

} // verus!
