//! The external commands the catalog tools run and how their output is read: the Dioxus
//! and Tailwind command lines, forwarded arguments, server readiness, and the checks of
//! installed tools.
use vstd::prelude::*;
use crate::project::{texts, TargetSettings, target_arguments, target_arguments_of};
use crate::text::{
    append_text, bool_text, bool_to_text, chars_of, decimal, decimal_text, is_whitespace,
    is_whitespace_char, same_text, string_from_chars,
};

verus! {

fn push_text(v: &mut Vec<String>, t: &str)
    ensures
        texts(final(v)@) == texts(old(v)@).push(t@),
{
    v.push(t.to_owned());
    assert(texts(v@) == texts(old(v)@).push(t@));
}

fn push_all(v: &mut Vec<String>, extra: &Vec<String>)
    ensures
        texts(final(v)@) == texts(old(v)@) + texts(extra@),
{
    let ghost start = texts(v@);
    let mut i: usize = 0;
    while i < extra.len()
        invariant
            i <= extra@.len(),
            texts(v@) == start + texts(extra@).take(i as int),
        decreases extra@.len() - i,
    {
        let ghost before = v@;
        v.push(extra[i].clone());
        assert(v@ == before.push(extra@[i as int]));
        assert(texts(v@) == texts(before).push(extra@[i as int]@));
        assert(texts(extra@).take(i + 1) == texts(extra@).take(i as int).push(extra@[i as int]@));
        assert(texts(v@) == start + texts(extra@).take(i + 1));
        i += 1;
    }
    assert(texts(extra@).take(extra@.len() as int) == texts(extra@));
}

// ----- Tailwind -----

/// The Deno invocation of the Tailwind CLI.
pub open spec fn tailwind_cli_arguments_of() -> Seq<Seq<char>> {
    seq!["run"@, "--frozen"@, "--allow-all"@, "@tailwindcss/cli"@]
}

/// The Deno arguments that start the Tailwind CLI.
pub fn tailwind_cli_arguments() -> (r: Vec<String>)
    ensures
        texts(r@) == tailwind_cli_arguments_of(),
{
    let mut v: Vec<String> = Vec::new();
    push_text(&mut v, "run");
    push_text(&mut v, "--frozen");
    push_text(&mut v, "--allow-all");
    push_text(&mut v, "@tailwindcss/cli");
    v
}

/// The stylesheet build: the Tailwind CLI reading `input` and writing `output` minified;
/// the watcher adds `--watch=always --poll=100`.
pub open spec fn tailwind_arguments_of(input: Seq<char>, output: Seq<char>, watch: bool) -> Seq<Seq<char>> {
    let build = tailwind_cli_arguments_of() + seq!["--input"@, input, "--output"@, output, "--minify"@];
    if watch {
        build + seq!["--watch=always"@, "--poll=100"@]
    } else {
        build
    }
}

/// The Deno arguments of the stylesheet build or watcher.
pub fn tailwind_arguments(input: &str, output: &str, watch: bool) -> (r: Vec<String>)
    ensures
        texts(r@) == tailwind_arguments_of(input@, output@, watch),
{
    let mut v = tailwind_cli_arguments();
    push_text(&mut v, "--input");
    push_text(&mut v, input);
    push_text(&mut v, "--output");
    push_text(&mut v, output);
    push_text(&mut v, "--minify");
    assert(texts(v@) == tailwind_cli_arguments_of() + seq!["--input"@, input@, "--output"@, output@, "--minify"@]);
    if watch {
        let ghost build = texts(v@);
        push_text(&mut v, "--watch=always");
        push_text(&mut v, "--poll=100");
        assert(texts(v@) == build + seq!["--watch=always"@, "--poll=100"@]);
    }
    v
}

/// The build and watcher command lines share their inputs: the watcher's arguments are the
/// build's followed by the watch options.
pub proof fn lemma_tailwind_watch_extends_build(input: Seq<char>, output: Seq<char>)
    ensures
        tailwind_arguments_of(input, output, true) == tailwind_arguments_of(input, output, false)
            + seq!["--watch=always"@, "--poll=100"@],
        tailwind_arguments_of(input, output, false).last() == "--minify"@,
{
    assert(tailwind_arguments_of(input, output, false).last() == "--minify"@);
}

// ----- Dioxus -----

/// The options of `dx-story serve` that shape the Dioxus command.
pub struct ServeOptions {
    pub no_watch: bool,
    pub port: u16,
    pub address: String,
    pub open: bool,
    pub non_interactive: bool,
    pub ready_json: bool,
    pub forwarded: Vec<String>,
}

/// `dx serve` for the catalog target: hot reload and watching follow `--no-watch`, then
/// port, address and browser, `--interactive false` when non-interactive or emitting the
/// ready event, then the forwarded arguments.
pub open spec fn serve_arguments_of(target: TargetSettings, options: ServeOptions) -> Seq<Seq<char>> {
    let watching = bool_text(!options.no_watch);
    let base = seq!["serve"@] + target_arguments_of(target) + seq![
        "--hot-reload"@,
        watching,
        "--watch"@,
        watching,
        "--port"@,
        decimal(options.port as nat),
        "--addr"@,
        options.address@,
        "--open"@,
        bool_text(options.open),
    ];
    let quiet = if options.non_interactive || options.ready_json {
        base + seq!["--interactive"@, bool_text(false)]
    } else {
        base
    };
    quiet + texts(options.forwarded@)
}

/// With `--non-interactive` (whatever `--ready-json` says), dx serve is told
/// `--interactive false`, and this comes before the forwarded arguments, which end the
/// command line unchanged.
pub proof fn lemma_non_interactive_serve_is_quiet(target: TargetSettings, options: ServeOptions)
    requires
        options.non_interactive,
    ensures
        ({
            let args = serve_arguments_of(target, options);
            let forwarded = texts(options.forwarded@);
            &&& args.len() >= forwarded.len() + 2
            &&& args.skip(args.len() - forwarded.len()) == forwarded
            &&& args[args.len() - forwarded.len() - 2] == "--interactive"@
            &&& args[args.len() - forwarded.len() - 1] == seq!['f', 'a', 'l', 's', 'e']
        }),
{
    let args = serve_arguments_of(target, options);
    let forwarded = texts(options.forwarded@);
    let quiet = args.take(args.len() - forwarded.len());
    assert(args.skip(args.len() - forwarded.len()) =~= forwarded);
    assert(args[args.len() - forwarded.len() - 2] == quiet[quiet.len() - 2]);
}

/// Without `--release`, dx build gets exactly `build` and the target arguments, so every
/// `--release` in it comes from the target arguments; with `--release`, those are followed
/// by `--release --debug-symbols false`.
pub proof fn lemma_build_arguments_follow_release(target: TargetSettings, release: bool)
    ensures
        !release ==> build_arguments_of(target, release) == seq!["build"@] + target_arguments_of(target),
        !release ==> forall|i: int|
            0 <= i < build_arguments_of(target, release).len() && #[trigger] build_arguments_of(target, release)[i]
                == "--release"@ ==> i >= 1 && target_arguments_of(target)[i - 1] == "--release"@,
        release ==> build_arguments_of(target, release) == seq!["build"@] + target_arguments_of(target) + seq![
            "--release"@,
            "--debug-symbols"@,
            seq!['f', 'a', 'l', 's', 'e'],
        ],
{
    if !release {
        let args = build_arguments_of(target, release);
        reveal_strlit("build");
        reveal_strlit("--release");
        assert forall|i: int| 0 <= i < args.len() && #[trigger] args[i] == "--release"@ implies i >= 1
            && target_arguments_of(target)[i - 1] == "--release"@ by {
            if i == 0 {
                assert(args[0] == "build"@);
                assert(args[0].len() != "--release"@.len());
            }
        }
    }
}

/// The arguments of `dx serve` for the catalog.
pub fn serve_arguments(target: &TargetSettings, options: &ServeOptions) -> (r: Vec<String>)
    ensures
        texts(r@) == serve_arguments_of(*target, *options),
{
    let mut v: Vec<String> = Vec::new();
    push_text(&mut v, "serve");
    let t = target_arguments(target);
    push_all(&mut v, &t);
    let watching = bool_to_text(!options.no_watch);
    push_text(&mut v, "--hot-reload");
    push_text(&mut v, watching.as_str());
    push_text(&mut v, "--watch");
    push_text(&mut v, watching.as_str());
    push_text(&mut v, "--port");
    push_text(&mut v, decimal_text(options.port as u64).as_str());
    push_text(&mut v, "--addr");
    push_text(&mut v, options.address.as_str());
    push_text(&mut v, "--open");
    push_text(&mut v, bool_to_text(options.open).as_str());
    let ghost base = texts(v@);
    assert(base == seq!["serve"@] + target_arguments_of(*target) + seq![
        "--hot-reload"@,
        bool_text(!options.no_watch),
        "--watch"@,
        bool_text(!options.no_watch),
        "--port"@,
        decimal(options.port as nat),
        "--addr"@,
        options.address@,
        "--open"@,
        bool_text(options.open),
    ]);
    if options.non_interactive || options.ready_json {
        push_text(&mut v, "--interactive");
        push_text(&mut v, bool_to_text(false).as_str());
        assert(texts(v@) == base + seq!["--interactive"@, bool_text(false)]);
    }
    push_all(&mut v, &options.forwarded);
    v
}

/// The `CARGO_INCREMENTAL` setting of the Dioxus server: off when not watching.
pub fn cargo_incremental(no_watch: bool) -> (r: &'static str)
    ensures
        r@ == if no_watch {
            "0"@
        } else {
            "1"@
        },
{
    if no_watch {
        "0"
    } else {
        "1"
    }
}

/// `dx build` for the catalog target; a release build adds `--release --debug-symbols false`.
pub open spec fn build_arguments_of(target: TargetSettings, release: bool) -> Seq<Seq<char>> {
    let base = seq!["build"@] + target_arguments_of(target);
    if release {
        base + seq!["--release"@, "--debug-symbols"@, bool_text(false)]
    } else {
        base
    }
}

/// The arguments of `dx build` for the catalog.
pub fn build_arguments(target: &TargetSettings, release: bool) -> (r: Vec<String>)
    ensures
        texts(r@) == build_arguments_of(*target, release),
{
    let mut v: Vec<String> = Vec::new();
    push_text(&mut v, "build");
    let t = target_arguments(target);
    push_all(&mut v, &t);
    if release {
        let ghost base = texts(v@);
        push_text(&mut v, "--release");
        push_text(&mut v, "--debug-symbols");
        push_text(&mut v, bool_to_text(false).as_str());
        assert(texts(v@) == base + seq!["--release"@, "--debug-symbols"@, bool_text(false)]);
    }
    v
}

/// `dx serve` as the preview tool runs it: the catalog target, hot reload and watching
/// on, the configured port and browser setting (overridden from the command line), then
/// the forwarded arguments.
pub open spec fn preview_serve_arguments_of(
    target: TargetSettings,
    port: u16,
    open: bool,
    forwarded: Seq<Seq<char>>,
) -> Seq<Seq<char>> {
    seq!["serve"@] + target_arguments_of(target) + seq![
        "--hot-reload"@,
        bool_text(true),
        "--watch"@,
        bool_text(true),
        "--port"@,
        decimal(port as nat),
        "--open"@,
        bool_text(open),
    ] + forwarded
}

/// The arguments of `dx serve` as the preview tool runs it.
pub fn preview_serve_arguments(target: &TargetSettings, port: u16, open: bool, forwarded: &Vec<String>) -> (r: Vec<String>)
    ensures
        texts(r@) == preview_serve_arguments_of(*target, port, open, texts(forwarded@)),
{
    let mut v: Vec<String> = Vec::new();
    push_text(&mut v, "serve");
    let t = target_arguments(target);
    push_all(&mut v, &t);
    let on = bool_to_text(true);
    push_text(&mut v, "--hot-reload");
    push_text(&mut v, on.as_str());
    push_text(&mut v, "--watch");
    push_text(&mut v, on.as_str());
    push_text(&mut v, "--port");
    push_text(&mut v, decimal_text(port as u64).as_str());
    push_text(&mut v, "--open");
    push_text(&mut v, bool_to_text(open).as_str());
    push_all(&mut v, forwarded);
    v
}

// ----- Forwarded arguments -----

/// The part of an argument before its first `=`.
pub open spec fn flag_of(argument: Seq<char>) -> Seq<char> {
    if argument.contains('=') {
        argument.take(choose|i: int| 0 <= i < argument.len() && argument[i] == '=' && forall|j: int| 0 <= j < i ==> argument[j] != '=')
    } else {
        argument
    }
}

/// The options `dx-story serve` sets itself, which cannot be forwarded while it emits the
/// ready event or does not watch.
pub open spec fn is_reserved_flag(flag: Seq<char>) -> bool {
    ||| flag == "--port"@
    ||| flag == "-p"@
    ||| flag == "--addr"@
    ||| flag == "--watch"@
    ||| flag == "--hot-reload"@
    ||| flag == "--interactive"@
    ||| flag == "--open"@
}

fn flag(argument: &str) -> (r: String)
    ensures
        r@ == flag_of(argument@),
{
    let chars = chars_of(argument);
    let mut i: usize = 0;
    while i < chars.len() && chars[i] != '='
        invariant
            chars@ == argument@,
            i <= chars@.len(),
            forall|j: int| 0 <= j < i ==> chars@[j] != '=',
        decreases chars@.len() - i,
    {
        i += 1;
    }
    if i < chars.len() {
        proof {
            assert(chars@[i as int] == '=');
            assert(argument@.contains('='));
            let k = choose|k: int|
                0 <= k < argument@.len() && argument@[k] == '=' && forall|j: int|
                    0 <= j < k ==> argument@[j] != '=';
            assert(0 <= i < argument@.len() && argument@[i as int] == '=' && forall|j: int|
                0 <= j < i ==> argument@[j] != '=');
            assert(k == i) by {
                if k < i {
                    assert(chars@[k] != '=');
                }
                if k > i {
                    assert(argument@[i as int] != '=');
                }
            }
        }
    } else {
        assert(!argument@.contains('='));
        assert(chars@.take(i as int) == chars@);
    }
    crate::text::string_from_range(&chars, 0, i)
}

fn is_reserved(flag: &str) -> (r: bool)
    ensures
        r == is_reserved_flag(flag@),
{
    same_text(flag, "--port") || same_text(flag, "-p") || same_text(flag, "--addr") || same_text(flag, "--watch")
        || same_text(flag, "--hot-reload") || same_text(flag, "--interactive") || same_text(flag, "--open")
}

/// The message rejecting a reserved forwarded option.
pub open spec fn reserved_flag_message(flag: Seq<char>) -> Seq<char> {
    flag + " cannot be forwarded with --ready-json or --no-watch; use dx-story's serve options"@
}

/// Accepts the arguments forwarded to `dx serve`: when emitting the ready event or not
/// watching, none may set an option that `dx-story serve` sets itself; the error names
/// the first that does.
pub fn validate_forwarded_arguments(ready_json: bool, no_watch: bool, arguments: &Vec<String>) -> (r: Result<(), String>)
    ensures
        !(ready_json || no_watch) ==> r is Ok,
        (ready_json || no_watch) ==> match r {
            Ok(()) => forall|i: int| 0 <= i < arguments@.len() ==> !is_reserved_flag(flag_of(#[trigger] arguments@[i]@)),
            Err(message) => exists|i: int| {
                &&& 0 <= i < arguments@.len()
                &&& is_reserved_flag(flag_of(#[trigger] arguments@[i]@))
                &&& forall|j: int| 0 <= j < i ==> !is_reserved_flag(flag_of(#[trigger] arguments@[j]@))
                &&& message@ == reserved_flag_message(flag_of(arguments@[i]@))
            },
        },
{
    if !(ready_json || no_watch) {
        return Ok(());
    }
    let mut i: usize = 0;
    while i < arguments.len()
        invariant
            ready_json || no_watch,
            i <= arguments@.len(),
            forall|j: int| 0 <= j < i ==> !is_reserved_flag(flag_of(#[trigger] arguments@[j]@)),
        decreases arguments@.len() - i,
    {
        let f = flag(arguments[i].as_str());
        if is_reserved(f.as_str()) {
            let mut message = f;
            append_text(&mut message, " cannot be forwarded with --ready-json or --no-watch; use dx-story's serve options");
            assert(is_reserved_flag(flag_of(arguments@[i as int]@)));
            return Err(message);
        }
        i += 1;
    }
    Ok(())
}

// ----- Readiness -----

/// `prefix` begins `s`.
pub open spec fn begins_with(s: Seq<char>, prefix: Seq<char>) -> bool {
    prefix.len() <= s.len() && s.take(prefix.len() as int) == prefix
}

fn starts_with_text(s: &Vec<char>, prefix: &str) -> (r: bool)
    ensures
        r == begins_with(s@, prefix@),
{
    let p = chars_of(prefix);
    if p.len() > s.len() {
        return false;
    }
    let mut i: usize = 0;
    while i < p.len()
        invariant
            p@ == prefix@,
            p@.len() <= s@.len(),
            i <= p@.len(),
            s@.take(i as int) == p@.take(i as int),
        decreases p@.len() - i,
    {
        if s[i] != p[i] {
            assert(s@.take(p@.len() as int)[i as int] != p@[i as int]);
            return false;
        }
        assert(s@.take(i + 1) == s@.take(i as int).push(s@[i as int]));
        assert(p@.take(i + 1) == p@.take(i as int).push(p@[i as int]));
        i += 1;
    }
    assert(p@.take(p@.len() as int) == p@);
    true
}

/// A catalog is ready when it answers with status 200 and a complete HTML page that is
/// not Dioxus's build placeholder.
pub open spec fn is_ready_response_text(response: Seq<char>) -> bool {
    &&& begins_with(response, "HTTP/1.1 200"@) || begins_with(response, "HTTP/1.0 200"@)
    &&& crate::text::contains_text(response, "</html>"@)
    &&& !crate::text::contains_text(response, "We're building your app now"@)
}

/// Whether an HTTP response shows a ready catalog.
pub fn is_ready_response(response: &str) -> (r: bool)
    ensures
        r == is_ready_response_text(response@),
{
    let chars = chars_of(response);
    (starts_with_text(&chars, "HTTP/1.1 200") || starts_with_text(&chars, "HTTP/1.0 200"))
        && crate::text::contains(&chars, &chars_of("</html>")) && !crate::text::contains(
        &chars,
        &chars_of("We're building your app now"),
    )
}

/// The URL announced when the catalog is ready.
pub fn ready_url(address: &str) -> (r: String)
    ensures
        r@ == "http://"@ + address@,
{
    let mut url = "http://".to_owned();
    append_text(&mut url, address);
    url
}

// ----- Source inventory -----

/// Directories the source inventory does not enter.
pub open spec fn is_skipped_directory_name(name: Seq<char>) -> bool {
    ||| name == "target"@
    ||| name == "node_modules"@
    ||| name == ".git"@
    ||| name == "dist"@
    ||| name == ".cache"@
}

/// Whether the source inventory skips a directory with this name.
pub fn is_skipped_directory(name: &str) -> (r: bool)
    ensures
        r == is_skipped_directory_name(name@),
{
    same_text(name, "target") || same_text(name, "node_modules") || same_text(name, ".git")
        || same_text(name, "dist") || same_text(name, ".cache")
}

/// The most entries the catalog server's source inventory walks through, over all watched
/// directories.
pub const CATALOG_SOURCE_ENTRY_COUNT_MAX: usize = 100000;

/// The most entries the preview server's source inventory walks through, over all watched
/// directories.
pub const PREVIEW_SOURCE_ENTRY_COUNT_MAX: usize = 10000;

/// How deep a source inventory descends below each watched directory.
pub const SOURCE_DEPTH_MAX: usize = 64;

/// The message of a source inventory that went past `limit` entries.
pub open spec fn inventory_limit_message(limit: nat) -> Seq<char> {
    "Dioxus source inventory exceeds "@ + decimal(limit) + " entries"@
}

/// Whether a source inventory may go on after its `entry_count`-th entry: it may while at
/// most `limit` entries have been seen.
pub fn check_source_entry_count(entry_count: usize, limit: usize) -> (r: Result<(), String>)
    ensures
        r is Ok <==> entry_count <= limit,
        r matches Err(message) ==> message@ == inventory_limit_message(limit as nat),
{
    if entry_count <= limit {
        Ok(())
    } else {
        let mut message = "Dioxus source inventory exceeds ".to_owned();
        append_text(&mut message, decimal_text(limit as u64).as_str());
        append_text(&mut message, " entries");
        Err(message)
    }
}

/// Whether a file with this extension is a Rust source.
pub fn is_rust_source(extension: Option<&str>) -> (r: bool)
    ensures
        r == match extension {
            Some(e) => e@ == "rs"@,
            None => false,
        },
{
    match extension {
        Some(e) => same_text(e, "rs"),
        None => false,
    }
}

// ----- Installed tools -----

/// Splits `s` into its finished lines and the line still being read.
pub open spec fn lines_split(s: Seq<char>) -> (Seq<Seq<char>>, Seq<char>)
    decreases s.len(),
{
    if s.len() == 0 {
        (seq![], seq![])
    } else {
        let (done, current) = lines_split(s.drop_last());
        if s.last() == '\n' {
            let line = if current.len() > 0 && current.last() == '\r' {
                current.drop_last()
            } else {
                current
            };
            (done.push(line), seq![])
        } else {
            (done, current.push(s.last()))
        }
    }
}

/// The lines of `s` (what `str::lines` yields): split at `\n` or `\r\n`, without the line
/// endings; a final line ending adds no empty line.
pub open spec fn lines_of(s: Seq<char>) -> Seq<Seq<char>> {
    let (done, current) = lines_split(s);
    if current.len() > 0 {
        done.push(current)
    } else {
        done
    }
}

/// Whether a line of `output` is exactly `target`.
pub fn has_line(output: &str, target: &str) -> (r: bool)
    ensures
        r == lines_of(output@).contains(target@),
{
    let chars = chars_of(output);
    let mut done: Vec<String> = Vec::new();
    let mut current: Vec<char> = Vec::new();
    let mut i: usize = 0;
    while i < chars.len()
        invariant
            chars@ == output@,
            i <= chars@.len(),
            (texts(done@), current@) == lines_split(chars@.take(i as int)),
        decreases chars@.len() - i,
    {
        assert(chars@.take(i + 1).drop_last() == chars@.take(i as int));
        let c = chars[i];
        if c == '\n' {
            let n = current.len();
            let line = if n > 0 && current[n - 1] == '\r' {
                let l = crate::text::string_from_range(&current, 0, n - 1);
                assert(current@.subrange(0, n - 1) == current@.drop_last());
                l
            } else {
                string_from_chars(&current)
            };
            done.push(line);
            current = Vec::new();
        } else {
            current.push(c);
        }
        i += 1;
    }
    assert(chars@.take(chars@.len() as int) == chars@);
    if current.len() > 0 {
        done.push(string_from_chars(&current));
    }
    assert(texts(done@) == lines_of(output@));
    match crate::project::position_of(&done, target) {
        Some(k) => {
            assert(texts(done@)[k as int] == target@);
            true
        },
        None => false,
    }
}

/// Whether the Rust target list shows the WebAssembly target installed.
pub fn has_wasm_target(installed_targets: &str) -> (r: bool)
    ensures
        r == lines_of(installed_targets@).contains("wasm32-unknown-unknown"@),
{
    has_line(installed_targets, "wasm32-unknown-unknown")
}

/// Splits `s` into its finished words and the word still being read.
pub open spec fn words_split(s: Seq<char>) -> (Seq<Seq<char>>, Seq<char>)
    decreases s.len(),
{
    if s.len() == 0 {
        (seq![], seq![])
    } else {
        let (done, current) = words_split(s.drop_last());
        if is_whitespace_char(s.last()) {
            if current.len() > 0 {
                (done.push(current), seq![])
            } else {
                (done, seq![])
            }
        } else {
            (done, current.push(s.last()))
        }
    }
}

/// The words of `s` (what `str::split_whitespace` yields).
pub open spec fn words_of(s: Seq<char>) -> Seq<Seq<char>> {
    let (done, current) = words_split(s);
    if current.len() > 0 {
        done.push(current)
    } else {
        done
    }
}

/// A word that starts with an ASCII digit.
pub open spec fn starts_with_digit(word: Seq<char>) -> bool {
    word.len() > 0 && '0' <= word[0] <= '9'
}

/// `i` is the position of the first word of `words` starting with a digit.
pub open spec fn is_first_numeric_word(words: Seq<Seq<char>>, i: int) -> bool {
    &&& 0 <= i < words.len()
    &&& starts_with_digit(words[i])
    &&& forall|j: int| 0 <= j < i ==> !starts_with_digit(#[trigger] words[j])
}

/// The version a tool printed: the first word of its output that starts with a digit.
pub fn version_token(output: &str) -> (r: Option<String>)
    ensures
        match r {
            Some(token) => exists|i: int| is_first_numeric_word(words_of(output@), i) && token@ == #[trigger] words_of(output@)[i],
            None => forall|i: int| 0 <= i < words_of(output@).len() ==> !starts_with_digit(#[trigger] words_of(output@)[i]),
        },
{
    let chars = chars_of(output);
    let mut done: Vec<String> = Vec::new();
    let mut current: Vec<char> = Vec::new();
    let mut i: usize = 0;
    while i < chars.len()
        invariant
            chars@ == output@,
            i <= chars@.len(),
            (texts(done@), current@) == words_split(chars@.take(i as int)),
        decreases chars@.len() - i,
    {
        assert(chars@.take(i + 1).drop_last() == chars@.take(i as int));
        let c = chars[i];
        if is_whitespace(c) {
            if current.len() > 0 {
                done.push(string_from_chars(&current));
            }
            current = Vec::new();
        } else {
            current.push(c);
        }
        i += 1;
    }
    assert(chars@.take(chars@.len() as int) == chars@);
    if current.len() > 0 {
        done.push(string_from_chars(&current));
    }
    let ghost words = words_of(output@);
    assert(texts(done@) == words);
    let mut k: usize = 0;
    while k < done.len()
        invariant
            k <= done@.len(),
            words == words_of(output@),
            texts(done@) == words,
            forall|j: int| 0 <= j < k ==> !starts_with_digit(#[trigger] words[j]),
        decreases done@.len() - k,
    {
        let w = chars_of(done[k].as_str());
        assert(words[k as int] == done@[k as int]@);
        if w.len() > 0 && '0' <= w[0] && w[0] <= '9' {
            let token = done[k].clone();
            assert(is_first_numeric_word(words, k as int));
            return Some(token);
        }
        k += 1;
    }
    None
}

// ----- Semantic versions -----

/// A semantic version: major, minor and patch numbers, pre-release and build metadata.
#[derive(Clone, Debug, PartialEq, Eq)]
pub struct VersionParts {
    pub major: u64,
    pub minor: u64,
    pub patch: u64,
    pub pre: String,
    pub build: String,
}

/// The parts of a version, as plain values.
pub open spec fn version_view(v: VersionParts) -> (u64, u64, u64, Seq<char>, Seq<char>) {
    (v.major, v.minor, v.patch, v.pre@, v.build@)
}

/// The version that `semver` reads from a text, if it is one.
pub uninterp spec fn parsed_version(text: Seq<char>) -> Option<(u64, u64, u64, Seq<char>, Seq<char>)>;

/// `semver::Version::parse`: the parts of the version the text denotes, or `None` when the
/// text is not a version; the result is named `parsed_version`.
#[verifier::external_body]
fn parse_version(text: &str) -> (r: Option<VersionParts>)
    ensures
        match r {
            Some(v) => parsed_version(text@) == Some(version_view(v)),
            None => parsed_version(text@) is None,
        },
{
    cargo_metadata::semver::Version::parse(text).ok().map(|v| VersionParts {
        major: v.major,
        minor: v.minor,
        patch: v.patch,
        pre: v.pre.as_str().to_owned(),
        build: v.build.as_str().to_owned(),
    })
}

/// The installed tool matches the expected version when the version it printed parses to
/// the same version as the expected one.
pub open spec fn tool_version_matches(output: Seq<char>, expected: Seq<char>) -> bool {
    exists|i: int| {
        &&& is_first_numeric_word(words_of(output), i)
        &&& parsed_version(#[trigger] words_of(output)[i]) is Some
        &&& parsed_version(words_of(output)[i]) == parsed_version(expected)
    }
}

/// Whether the version a tool printed is the expected version.
pub fn version_matches(output: &str, expected: &str) -> (r: bool)
    ensures
        r == tool_version_matches(output@, expected@),
{
    let token = match version_token(output) {
        Some(t) => t,
        None => return false,
    };
    let actual = match parse_version(token.as_str()) {
        Some(v) => v,
        None => {
            proof {
                assert forall|i: int| is_first_numeric_word(words_of(output@), i) implies parsed_version(#[trigger] words_of(output@)[i]) is None by {
                    let k = choose|k: int| is_first_numeric_word(words_of(output@), k) && token@ == #[trigger] words_of(output@)[k];
                    if i < k {
                        assert(!starts_with_digit(words_of(output@)[i]));
                    } else if k < i {
                        assert(!starts_with_digit(words_of(output@)[k]));
                    }
                }
            }
            return false;
        },
    };
    let wanted = parse_version(expected);
    let same = match wanted {
        Some(w) => actual.major == w.major && actual.minor == w.minor && actual.patch == w.patch
            && same_text(actual.pre.as_str(), w.pre.as_str()) && same_text(actual.build.as_str(), w.build.as_str()),
        None => false,
    };
    proof {
        let k = choose|k: int| is_first_numeric_word(words_of(output@), k) && token@ == #[trigger] words_of(output@)[k];
        assert forall|i: int| is_first_numeric_word(words_of(output@), i) implies i == k by {
            if i < k {
                assert(!starts_with_digit(words_of(output@)[i]));
            } else if k < i {
                assert(!starts_with_digit(words_of(output@)[k]));
            }
        }
    }
    same
}

/// The message when the installed Dioxus CLI does not match the catalog's Dioxus.
pub fn version_mismatch_message(got: &str, need: &str) -> (r: String)
    ensures
        r@ == "Dioxus CLI version does not match the catalog: got "@ + got@ + ", need "@ + need@
            + "; install with: cargo install dioxus-cli --version "@ + need@ + " --locked"@,
{
    let mut m = "Dioxus CLI version does not match the catalog: got ".to_owned();
    append_text(&mut m, got);
    append_text(&mut m, ", need ");
    append_text(&mut m, need);
    append_text(&mut m, "; install with: cargo install dioxus-cli --version ");
    append_text(&mut m, need);
    append_text(&mut m, " --locked");
    m
}

/// How the doctor describes the catalog's stylesheet.
pub fn styles_description(has_tailwind: bool) -> (r: &'static str)
    ensures
        r@ == if has_tailwind {
            "Deno / Tailwind"@
        } else {
            "consumer-provided CSS"@
        },
{
    if has_tailwind {
        "Deno / Tailwind"
    } else {
        "consumer-provided CSS"
    }
}

// ----- Source inventory -----

/// The items of `current` that `known` lacks, in their order.
pub open spec fn new_items(known: Seq<Seq<char>>, current: Seq<Seq<char>>) -> Seq<Seq<char>>
    decreases current.len(),
{
    if current.len() == 0 {
        seq![]
    } else if known.contains(current.last()) {
        new_items(known, current.drop_last())
    } else {
        new_items(known, current.drop_last()).push(current.last())
    }
}

fn holds_source(known: &Vec<String>, path: &str) -> (r: bool)
    ensures
        r == texts(known@).contains(path@),
{
    let mut i: usize = 0;
    while i < known.len()
        invariant
            i <= known@.len(),
            forall|j: int| 0 <= j < i ==> texts(known@)[j] != path@,
        decreases known@.len() - i,
    {
        if same_text(known[i].as_str(), path) {
            assert(texts(known@)[i as int] == path@);
            return true;
        }
        i += 1;
    }
    false
}

/// The Rust sources of the current inventory that the known one lacks: the files added
/// since the server started.
pub fn new_rust_sources(known: &Vec<String>, current: &Vec<String>) -> (r: Vec<String>)
    ensures
        texts(r@) == new_items(texts(known@), texts(current@)),
{
    let mut added: Vec<String> = Vec::new();
    let mut i: usize = 0;
    while i < current.len()
        invariant
            i <= current@.len(),
            texts(added@) == new_items(texts(known@), texts(current@).take(i as int)),
        decreases current@.len() - i,
    {
        let ghost prefix = texts(current@).take(i + 1);
        assert(prefix.drop_last() == texts(current@).take(i as int));
        assert(prefix.last() == current@[i as int]@);
        if !holds_source(known, current[i].as_str()) {
            let ghost before = added@;
            added.push(current[i].clone());
            assert(texts(added@) == texts(before).push(current@[i as int]@));
        }
        i += 1;
    }
    assert(texts(current@).take(current@.len() as int) == texts(current@));
    added
}

/// Whether two source inventories differ.
pub fn sources_differ(known: &Vec<String>, current: &Vec<String>) -> (r: bool)
    ensures
        r == (texts(known@) != texts(current@)),
{
    if known.len() != current.len() {
        assert(texts(known@).len() != texts(current@).len());
        return true;
    }
    let mut i: usize = 0;
    while i < known.len()
        invariant
            known@.len() == current@.len(),
            i <= known@.len(),
            forall|j: int| 0 <= j < i ==> texts(known@)[j] == texts(current@)[j],
        decreases known@.len() - i,
    {
        if !same_text(known[i].as_str(), current[i].as_str()) {
            assert(texts(known@)[i as int] != texts(current@)[i as int]);
            return true;
        }
        i += 1;
    }
    assert(texts(known@) == texts(current@));
    false
}

// ----- Supervising the server -----

/// What the serve loop does after the Dioxus server exits: it succeeds only when the server
/// succeeded after the catalog was ready.
pub fn server_exit_outcome(success: bool, ready: bool, status: &str) -> (r: Result<(), String>)
    ensures
        r is Ok <==> (success && ready),
        r matches Err(message) ==> message@ == "Dioxus server exited (exit "@ + status@ + "; ready: "@ + bool_text(ready) + ")"@,
{
    if success && ready {
        return Ok(());
    }
    let mut message = "Dioxus server exited (exit ".to_owned();
    append_text(&mut message, status);
    append_text(&mut message, "; ready: ");
    append_text(&mut message, bool_to_text(ready).as_str());
    append_text(&mut message, ")");
    Err(message)
}

/// What a readiness probe means: ready when the catalog answered, still waiting before the
/// deadline, and a failure after it.
pub fn readiness(responds: bool, before_deadline: bool, timeout_seconds: u64) -> (r: Result<bool, String>)
    ensures
        responds ==> r == Ok::<bool, String>(true),
        !responds && before_deadline ==> r == Ok::<bool, String>(false),
        !responds && !before_deadline ==> (r matches Err(message) && message@
            == "catalog did not become HTTP-ready within "@ + decimal(timeout_seconds as nat) + " seconds"@),
{
    if responds {
        return Ok(true);
    }
    if before_deadline {
        return Ok(false);
    }
    let mut message = "catalog did not become HTTP-ready within ".to_owned();
    append_text(&mut message, decimal_text(timeout_seconds).as_str());
    append_text(&mut message, " seconds");
    Err(message)
}

/// A lower-case hexadecimal digit.
pub open spec fn hex_digit(d: int) -> char {
    if d < 10 {
        (('0' as int) + d) as char
    } else {
        (('a' as int) + d - 10) as char
    }
}

/// How a character appears inside a JSON string: quote and backslash escaped with a
/// backslash; backspace, tab, line feed, form feed and carriage return as `\b`, `\t`,
/// `\n`, `\f`, `\r`; every other character below U+0020 as `\u00` and two lower-case
/// hexadecimal digits; every other character as itself.
pub open spec fn json_escaped_char(c: char) -> Seq<char> {
    let v = c as int;
    if c == '"' {
        seq!['\\', '"']
    } else if c == '\\' {
        seq!['\\', '\\']
    } else if v == 0x08 {
        seq!['\\', 'b']
    } else if v == 0x09 {
        seq!['\\', 't']
    } else if v == 0x0a {
        seq!['\\', 'n']
    } else if v == 0x0c {
        seq!['\\', 'f']
    } else if v == 0x0d {
        seq!['\\', 'r']
    } else if v < 0x20 {
        seq!['\\', 'u', '0', '0', hex_digit(v / 16), hex_digit(v % 16)]
    } else {
        seq![c]
    }
}

/// The characters of a text, each as it appears inside a JSON string.
pub open spec fn json_escaped(text: Seq<char>) -> Seq<char>
    decreases text.len(),
{
    if text.len() == 0 {
        seq![]
    } else {
        json_escaped(text.drop_last()) + json_escaped_char(text.last())
    }
}

/// A text as a JSON string literal: escaped, between double quotes.
pub open spec fn json_string_literal(text: Seq<char>) -> Seq<char> {
    seq!['"'] + json_escaped(text) + seq!['"']
}

/// `serde_json::Value::String` written by its `Display` (the compact formatter): the text
/// between double quotes, with the escapes of serde_json's `ESCAPE` table.
#[verifier::external_body]
fn json_string(text: &str) -> (r: String)
    ensures
        r@ == json_string_literal(text@),
{
    serde_json::Value::String(text.to_owned()).to_string()
}

/// The line announcing that the catalog is ready: a JSON event for tools, or a message for
/// people.
pub fn ready_announcement(ready_json: bool, url: &str) -> (r: String)
    ensures
        r@ == if ready_json {
            "{\"event\":\"ready\",\"url\":"@ + json_string_literal(url@) + "}"@
        } else {
            "dx-story: ready at "@ + url@
        },
{
    if ready_json {
        let mut line = "{\"event\":\"ready\",\"url\":".to_owned();
        append_text(&mut line, json_string(url).as_str());
        append_text(&mut line, "}");
        line
    } else {
        let mut line = "dx-story: ready at ".to_owned();
        append_text(&mut line, url);
        line
    }
}

} // verus!
