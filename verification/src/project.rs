//! Catalog project settings: configuration defaults, and the choice and validation of the
//! package, example, features and watched directories that the command-line tool serves.
use vstd::prelude::*;
use crate::text::{
    append_text, chars_of, lemma_text_lt_irreflexive, lemma_text_lt_transitive, same_text, text_lt, trim, trim_chars,
};

verus! {

/// The characters of each string, in order.
pub open spec fn texts(v: Seq<String>) -> Seq<Seq<char>> {
    v.map_values(|s: String| s@)
}

/// The name of the configuration file.
pub fn configuration_file_name() -> (r: &'static str)
    ensures
        r@ == "dx-story.toml"@,
{
    "dx-story.toml"
}

/// The catalog package's directory, relative to the configuration: the configuration's own
/// directory.
pub fn default_catalog_path() -> (r: String)
    ensures
        r@ == "."@,
{
    ".".to_owned()
}

/// The catalog example unless configured otherwise.
pub fn default_example() -> (r: String)
    ensures
        r@ == "component-catalog"@,
{
    "component-catalog".to_owned()
}

/// The features enabled for the catalog unless configured otherwise.
pub fn default_features() -> (r: Vec<String>)
    ensures
        r@.len() == 1,
        r@[0]@ == "component-catalog"@,
{
    let mut features = Vec::new();
    features.push("component-catalog".to_owned());
    features
}

/// Cargo runs with `--locked` unless configured otherwise.
pub fn default_locked() -> (r: bool)
    ensures
        r,
{
    true
}

/// The port the catalog is served on unless configured otherwise.
pub fn default_port() -> (r: u16)
    ensures
        r == 8080,
{
    8080
}

/// Whether the browser opens when the server starts.
#[derive(Clone, Copy, Debug, PartialEq, Eq)]
pub enum OpenBrowser {
    No,
    Yes,
}

impl OpenBrowser {
    /// `true` for `Yes`.
    pub fn as_bool(self) -> (r: bool)
        ensures
            r == (self == OpenBrowser::Yes),
    {
        match self {
            OpenBrowser::Yes => true,
            OpenBrowser::No => false,
        }
    }

    /// The setting that a configuration boolean selects.
    pub fn from_bool(open: bool) -> (r: OpenBrowser)
        ensures
            r.as_bool_spec() == open,
    {
        if open {
            OpenBrowser::Yes
        } else {
            OpenBrowser::No
        }
    }

    pub open spec fn as_bool_spec(self) -> bool {
        self == OpenBrowser::Yes
    }
}

/// Server settings: the port and whether the browser opens.
#[derive(Clone, Copy, Debug, PartialEq, Eq)]
pub struct ServeConfiguration {
    pub port: u16,
    pub open: OpenBrowser,
}

impl Default for ServeConfiguration {
    /// Port 8080, browser closed.
    fn default() -> (r: Self)
        ensures
            r.port == 8080,
            r.open == OpenBrowser::No,
    {
        ServeConfiguration { port: default_port(), open: OpenBrowser::No }
    }
}

// ----- Choosing the package and example -----

/// `i` is the position of the first of `names` equal to `name`.
pub open spec fn is_first_index(names: Seq<Seq<char>>, name: Seq<char>, i: int) -> bool {
    &&& 0 <= i < names.len()
    &&& names[i] == name
    &&& forall|j: int| 0 <= j < i ==> #[trigger] names[j] != name
}

/// No name in `names` equals `name`.
pub open spec fn is_absent(names: Seq<Seq<char>>, name: Seq<char>) -> bool {
    forall|j: int| 0 <= j < names.len() ==> #[trigger] names[j] != name
}

/// The position of the first of `names` equal to `name`.
pub fn position_of(names: &Vec<String>, name: &str) -> (r: Option<usize>)
    ensures
        match r {
            Some(i) => is_first_index(texts(names@), name@, i as int),
            None => is_absent(texts(names@), name@),
        },
{
    let ghost views = texts(names@);
    let mut i: usize = 0;
    while i < names.len()
        invariant
            i <= names@.len(),
            views == texts(names@),
            forall|j: int| 0 <= j < i ==> #[trigger] views[j] != name@,
        decreases names@.len() - i,
    {
        assert(views[i as int] == names@[i as int]@);
        if same_text(names[i].as_str(), name) {
            return Some(i);
        }
        i += 1;
    }
    None
}

/// The message for a workspace without the named package.
pub open spec fn missing_package_message(name: Seq<char>) -> Seq<char> {
    "workspace has no package "@ + name
}

/// The position of the workspace package named `name` among the workspace packages'
/// names.
pub fn select_package(package_names: &Vec<String>, name: &str) -> (r: Result<usize, String>)
    ensures
        match r {
            Ok(i) => is_first_index(texts(package_names@), name@, i as int),
            Err(message) => is_absent(texts(package_names@), name@) && message@
                == missing_package_message(name@),
        },
{
    match position_of(package_names, name) {
        Some(i) => Ok(i),
        None => {
            let mut message = "workspace has no package ".to_owned();
            append_text(&mut message, name);
            Err(message)
        },
    }
}

/// Why no example could be chosen.
#[derive(Clone, Debug, PartialEq, Eq)]
pub enum ExampleError {
    /// The configured example does not exist.
    Missing { package: String, example: String },
    /// Nothing is configured and the package has several examples, none of them
    /// `component-catalog`.
    Ambiguous { package: String },
}

/// `i` is the example chosen among a package's examples: the configured one; otherwise
/// the conventional `component-catalog`; otherwise the only example.
pub open spec fn is_chosen_example(examples: Seq<Seq<char>>, configured: Option<Seq<char>>, i: int) -> bool {
    match configured {
        Some(name) => is_first_index(examples, name, i),
        None => is_first_index(examples, "component-catalog"@, i) || (is_absent(
            examples,
            "component-catalog"@,
        ) && examples.len() == 1 && i == 0),
    }
}

/// No example can be chosen: the configured one is missing, or nothing is configured and
/// there are several examples (or none), none of them `component-catalog`.
pub open spec fn no_example_chosen(examples: Seq<Seq<char>>, configured: Option<Seq<char>>) -> bool {
    match configured {
        Some(name) => is_absent(examples, name),
        None => is_absent(examples, "component-catalog"@) && examples.len() != 1,
    }
}

/// The configured example name, as text.
pub open spec fn configured_text(configured: Option<&str>) -> Option<Seq<char>> {
    match configured {
        Some(c) => Some(c@),
        None => None,
    }
}

/// The message of an example error.
pub open spec fn example_error_message(error: ExampleError) -> Seq<char> {
    match error {
        ExampleError::Missing { package, example } => "package "@ + package@ + " has no example "@
            + example@,
        ExampleError::Ambiguous { package } => "package "@ + package@
            + " must have one example or set catalog.example explicitly"@,
    }
}

impl ExampleError {
    /// The message of this error.
    pub fn message(&self) -> (r: String)
        ensures
            r@ == example_error_message(*self),
    {
        match self {
            ExampleError::Missing { package, example } => {
                let mut m = "package ".to_owned();
                append_text(&mut m, package.as_str());
                append_text(&mut m, " has no example ");
                append_text(&mut m, example.as_str());
                m
            },
            ExampleError::Ambiguous { package } => {
                let mut m = "package ".to_owned();
                append_text(&mut m, package.as_str());
                append_text(&mut m, " must have one example or set catalog.example explicitly");
                m
            },
        }
    }
}

/// The position of the catalog example among the package's examples.
pub fn select_example(package: &str, examples: &Vec<String>, configured: Option<&str>) -> (r: Result<usize, ExampleError>)
    ensures
        match r {
            Ok(i) => is_chosen_example(texts(examples@), configured_text(configured), i as int),
            Err(e) => no_example_chosen(texts(examples@), configured_text(configured)) && match e {
                ExampleError::Missing { package: p, example: x } => {
                    &&& configured matches Some(c)
                    &&& x@ == c@
                    &&& p@ == package@
                },
                ExampleError::Ambiguous { package: p } => configured is None && p@ == package@,
            },
        },
{
    match configured {
        Some(name) => match position_of(examples, name) {
            Some(i) => Ok(i),
            None => Err(ExampleError::Missing { package: package.to_owned(), example: name.to_owned() }),
        },
        None => {
            proof {
                reveal_strlit("component-catalog");
            }
            match position_of(examples, "component-catalog") {
                Some(i) => Ok(i),
                None => if examples.len() == 1 {
                    Ok(0)
                } else {
                    Err(ExampleError::Ambiguous { package: package.to_owned() })
                },
            }
        },
    }
}

// ----- Features -----

/// The most features a catalog may enable.
pub const FEATURE_COUNT_MAX: usize = 64;

/// Why the catalog features were rejected.
#[derive(Clone, Debug, PartialEq, Eq)]
pub enum FeatureError {
    /// More than 64 features.
    TooMany,
    /// The package does not declare a feature.
    Unknown { package: String, feature: String },
}

/// `declared` holds every one of `features`.
pub open spec fn all_declared(features: Seq<Seq<char>>, declared: Seq<Seq<char>>) -> bool {
    forall|i: int| 0 <= i < features.len() ==> declared.contains(#[trigger] features[i])
}

/// `i` is the position of the first of `features` that `declared` does not hold.
pub open spec fn is_first_undeclared(features: Seq<Seq<char>>, declared: Seq<Seq<char>>, i: int) -> bool {
    &&& 0 <= i < features.len()
    &&& !declared.contains(features[i])
    &&& forall|j: int| 0 <= j < i ==> declared.contains(#[trigger] features[j])
}

pub(crate) fn holds_text(items: &Vec<String>, item: &str) -> (r: bool)
    ensures
        r == texts(items@).contains(item@),
{
    match position_of(items, item) {
        Some(i) => {
            assert(texts(items@)[i as int] == item@);
            true
        },
        None => false,
    }
}

/// Accepts the catalog features when there are at most 64 and the package declares each.
pub fn validate_features(package: &str, declared: &Vec<String>, features: &Vec<String>) -> (r: Result<(), FeatureError>)
    ensures
        match r {
            Ok(()) => features@.len() <= 64 && all_declared(texts(features@), texts(declared@)),
            Err(FeatureError::TooMany) => features@.len() > 64,
            Err(FeatureError::Unknown { package: p, feature }) => {
                &&& features@.len() <= 64
                &&& p@ == package@
                &&& exists|i: int| is_first_undeclared(texts(features@), texts(declared@), i) && feature@ == #[trigger] features@[i]@
            },
        },
{
    if features.len() > FEATURE_COUNT_MAX {
        return Err(FeatureError::TooMany);
    }
    let ghost fs = texts(features@);
    let ghost ds = texts(declared@);
    let mut i: usize = 0;
    while i < features.len()
        invariant
            i <= features@.len(),
            features@.len() <= 64,
            fs == texts(features@),
            ds == texts(declared@),
            forall|j: int| 0 <= j < i ==> ds.contains(#[trigger] fs[j]),
        decreases features@.len() - i,
    {
        assert(fs[i as int] == features@[i as int]@);
        if !holds_text(declared, features[i].as_str()) {
            assert(is_first_undeclared(fs, ds, i as int));
            let feature = features[i].clone();
            assert(feature@ == features@[i as int]@);
            return Err(FeatureError::Unknown { package: package.to_owned(), feature });
        }
        i += 1;
    }
    Ok(())
}

/// The message of a feature error.
pub open spec fn feature_error_message(error: FeatureError) -> Seq<char> {
    match error {
        FeatureError::TooMany => "at most 64 catalog features are supported"@,
        FeatureError::Unknown { package, feature } => "package "@ + package@ + " has no feature "@
            + feature@,
    }
}

impl FeatureError {
    /// The message of this error.
    pub fn message(&self) -> (r: String)
        ensures
            r@ == feature_error_message(*self),
    {
        match self {
            FeatureError::TooMany => "at most 64 catalog features are supported".to_owned(),
            FeatureError::Unknown { package, feature } => {
                let mut m = "package ".to_owned();
                append_text(&mut m, package.as_str());
                append_text(&mut m, " has no feature ");
                append_text(&mut m, feature.as_str());
                m
            },
        }
    }
}

/// The message when cargo resolved the catalog without a feature that its example
/// requires.
pub open spec fn missing_required_feature_message(example: Seq<char>, feature: Seq<char>) -> Seq<char> {
    "example "@ + example + " requires feature "@ + feature
}

/// Accepts the example's required features when cargo resolved the catalog package with
/// each of them enabled (`enabled` is `None` when cargo did not resolve the package).
pub fn validate_required_features(example: &str, required: &Vec<String>, enabled: Option<&Vec<String>>) -> (r: Result<(), String>)
    ensures
        match enabled {
            None => r is Err && r->Err_0@ == "cargo did not resolve the catalog package"@,
            Some(on) => match r {
                Ok(()) => all_declared(texts(required@), texts(on@)),
                Err(message) => {
                    &&& exists|i: int| is_first_undeclared(texts(required@), texts(on@), i) && message@ == missing_required_feature_message(example@, #[trigger] required@[i]@)
                },
            },
        },
{
    let on = match enabled {
        Some(on) => on,
        None => return Err("cargo did not resolve the catalog package".to_owned()),
    };
    let ghost fs = texts(required@);
    let ghost ds = texts(on@);
    let mut i: usize = 0;
    while i < required.len()
        invariant
            i <= required@.len(),
            enabled == Some(on),
            fs == texts(required@),
            ds == texts(on@),
            forall|j: int| 0 <= j < i ==> ds.contains(#[trigger] fs[j]),
        decreases required@.len() - i,
    {
        assert(fs[i as int] == required@[i as int]@);
        if !holds_text(on, required[i].as_str()) {
            assert(is_first_undeclared(fs, ds, i as int));
            let mut m = "example ".to_owned();
            append_text(&mut m, example);
            append_text(&mut m, " requires feature ");
            append_text(&mut m, required[i].as_str());
            assert(m@ == missing_required_feature_message(example@, required@[i as int]@));
            return Err(m);
        }
        i += 1;
    }
    Ok(())
}

// ----- Cargo target arguments -----

/// The cargo target selection shared by `dx serve` and `dx build`.
pub struct TargetSettings {
    pub package: String,
    pub example: String,
    pub features: Vec<String>,
    pub default_features: bool,
    pub locked: bool,
}

/// The texts joined by `separator`.
pub open spec fn joined(parts: Seq<Seq<char>>, separator: Seq<char>) -> Seq<char>
    decreases parts.len(),
{
    if parts.len() == 0 {
        seq![]
    } else if parts.len() == 1 {
        parts[0]
    } else {
        joined(parts.drop_last(), separator) + separator + parts.last()
    }
}

/// The texts joined by `separator`.
pub fn join(parts: &Vec<String>, separator: &str) -> (r: String)
    ensures
        r@ == joined(texts(parts@), separator@),
{
    let ghost views = texts(parts@);
    let mut r = String::new();
    let mut i: usize = 0;
    while i < parts.len()
        invariant
            i <= parts@.len(),
            views == texts(parts@),
            r@ == joined(views.take(i as int), separator@),
        decreases parts@.len() - i,
    {
        assert(views.take(i + 1).drop_last() == views.take(i as int));
        assert(views[i as int] == parts@[i as int]@);
        if i > 0 {
            append_text(&mut r, separator);
        }
        append_text(&mut r, parts[i].as_str());
        i += 1;
    }
    assert(views.take(parts@.len() as int) == views);
    r
}

/// The arguments that select the catalog target: `--web --package P --example E`, then
/// `--no-default-features` unless default features are on, `--features F,G` when features
/// are set, and `--locked` when locked.
pub open spec fn target_arguments_of(settings: TargetSettings) -> Seq<Seq<char>> {
    let base = seq!["--web"@, "--package"@, settings.package@, "--example"@, settings.example@];
    let a = if !settings.default_features {
        base.push("--no-default-features"@)
    } else {
        base
    };
    let b = if settings.features@.len() > 0 {
        a.push("--features"@).push(joined(texts(settings.features@), ","@))
    } else {
        a
    };
    if settings.locked {
        b.push("--locked"@)
    } else {
        b
    }
}

/// The arguments that select the catalog target.
pub fn target_arguments(settings: &TargetSettings) -> (r: Vec<String>)
    ensures
        texts(r@) == target_arguments_of(*settings),
{
    let mut arguments: Vec<String> = Vec::new();
    arguments.push("--web".to_owned());
    arguments.push("--package".to_owned());
    arguments.push(settings.package.clone());
    arguments.push("--example".to_owned());
    arguments.push(settings.example.clone());
    let ghost base = seq!["--web"@, "--package"@, settings.package@, "--example"@, settings.example@];
    assert(texts(arguments@) == base);
    if !settings.default_features {
        arguments.push("--no-default-features".to_owned());
    }
    let ghost a = texts(arguments@);
    if settings.features.len() > 0 {
        arguments.push("--features".to_owned());
        arguments.push(join(&settings.features, ","));
        assert(texts(arguments@) == a.push("--features"@).push(joined(texts(settings.features@), ","@)));
    }
    let ghost b = texts(arguments@);
    if settings.locked {
        arguments.push("--locked".to_owned());
        assert(texts(arguments@) == b.push("--locked"@));
    }
    arguments
}

// ----- Watched directories -----

/// The component sequences of paths.
pub open spec fn path_texts(paths: Seq<Vec<String>>) -> Seq<Seq<Seq<char>>> {
    paths.map_values(|p: Vec<String>| texts(p@))
}

/// `parent` is `path` or one of its ancestors: its components begin `path`'s.
pub open spec fn is_within(path: Seq<Seq<char>>, parent: Seq<Seq<char>>) -> bool {
    parent.len() <= path.len() && path.take(parent.len() as int) == parent
}

/// Of paths in order, the positions of those kept when each path inside the last kept one
/// is dropped.
pub open spec fn kept_positions(paths: Seq<Seq<Seq<char>>>) -> Seq<int>
    decreases paths.len(),
{
    if paths.len() == 0 {
        seq![]
    } else {
        let kept = kept_positions(paths.drop_last());
        if kept.len() == 0 || !is_within(paths.last(), paths[kept.last()]) {
            kept.push(paths.len() - 1)
        } else {
            kept
        }
    }
}

proof fn lemma_kept_positions_range(paths: Seq<Seq<Seq<char>>>)
    ensures
        forall|k: int| 0 <= k < kept_positions(paths).len() ==> 0 <= #[trigger] kept_positions(paths)[k] < paths.len(),
    decreases paths.len(),
{
    if paths.len() > 0 {
        let rest = paths.drop_last();
        lemma_kept_positions_range(rest);
        let kept = kept_positions(rest);
        let all = kept_positions(paths);
        assert(all == kept || all == kept.push(paths.len() - 1));
        assert forall|k: int| 0 <= k < all.len() implies 0 <= #[trigger] all[k] < paths.len() by {
            if k < kept.len() {
                assert(all[k] == kept[k]);
            }
        }
    }
}

proof fn lemma_kept_positions_increase(paths: Seq<Seq<Seq<char>>>)
    ensures
        forall|a: int, b: int| 0 <= a < b < kept_positions(paths).len() ==> #[trigger] kept_positions(paths)[a] < #[trigger] kept_positions(paths)[b],
    decreases paths.len(),
{
    if paths.len() > 0 {
        let rest = paths.drop_last();
        lemma_kept_positions_increase(rest);
        lemma_kept_positions_range(rest);
        let kept = kept_positions(rest);
        let all = kept_positions(paths);
        assert(all == kept || all == kept.push(paths.len() - 1));
        assert forall|a: int, b: int| 0 <= a < b < all.len() implies #[trigger] all[a] < #[trigger] all[b] by {
            assert(all[a] == kept[a]);
            if b < kept.len() {
                assert(all[b] == kept[b]);
            } else {
                assert(kept[a] < rest.len());
            }
        }
    }
}

proof fn lemma_path_covered(paths: Seq<Seq<Seq<char>>>, i: int)
    requires
        0 <= i < paths.len(),
    ensures
        exists|k: int| 0 <= k < kept_positions(paths).len() && is_within(paths[i], paths[#[trigger] kept_positions(paths)[k]]),
    decreases paths.len(),
{
    let rest = paths.drop_last();
    let kept = kept_positions(rest);
    let all = kept_positions(paths);
    lemma_kept_positions_range(rest);
    if i < paths.len() - 1 {
        lemma_path_covered(rest, i);
        let k = choose|k: int| 0 <= k < kept.len() && is_within(rest[i], rest[#[trigger] kept[k]]);
        assert(all[k] == kept[k]);
        assert(rest[kept[k]] == paths[kept[k]]);
    } else if all.len() > kept.len() {
        assert(all[kept.len() as int] == paths.len() - 1);
        assert(paths[i].take(paths[i].len() as int) == paths[i]);
    } else {
        let k = kept.len() - 1;
        assert(all[k] == kept[k]);
        assert(rest[kept[k]] == paths[kept[k]]);
    }
}

/// Each watched directory lies inside one of the directories kept for it; the kept
/// positions are positions of the input, in increasing order.
pub proof fn lemma_kept_directories_cover(paths: Seq<Seq<Seq<char>>>, i: int)
    requires
        0 <= i < paths.len(),
    ensures
        forall|a: int, b: int| 0 <= a < b < kept_positions(paths).len() ==> #[trigger] kept_positions(paths)[a] < #[trigger] kept_positions(paths)[b],
        forall|k: int| 0 <= k < kept_positions(paths).len() ==> 0 <= #[trigger] kept_positions(paths)[k] < paths.len(),
        exists|k: int| 0 <= k < kept_positions(paths).len() && is_within(paths[i], paths[#[trigger] kept_positions(paths)[k]]),
{
    lemma_kept_positions_increase(paths);
    lemma_kept_positions_range(paths);
    lemma_path_covered(paths, i);
}

/// Path order: components compared in turn by text order, an ancestor before the paths
/// inside it (the order of `Path`'s components for canonical paths).
pub open spec fn path_lt(a: Seq<Seq<char>>, b: Seq<Seq<char>>) -> bool
    decreases a.len(),
{
    if a.len() == 0 {
        b.len() > 0
    } else if b.len() == 0 {
        false
    } else if a[0] != b[0] {
        text_lt(a[0], b[0])
    } else {
        path_lt(a.drop_first(), b.drop_first())
    }
}

/// The paths are strictly ascending in path order, as a sorted set gives them.
pub open spec fn strictly_ascending(paths: Seq<Seq<Seq<char>>>) -> bool {
    forall|i: int, j: int| 0 <= i < j < paths.len() ==> path_lt(#[trigger] paths[i], #[trigger] paths[j])
}

proof fn lemma_within_transitive(x: Seq<Seq<char>>, y: Seq<Seq<char>>, z: Seq<Seq<char>>)
    requires
        is_within(x, y),
        is_within(y, z),
    ensures
        is_within(x, z),
{
    assert(x.take(z.len() as int) =~= z) by {
        assert forall|m: int| 0 <= m < z.len() implies x.take(z.len() as int)[m] == z[m] by {
            assert(x.take(y.len() as int)[m] == y[m]);
            assert(y.take(z.len() as int)[m] == z[m]);
        }
    }
}

proof fn lemma_within_not_before(c: Seq<Seq<char>>, a: Seq<Seq<char>>)
    requires
        is_within(c, a),
    ensures
        !path_lt(c, a),
    decreases a.len(),
{
    if a.len() > 0 {
        assert(c[0] == a[0]) by {
            assert(c.take(a.len() as int)[0] == a[0]);
        }
        assert(c.drop_first().take(a.len() - 1) =~= a.drop_first()) by {
            assert forall|m: int| 0 <= m < a.len() - 1 implies c.drop_first().take(a.len() - 1)[m] == a.drop_first()[m] by {
                assert(c.take(a.len() as int)[m + 1] == a[m + 1]);
            }
        }
        lemma_within_not_before(c.drop_first(), a.drop_first());
    }
}

/// In path order, a path between an ancestor and a path inside it lies inside that ancestor.
proof fn lemma_between_is_within(a: Seq<Seq<char>>, b: Seq<Seq<char>>, c: Seq<Seq<char>>)
    requires
        is_within(c, a),
        path_lt(a, b),
        path_lt(b, c),
    ensures
        is_within(b, a),
    decreases a.len(),
{
    if a.len() == 0 {
        assert(b.take(0) =~= a);
    } else {
        assert(c[0] == a[0]) by {
            assert(c.take(a.len() as int)[0] == a[0]);
        }
        assert(b.len() > 0 && c.len() > 0);
        if a[0] != b[0] {
            assert(text_lt(a[0], b[0]));
            assert(text_lt(b[0], c[0]));
            lemma_text_lt_transitive(a[0], b[0], a[0]);
            lemma_text_lt_irreflexive(a[0]);
        } else {
            let a1 = a.drop_first();
            let b1 = b.drop_first();
            let c1 = c.drop_first();
            assert(c1.take(a1.len() as int) =~= a1) by {
                assert forall|m: int| 0 <= m < a1.len() implies c1.take(a1.len() as int)[m] == a1[m] by {
                    assert(c.take(a.len() as int)[m + 1] == a[m + 1]);
                }
            }
            lemma_between_is_within(a1, b1, c1);
            assert(b.take(a.len() as int) =~= a) by {
                assert forall|m: int| 0 <= m < a.len() implies b.take(a.len() as int)[m] == a[m] by {
                    if m > 0 {
                        assert(b1.take(a1.len() as int)[m - 1] == a1[m - 1]);
                    }
                }
            }
        }
    }
}

proof fn lemma_kept_not_nested(paths: Seq<Seq<Seq<char>>>)
    requires
        strictly_ascending(paths),
    ensures
        forall|a: int, b: int| 0 <= a < b < kept_positions(paths).len() ==> !is_within(
            paths[#[trigger] kept_positions(paths)[b]],
            paths[#[trigger] kept_positions(paths)[a]],
        ),
    decreases paths.len(),
{
    if paths.len() > 0 {
        let n = paths.len() - 1;
        let rest = paths.drop_last();
        assert forall|i: int, j: int| 0 <= i < j < rest.len() implies path_lt(#[trigger] rest[i], #[trigger] rest[j]) by {
            assert(rest[i] == paths[i] && rest[j] == paths[j]);
        }
        lemma_kept_not_nested(rest);
        lemma_kept_positions_range(rest);
        lemma_kept_positions_increase(rest);
        let kept = kept_positions(rest);
        let all = kept_positions(paths);
        assert forall|a: int, b: int| 0 <= a < b < all.len() implies !is_within(
            paths[#[trigger] all[b]],
            paths[#[trigger] all[a]],
        ) by {
            assert(all[a] == kept[a]);
            assert(rest[kept[a]] == paths[kept[a]]);
            if b < kept.len() {
                assert(all[b] == kept[b]);
                assert(rest[kept[b]] == paths[kept[b]]);
            } else {
                lemma_new_kept_not_nested(paths, kept, a);
            }
        }
    }
}

proof fn lemma_new_kept_not_nested(paths: Seq<Seq<Seq<char>>>, kept: Seq<int>, a: int)
    requires
        strictly_ascending(paths),
        paths.len() > 0,
        kept == kept_positions(paths.drop_last()),
        kept_positions(paths) == kept.push(paths.len() - 1),
        0 <= a < kept.len(),
        forall|k: int| 0 <= k < kept.len() ==> 0 <= #[trigger] kept[k] < paths.len() - 1,
        forall|x: int, y: int| 0 <= x < y < kept.len() ==> #[trigger] kept[x] < #[trigger] kept[y],
        forall|x: int, y: int| 0 <= x < y < kept.len() ==> !is_within(
            paths.drop_last()[#[trigger] kept[y]],
            paths.drop_last()[#[trigger] kept[x]],
        ),
    ensures
        !is_within(paths[paths.len() - 1], paths[kept[a]]),
{
    let n = paths.len() - 1;
    let rest = paths.drop_last();
    let last = kept[kept.len() - 1];
    assert(rest[last] == paths[last]);
    assert(rest[kept[a]] == paths[kept[a]]);
    assert(!is_within(paths[n], paths[last]));
    if a < kept.len() - 1 && is_within(paths[n], paths[kept[a]]) {
        assert(kept[a] < last);
        assert(path_lt(paths[kept[a]], paths[last]));
        assert(path_lt(paths[last], paths[n]));
        lemma_between_is_within(paths[kept[a]], paths[last], paths[n]);
        assert(!is_within(rest[kept[kept.len() - 1]], rest[kept[a]]));
    }
}

/// For watched directories in path order, the kept ones are exactly the outermost: no kept
/// directory lies inside another of the given directories, and (by
/// `lemma_kept_directories_cover`) every given directory lies inside a kept one.
pub proof fn lemma_kept_directories_are_outermost(paths: Seq<Seq<Seq<char>>>, k: int, j: int)
    requires
        strictly_ascending(paths),
        0 <= k < kept_positions(paths).len(),
        0 <= j < paths.len(),
        j != kept_positions(paths)[k],
    ensures
        !is_within(paths[kept_positions(paths)[k]], paths[j]),
{
    let kept = kept_positions(paths);
    lemma_kept_not_nested(paths);
    lemma_kept_positions_range(paths);
    lemma_kept_positions_increase(paths);
    lemma_path_covered(paths, j);
    let p = kept[k];
    if is_within(paths[p], paths[j]) {
        let t = choose|t: int| 0 <= t < kept.len() && is_within(paths[j], paths[#[trigger] kept[t]]);
        let q = kept[t];
        lemma_within_transitive(paths[p], paths[j], paths[q]);
        if t == k {
            lemma_within_not_before(paths[j], paths[p]);
            lemma_within_not_before(paths[p], paths[j]);
            if j < p {
                assert(path_lt(paths[j], paths[p]));
            } else {
                assert(path_lt(paths[p], paths[j]));
            }
        } else if t < k {
            assert(!is_within(paths[kept[k]], paths[kept[t]]));
        } else {
            assert(p < q);
            assert(path_lt(paths[p], paths[q]));
            lemma_within_not_before(paths[p], paths[q]);
        }
    }
}

fn is_within_path(path: &Vec<String>, parent: &Vec<String>) -> (r: bool)
    ensures
        r == is_within(texts(path@), texts(parent@)),
{
    if parent.len() > path.len() {
        return false;
    }
    let mut i: usize = 0;
    while i < parent.len()
        invariant
            parent@.len() <= path@.len(),
            i <= parent@.len(),
            texts(path@).take(i as int) == texts(parent@).take(i as int),
        decreases parent@.len() - i,
    {
        if !same_text(path[i].as_str(), parent[i].as_str()) {
            assert(texts(path@).take(parent@.len() as int)[i as int] != texts(parent@)[i as int]);
            return false;
        }
        assert(texts(path@).take(i + 1) == texts(path@).take(i as int).push(path@[i as int]@));
        assert(texts(parent@).take(i + 1) == texts(parent@).take(i as int).push(parent@[i as int]@));
        i += 1;
    }
    assert(texts(parent@).take(parent@.len() as int) == texts(parent@));
    true
}

/// The most source directories a catalog may watch.
pub const SOURCE_DIRECTORY_COUNT_MAX: usize = 64;

/// Of the canonical watched directories in path order, the positions of those that are not
/// inside an earlier kept one; there must be between 1 and 64 of them.
pub fn minimal_directories(paths: &Vec<Vec<String>>) -> (r: Result<Vec<usize>, String>)
    ensures
        match r {
            Ok(kept) => kept@.map_values(|k: usize| k as int) == kept_positions(path_texts(paths@))
                && 1 <= kept@.len() <= 64,
            Err(message) => !(1 <= kept_positions(path_texts(paths@)).len() <= 64) && message@
                == "catalog must have between 1 and 64 watched source directories"@,
        },
{
    let ghost views = path_texts(paths@);
    let mut kept: Vec<usize> = Vec::new();
    let mut i: usize = 0;
    while i < paths.len()
        invariant
            i <= paths@.len(),
            views == path_texts(paths@),
            kept@.map_values(|k: usize| k as int) == kept_positions(views.take(i as int)),
            forall|k: int| 0 <= k < kept@.len() ==> #[trigger] kept@[k] < i,
        decreases paths@.len() - i,
    {
        let ghost prefix = views.take(i + 1);
        assert(prefix.drop_last() == views.take(i as int));
        assert(prefix.last() == texts(paths@[i as int]@));
        let keep = if kept.len() == 0 {
            true
        } else {
            let last = kept[kept.len() - 1];
            assert(prefix[last as int] == texts(paths@[last as int]@));
            !is_within_path(&paths[i], &paths[last])
        };
        if keep {
            kept.push(i);
            assert(kept@.map_values(|k: usize| k as int) == kept_positions(views.take(i as int)).push(i as int));
        }
        i += 1;
    }
    assert(views.take(paths@.len() as int) == views);
    if kept.len() == 0 || kept.len() > SOURCE_DIRECTORY_COUNT_MAX {
        return Err("catalog must have between 1 and 64 watched source directories".to_owned());
    }
    Ok(kept)
}

// ----- Default source directories -----

/// A build target of a package, as cargo reports it: its kind, and the directory of its
/// root source file when that file has one.
#[derive(Clone, Debug, PartialEq, Eq)]
pub struct SourceTarget {
    pub custom_build: bool,
    pub test: bool,
    pub bench: bool,
    pub directory: Option<Vec<String>>,
}

/// A package of the resolved workspace, as far as source discovery reads it: whether it is
/// local (no registry or git source) and reachable from the catalog package, its root, which
/// of its `src`, `dev` and `examples` directories exist, and its targets.
#[derive(Clone, Debug, PartialEq, Eq)]
pub struct SourcePackage {
    pub local: bool,
    pub reachable: bool,
    pub root: Vec<String>,
    pub has_src: bool,
    pub has_dev: bool,
    pub has_examples: bool,
    pub targets: Vec<SourceTarget>,
}

/// The package's existing `src`, `dev` and `examples` directories, in that order.
pub open spec fn conventional_directories(package: SourcePackage) -> Seq<Seq<Seq<char>>> {
    let root = texts(package.root@);
    let with_src: Seq<Seq<Seq<char>>> = if package.has_src {
        seq![root.push("src"@)]
    } else {
        seq![]
    };
    let with_dev = if package.has_dev {
        with_src.push(root.push("dev"@))
    } else {
        with_src
    };
    if package.has_examples {
        with_dev.push(root.push("examples"@))
    } else {
        with_dev
    }
}

/// A target whose source directory is watched: not a build script, test or benchmark, and
/// with a source directory.
pub open spec fn is_watched_target(target: SourceTarget) -> bool {
    !target.custom_build && !target.test && !target.bench && target.directory is Some
}

/// The source directories of the watched targets, in order.
pub open spec fn target_directories(targets: Seq<SourceTarget>) -> Seq<Seq<Seq<char>>>
    decreases targets.len(),
{
    if targets.len() == 0 {
        seq![]
    } else {
        let rest = target_directories(targets.drop_last());
        let target = targets.last();
        if is_watched_target(target) {
            rest.push(texts(target.directory->0@))
        } else {
            rest
        }
    }
}

/// The directories watched by default: for each local package reachable from the catalog
/// package, in order, its conventional directories, then its watched targets' directories.
pub open spec fn discovered_directories(packages: Seq<SourcePackage>) -> Seq<Seq<Seq<char>>>
    decreases packages.len(),
{
    if packages.len() == 0 {
        seq![]
    } else {
        let rest = discovered_directories(packages.drop_last());
        let package = packages.last();
        if package.local && package.reachable {
            rest + conventional_directories(package) + target_directories(package.targets@)
        } else {
            rest
        }
    }
}

fn copy_path(path: &Vec<String>) -> (r: Vec<String>)
    ensures
        texts(r@) == texts(path@),
{
    let copy = path.clone();
    assert(texts(copy@) == texts(path@)) by {
        assert forall|i: int| 0 <= i < copy@.len() implies copy@[i]@ == path@[i]@ by {
            assert(copy@[i] == path@[i]);
        }
    }
    copy
}

fn child_path(root: &Vec<String>, name: &str) -> (r: Vec<String>)
    ensures
        texts(r@) == texts(root@).push(name@),
{
    let mut path = copy_path(root);
    let ghost before = path@;
    path.push(name.to_owned());
    assert(texts(path@) == texts(before).push(name@));
    path
}

fn push_target_directories(directories: &mut Vec<Vec<String>>, targets: &Vec<SourceTarget>)
    ensures
        path_texts(final(directories)@) == path_texts(old(directories)@) + target_directories(targets@),
{
    let ghost start = path_texts(directories@);
    let mut i: usize = 0;
    while i < targets.len()
        invariant
            i <= targets@.len(),
            path_texts(directories@) == start + target_directories(targets@.take(i as int)),
        decreases targets@.len() - i,
    {
        assert(targets@.take(i + 1).drop_last() == targets@.take(i as int));
        let target = &targets[i];
        if !target.custom_build && !target.test && !target.bench {
            match &target.directory {
                Some(directory) => {
                    let ghost before = directories@;
                    directories.push(copy_path(directory));
                    assert(path_texts(directories@) == path_texts(before).push(texts(directory@)));
                },
                None => {},
            }
        }
        i += 1;
    }
    assert(targets@.take(targets@.len() as int) == targets@);
}

/// The directories a catalog watches when none are configured.
pub fn discover_directories(packages: &Vec<SourcePackage>) -> (r: Vec<Vec<String>>)
    ensures
        path_texts(r@) == discovered_directories(packages@),
{
    let mut directories: Vec<Vec<String>> = Vec::new();
    let mut i: usize = 0;
    while i < packages.len()
        invariant
            i <= packages@.len(),
            path_texts(directories@) == discovered_directories(packages@.take(i as int)),
        decreases packages@.len() - i,
    {
        assert(packages@.take(i + 1).drop_last() == packages@.take(i as int));
        let package = &packages[i];
        if package.local && package.reachable {
            let ghost start = path_texts(directories@);
            if package.has_src {
                let ghost before = directories@;
                directories.push(child_path(&package.root, "src"));
                assert(path_texts(directories@) == path_texts(before).push(texts(package.root@).push("src"@)));
            }
            let ghost after_src = path_texts(directories@);
            if package.has_dev {
                let ghost before = directories@;
                directories.push(child_path(&package.root, "dev"));
                assert(path_texts(directories@) == path_texts(before).push(texts(package.root@).push("dev"@)));
            }
            if package.has_examples {
                let ghost before = directories@;
                directories.push(child_path(&package.root, "examples"));
                assert(path_texts(directories@) == path_texts(before).push(texts(package.root@).push("examples"@)));
            }
            assert(path_texts(directories@) == start + conventional_directories(*package));
            push_target_directories(&mut directories, &package.targets);
        }
        i += 1;
    }
    assert(packages@.take(packages@.len() as int) == packages@);
    directories
}

// ----- Preview command-line settings -----

/// The preview tool's configuration as it is checked before serving: the facts the file
/// system gave about the preview path, and the configured values.
pub struct PreviewSettingsFacts {
    pub path_is_directory: bool,
    pub has_manifest: bool,
    pub path_display: String,
    pub package: String,
    pub example: String,
    pub features: Vec<String>,
    pub source_directory_count: usize,
    pub tailwind_input_is_empty: bool,
    pub tailwind_output_is_empty: bool,
}

/// Every feature name has a character other than white space.
pub open spec fn features_are_named(features: Seq<Seq<char>>) -> bool {
    forall|i: int| 0 <= i < features.len() ==> trim_chars(#[trigger] features[i]).len() > 0
}

/// The first failed check of the preview settings, in the order the tool checks them.
pub open spec fn preview_settings_error(facts: PreviewSettingsFacts) -> Option<Seq<char>> {
    if !facts.path_is_directory {
        Some("configured preview path is not a directory: "@ + facts.path_display@)
    } else if !facts.has_manifest {
        Some("configured preview path has no Cargo.toml: "@ + facts.path_display@)
    } else if trim_chars(facts.package@).len() == 0 {
        Some("configured preview package is empty"@)
    } else if trim_chars(facts.example@).len() == 0 {
        Some("configured preview example is empty"@)
    } else if !(facts.features@.len() <= 64 && features_are_named(texts(facts.features@))) {
        Some("configured preview features are invalid"@)
    } else if !(1 <= facts.source_directory_count <= 64) {
        Some("configured source directory count must be between 1 and 64"@)
    } else if facts.tailwind_input_is_empty {
        Some("configured Tailwind input is empty"@)
    } else if facts.tailwind_output_is_empty {
        Some("configured Tailwind output is empty"@)
    } else {
        None
    }
}

fn is_blank(s: &String) -> (r: bool)
    ensures
        r == (trim_chars(s@).len() == 0),
{
    trim(&chars_of(s.as_str())).len() == 0
}

/// Checks the preview settings; the error is the message of the first failed check.
pub fn validate_preview_settings(facts: &PreviewSettingsFacts) -> (r: Result<(), String>)
    ensures
        match preview_settings_error(*facts) {
            Some(message) => r is Err && r->Err_0@ == message,
            None => r is Ok,
        },
{
    if !facts.path_is_directory {
        let mut m = "configured preview path is not a directory: ".to_owned();
        append_text(&mut m, facts.path_display.as_str());
        return Err(m);
    }
    if !facts.has_manifest {
        let mut m = "configured preview path has no Cargo.toml: ".to_owned();
        append_text(&mut m, facts.path_display.as_str());
        return Err(m);
    }
    if is_blank(&facts.package) {
        return Err("configured preview package is empty".to_owned());
    }
    if is_blank(&facts.example) {
        return Err("configured preview example is empty".to_owned());
    }
    let mut named = facts.features.len() <= FEATURE_COUNT_MAX;
    let mut i: usize = 0;
    while named && i < facts.features.len()
        invariant
            i <= facts.features@.len(),
            named ==> facts.features@.len() <= 64,
            named ==> forall|j: int| 0 <= j < i ==> trim_chars(#[trigger] texts(facts.features@)[j]).len() > 0,
            !named ==> !(facts.features@.len() <= 64 && features_are_named(texts(facts.features@))),
        decreases facts.features@.len() - i,
    {
        assert(texts(facts.features@)[i as int] == facts.features@[i as int]@);
        if is_blank(&facts.features[i]) {
            named = false;
        }
        i += 1;
    }
    if !named {
        return Err("configured preview features are invalid".to_owned());
    }
    if facts.source_directory_count == 0 || facts.source_directory_count > SOURCE_DIRECTORY_COUNT_MAX {
        return Err("configured source directory count must be between 1 and 64".to_owned());
    }
    if facts.tailwind_input_is_empty {
        return Err("configured Tailwind input is empty".to_owned());
    }
    if facts.tailwind_output_is_empty {
        return Err("configured Tailwind output is empty".to_owned());
    }
    Ok(())
}

// ----- Packages the catalog depends on -----

/// All dependency edges lead to packages of the graph.
pub open spec fn edges_in_range(edges: Seq<Vec<usize>>) -> bool {
    forall|m: int, j: int| 0 <= m < edges.len() && 0 <= j < edges[m]@.len() ==> (#[trigger] edges[m]@[j]) < edges.len()
}

/// `path` leads from `root` to `n`, each package depending on the next.
pub open spec fn is_path(edges: Seq<Vec<usize>>, root: usize, n: usize, path: Seq<usize>) -> bool {
    &&& path.len() >= 1
    &&& path[0] == root
    &&& path.last() == n
    &&& forall|i: int| 0 <= i < path.len() ==> (#[trigger] path[i]) < edges.len()
    &&& forall|i: int| 0 <= i < path.len() - 1 ==> edges[path[i] as int]@.contains(#[trigger] path[i + 1])
}

/// Package `n` is a dependency of `root`, directly or not, or `root` itself.
pub open spec fn reachable(edges: Seq<Vec<usize>>, root: usize, n: usize) -> bool {
    exists|path: Seq<usize>| #[trigger] is_path(edges, root, n, path)
}

/// The number of packages not yet visited.
pub open spec fn unvisited_count(visited: Seq<bool>) -> nat
    decreases visited.len(),
{
    if visited.len() == 0 {
        0
    } else {
        unvisited_count(visited.drop_last()) + if visited.last() { 0nat } else { 1nat }
    }
}

proof fn lemma_unvisited_count_update(visited: Seq<bool>, i: int)
    requires
        0 <= i < visited.len(),
        !visited[i],
    ensures
        unvisited_count(visited.update(i, true)) + 1 == unvisited_count(visited),
    decreases visited.len(),
{
    let u = visited.update(i, true);
    if i < visited.len() - 1 {
        assert(u.drop_last() == visited.drop_last().update(i, true));
        lemma_unvisited_count_update(visited.drop_last(), i);
    } else {
        assert(u.drop_last() == visited.drop_last());
    }
}

proof fn lemma_closed_set_holds_path(edges: Seq<Vec<usize>>, visited: Seq<bool>, root: usize, n: usize, path: Seq<usize>)
    requires
        visited.len() == edges.len(),
        root < visited.len(),
        visited[root as int],
        forall|m: int, j: int| 0 <= m < edges.len() && visited[m] && 0 <= j < edges[m]@.len() ==> visited[#[trigger] edges[m]@[j] as int],
        is_path(edges, root, n, path),
    ensures
        visited[n as int],
{
    assert forall|i: int| 0 <= i < path.len() implies visited[#[trigger] path[i] as int] by {
        lemma_path_prefix_visited(edges, visited, root, path, i);
    }
    assert(visited[path[path.len() - 1] as int]);
}

proof fn lemma_path_prefix_visited(edges: Seq<Vec<usize>>, visited: Seq<bool>, root: usize, path: Seq<usize>, i: int)
    requires
        visited.len() == edges.len(),
        visited[root as int],
        forall|m: int, j: int| 0 <= m < edges.len() && visited[m] && 0 <= j < edges[m]@.len() ==> visited[#[trigger] edges[m]@[j] as int],
        path.len() >= 1,
        path[0] == root,
        forall|k: int| 0 <= k < path.len() ==> (#[trigger] path[k]) < edges.len(),
        forall|k: int| 0 <= k < path.len() - 1 ==> edges[path[k] as int]@.contains(#[trigger] path[k + 1]),
        0 <= i < path.len(),
    ensures
        visited[path[i] as int],
    decreases i,
{
    if i > 0 {
        lemma_path_prefix_visited(edges, visited, root, path, i - 1);
        let k = i - 1;
        let m = path[k] as int;
        assert(edges[path[k] as int]@.contains(path[k + 1]));
        let j = choose|j: int| 0 <= j < edges[m]@.len() && edges[m]@[j] == path[i];
        assert(visited[edges[m]@[j] as int]);
    }
}

proof fn lemma_pop_keeps(old: Seq<usize>, x: usize)
    requires
        old.len() > 0,
        old.contains(x),
        old.last() != x,
    ensures
        old.drop_last().contains(x),
{
    let q = choose|q: int| 0 <= q < old.len() && old[q] == x;
    assert(q < old.len() - 1);
    assert(old.drop_last()[q] == x);
}

/// Marks the packages reachable from `root` along the dependency edges, `root` included:
/// a worklist walk that expands each package once.
pub fn reachable_packages(edges: &Vec<Vec<usize>>, root: usize) -> (visited: Vec<bool>)
    requires
        root < edges@.len(),
        edges_in_range(edges@),
    ensures
        visited@.len() == edges@.len(),
        forall|n: usize| n < edges@.len() ==> (visited@[n as int] <==> reachable(edges@, root, n)),
{
    let mut visited: Vec<bool> = Vec::new();
    let mut i: usize = 0;
    while i < edges.len()
        invariant
            i <= edges@.len(),
            visited@.len() == i,
            forall|j: int| 0 <= j < i ==> !visited@[j],
        decreases edges@.len() - i,
    {
        visited.push(false);
        i += 1;
    }
    let mut pending: Vec<usize> = Vec::new();
    pending.push(root);
    proof {
        assert(is_path(edges@, root, root, seq![root]));
        assert(pending@[0] == root);
    }
    loop
        invariant
            root < edges@.len(),
            edges_in_range(edges@),
            visited@.len() == edges@.len(),
            forall|p: int| 0 <= p < pending@.len() ==> (#[trigger] pending@[p]) < edges@.len() && reachable(edges@, root, pending@[p]),
            forall|n: usize| n < visited@.len() && #[trigger] visited@[n as int] ==> reachable(edges@, root, n),
            visited@[root as int] || pending@.contains(root),
            forall|m: int, j: int| 0 <= m < edges@.len() && visited@[m] && 0 <= j < edges@[m]@.len() ==> visited@[#[trigger] edges@[m]@[j] as int] || pending@.contains(edges@[m]@[j]),
        ensures
            pending@.len() == 0,
        decreases unvisited_count(visited@), pending@.len(),
    {
        let ghost old_pending = pending@;
        let id = match pending.pop() {
            Some(id) => id,
            None => break,
        };
        proof {
            assert(old_pending.last() == id);
            assert(pending@ == old_pending.drop_last());
            assert(old_pending[old_pending.len() - 1] == id);
            assert(reachable(edges@, root, id));
            if !visited@[root as int] && root != id {
                lemma_pop_keeps(old_pending, root);
            }
            assert forall|m: int, j: int| 0 <= m < edges@.len() && visited@[m] && 0 <= j < edges@[m]@.len() implies visited@[#[trigger] edges@[m]@[j] as int] || edges@[m]@[j] == id || pending@.contains(edges@[m]@[j]) by {
                if !visited@[edges@[m]@[j] as int] && edges@[m]@[j] != id {
                    lemma_pop_keeps(old_pending, edges@[m]@[j]);
                }
            }
        }
        if visited[id] {
            continue;
        }
        let ghost before = visited@;
        visited.set(id, true);
        proof {
            lemma_unvisited_count_update(before, id as int);
        }
        let deps = &edges[id];
        let ghost path = choose|path: Seq<usize>| #[trigger] is_path(edges@, root, id, path);
        let ghost base = pending@;
        let mut d: usize = 0;
        while d < deps.len()
            invariant
                deps@ == edges@[id as int]@,
                d <= deps@.len(),
                edges_in_range(edges@),
                id < edges@.len(),
                is_path(edges@, root, id, path),
                pending@ == base + deps@.take(d as int),
                forall|p: int| 0 <= p < pending@.len() ==> (#[trigger] pending@[p]) < edges@.len() && reachable(edges@, root, pending@[p]),
            decreases deps@.len() - d,
        {
            proof {
                let dep = deps@[d as int];
                assert(deps@.contains(dep));
                let extended = path.push(dep);
                assert(extended[extended.len() - 2] == id);
                assert forall|i: int| 0 <= i < extended.len() - 1 implies edges@[extended[i] as int]@.contains(#[trigger] extended[i + 1]) by {
                    if i < path.len() - 1 {
                        assert(extended[i] == path[i]);
                        assert(extended[i + 1] == path[i + 1]);
                    } else {
                        assert(extended[i] == id);
                    }
                }
                assert(edges@[id as int]@[d as int] < edges@.len());
                assert(is_path(edges@, root, dep, extended));
                assert(deps@.take(d + 1) == deps@.take(d as int).push(dep));
            }
            pending.push(deps[d]);
            d += 1;
        }
        proof {
            assert(deps@.take(deps@.len() as int) == deps@);
            assert forall|m: int, j: int| 0 <= m < edges@.len() && visited@[m] && 0 <= j < edges@[m]@.len() implies visited@[#[trigger] edges@[m]@[j] as int] || pending@.contains(edges@[m]@[j]) by {
                if m == id as int {
                    assert(pending@[base.len() + j] == edges@[m]@[j]);
                } else if !visited@[edges@[m]@[j] as int] && edges@[m]@[j] != id {
                    assert(before[m]);
                    assert(base.contains(edges@[m]@[j]));
                    let q = choose|q: int| 0 <= q < base.len() && base[q] == edges@[m]@[j];
                    assert(pending@[q] == base[q]);
                }
            }
            if !visited@[root as int] {
                assert(root != id);
                let q = choose|q: int| 0 <= q < base.len() && base[q] == root;
                assert(pending@[q] == base[q]);
            }
        }
    }
    proof {
        assert forall|n: usize| n < edges@.len() implies (visited@[n as int] <==> reachable(edges@, root, n)) by {
            if reachable(edges@, root, n) {
                let path = choose|path: Seq<usize>| #[trigger] is_path(edges@, root, n, path);
                lemma_closed_set_holds_path(edges@, visited@, root, n, path);
            }
        }
    }
    visited
}

// ----- Resolving the catalog project -----

/// The catalog features: the configured list, or else the example's required features.
pub fn catalog_features(configured: Option<Vec<String>>, required: &Vec<String>) -> (r: Vec<String>)
    ensures
        match configured {
            Some(features) => r@ == features@,
            None => texts(r@) == texts(required@),
        },
{
    match configured {
        Some(features) => features,
        None => {
            let copy = required.clone();
            assert(texts(copy@) == texts(required@)) by {
                assert forall|i: int| 0 <= i < copy@.len() implies copy@[i]@ == required@[i]@ by {
                    assert(copy@[i] == required@[i]);
                }
            }
            copy
        },
    }
}

/// The position of the Dioxus package among the resolved packages: the first named
/// `dioxus` that the catalog package reaches.
pub fn dioxus_package(names: &Vec<String>, reached: &Vec<bool>) -> (r: Result<usize, String>)
    requires
        names@.len() == reached@.len(),
    ensures
        match r {
            Ok(i) => {
                &&& i < names@.len()
                &&& names@[i as int]@ == "dioxus"@ && reached@[i as int]
                &&& forall|j: int| 0 <= j < i ==> !(names@[j]@ == "dioxus"@ && #[trigger] reached@[j])
            },
            Err(message) => message@ == "catalog package must depend on dioxus"@ && forall|j: int|
                0 <= j < names@.len() ==> !(names@[j]@ == "dioxus"@ && #[trigger] reached@[j]),
        },
{
    let mut i: usize = 0;
    while i < names.len()
        invariant
            names@.len() == reached@.len(),
            i <= names@.len(),
            forall|j: int| 0 <= j < i ==> !(names@[j]@ == "dioxus"@ && #[trigger] reached@[j]),
        decreases names@.len() - i,
    {
        if reached[i] && same_text(names[i].as_str(), "dioxus") {
            return Ok(i);
        }
        i += 1;
    }
    Err("catalog package must depend on dioxus".to_owned())
}

/// `base` joined with `relative`: an absolute `relative` (one that starts at the root)
/// replaces `base`.
pub open spec fn joined_path(base: Seq<Seq<char>>, relative: Seq<Seq<char>>) -> Seq<Seq<char>> {
    if relative.len() > 0 && relative[0] == "/"@ {
        relative
    } else {
        base + relative
    }
}

/// Joins the components of `relative` to those of `base`.
pub fn join_path(base: &Vec<String>, relative: &Vec<String>) -> (r: Vec<String>)
    ensures
        texts(r@) == joined_path(texts(base@), texts(relative@)),
{
    if relative.len() > 0 && same_text(relative[0].as_str(), "/") {
        let copy = relative.clone();
        assert(texts(copy@) == texts(relative@)) by {
            assert forall|i: int| 0 <= i < copy@.len() implies copy@[i]@ == relative@[i]@ by {
                assert(copy@[i] == relative@[i]);
            }
        }
        return copy;
    }
    let mut r = base.clone();
    assert(texts(r@) == texts(base@)) by {
        assert forall|i: int| 0 <= i < r@.len() implies r@[i]@ == base@[i]@ by {
            assert(r@[i] == base@[i]);
        }
    }
    let mut i: usize = 0;
    while i < relative.len()
        invariant
            i <= relative@.len(),
            texts(r@) == texts(base@) + texts(relative@).take(i as int),
        decreases relative@.len() - i,
    {
        let ghost before = r@;
        r.push(relative[i].clone());
        assert(texts(r@) == texts(before).push(relative@[i as int]@));
        assert(texts(relative@).take(i + 1) == texts(relative@).take(i as int).push(relative@[i as int]@));
        i += 1;
    }
    assert(texts(relative@).take(relative@.len() as int) == texts(relative@));
    r
}

/// The directories the catalog watches before they are checked and reduced: the
/// configured ones (which must not be an empty list) or else the discovered ones, then the
/// extra ones, each configured path taken relative to the package root.
pub open spec fn watched_directories_of(
    root: Seq<Seq<char>>,
    explicit: Option<Seq<Seq<Seq<char>>>>,
    discovered: Seq<Seq<Seq<char>>>,
    extra: Seq<Seq<Seq<char>>>,
) -> Seq<Seq<Seq<char>>> {
    let chosen = match explicit {
        Some(directories) => directories.map_values(|d: Seq<Seq<char>>| joined_path(root, d)),
        None => discovered,
    };
    chosen + extra.map_values(|d: Seq<Seq<char>>| joined_path(root, d))
}

fn join_all(root: &Vec<String>, directories: &Vec<Vec<String>>, out: &mut Vec<Vec<String>>)
    ensures
        path_texts(final(out)@) == path_texts(old(out)@) + path_texts(directories@).map_values(
            |d: Seq<Seq<char>>| joined_path(texts(root@), d),
        ),
{
    let ghost start = path_texts(out@);
    let ghost mapped = path_texts(directories@).map_values(|d: Seq<Seq<char>>| joined_path(texts(root@), d));
    let mut i: usize = 0;
    while i < directories.len()
        invariant
            i <= directories@.len(),
            mapped == path_texts(directories@).map_values(|d: Seq<Seq<char>>| joined_path(texts(root@), d)),
            path_texts(out@) == start + mapped.take(i as int),
        decreases directories@.len() - i,
    {
        let joined = join_path(root, &directories[i]);
        let ghost before = out@;
        out.push(joined);
        assert(path_texts(out@) == path_texts(before).push(texts(joined@)));
        assert(mapped[i as int] == joined_path(texts(root@), texts(directories@[i as int]@)));
        assert(mapped.take(i + 1) == mapped.take(i as int).push(mapped[i as int]));
        i += 1;
    }
    assert(mapped.take(directories@.len() as int) == mapped);
}

/// The directories the catalog watches before they are checked and reduced, or the
/// error for an empty configured list.
pub fn watched_directories(
    root: &Vec<String>,
    explicit: Option<&Vec<Vec<String>>>,
    discovered: Vec<Vec<String>>,
    extra: &Vec<Vec<String>>,
) -> (r: Result<Vec<Vec<String>>, String>)
    ensures
        match r {
            Ok(directories) => (explicit matches Some(e) ==> e@.len() > 0) && path_texts(directories@)
                == watched_directories_of(
                texts(root@),
                match explicit {
                    Some(e) => Some(path_texts(e@)),
                    None => None,
                },
                path_texts(discovered@),
                path_texts(extra@),
            ),
            Err(message) => (explicit matches Some(e) && e@.len() == 0) && message@
                == "source-directories must not be empty; omit it for discovery"@,
        },
{
    let mut directories = match explicit {
        Some(list) => {
            if list.len() == 0 {
                return Err("source-directories must not be empty; omit it for discovery".to_owned());
            }
            let mut joined: Vec<Vec<String>> = Vec::new();
            join_all(root, list, &mut joined);
            assert(path_texts(joined@) == path_texts(list@).map_values(
                |d: Seq<Seq<char>>| joined_path(texts(root@), d),
            ));
            joined
        },
        None => discovered,
    };
    join_all(root, extra, &mut directories);
    Ok(directories)
}

/// Where the Tailwind build reads and writes, as configured (relative to the package
/// root or absolute).
#[derive(Clone, Debug, PartialEq, Eq)]
pub struct TailwindPaths {
    pub input: Vec<String>,
    pub output: Vec<String>,
}

/// The first failed check of the Tailwind settings of the package at `root`: the input must
/// be a file, the output must be named, and the two must differ.
pub open spec fn tailwind_error(
    root: Seq<Seq<char>>,
    tailwind: Option<TailwindPaths>,
    input_is_file: bool,
    input_display: Seq<char>,
) -> Option<Seq<char>> {
    match tailwind {
        None => None,
        Some(paths) => if !input_is_file {
            Some("Tailwind input does not exist: "@ + input_display)
        } else if paths.output@.len() == 0 {
            Some("Tailwind output must not be empty"@)
        } else if joined_path(root, texts(paths.input@)) == joined_path(root, texts(paths.output@)) {
            Some("Tailwind input and output must differ"@)
        } else {
            None
        },
    }
}

fn same_path(a: &Vec<String>, b: &Vec<String>) -> (r: bool)
    ensures
        r == (texts(a@) == texts(b@)),
{
    if a.len() != b.len() {
        assert(texts(a@).len() != texts(b@).len());
        return false;
    }
    let mut i: usize = 0;
    while i < a.len()
        invariant
            a@.len() == b@.len(),
            i <= a@.len(),
            forall|j: int| 0 <= j < i ==> texts(a@)[j] == texts(b@)[j],
        decreases a@.len() - i,
    {
        if !same_text(a[i].as_str(), b[i].as_str()) {
            assert(texts(a@)[i as int] != texts(b@)[i as int]);
            return false;
        }
        i += 1;
    }
    assert(texts(a@) == texts(b@));
    true
}

/// Checks the Tailwind settings of the package at `root`; `input_is_file` tells whether
/// the joined input path is a file, and `input_display` shows that path.
pub fn validate_tailwind(
    root: &Vec<String>,
    tailwind: Option<&TailwindPaths>,
    input_is_file: bool,
    input_display: &str,
) -> (r: Result<(), String>)
    ensures
        match r {
            Ok(()) => tailwind_error(texts(root@), match tailwind {
                Some(t) => Some(*t),
                None => None,
            }, input_is_file, input_display@) is None,
            Err(message) => tailwind_error(texts(root@), match tailwind {
                Some(t) => Some(*t),
                None => None,
            }, input_is_file, input_display@) == Some(message@),
        },
{
    let paths = match tailwind {
        Some(paths) => paths,
        None => return Ok(()),
    };
    if !input_is_file {
        let mut message = "Tailwind input does not exist: ".to_owned();
        append_text(&mut message, input_display);
        return Err(message);
    }
    if paths.output.len() == 0 {
        return Err("Tailwind output must not be empty".to_owned());
    }
    let input = join_path(root, &paths.input);
    let output = join_path(root, &paths.output);
    if same_path(&input, &output) {
        return Err("Tailwind input and output must differ".to_owned());
    }
    Ok(())
}

/// Accepts a configured serve port: any but 0.
pub fn validate_serve_port(port: u16) -> (r: Result<(), String>)
    ensures
        r is Ok <==> port != 0,
        r matches Err(message) ==> message@ == "serve.port must be between 1 and 65535"@,
{
    if port == 0 {
        return Err("serve.port must be between 1 and 65535".to_owned());
    }
    Ok(())
}

} // verus!
