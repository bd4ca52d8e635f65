//! The decisions of `dx-story init`: relative paths between directories, where the
//! library dependency comes from, the edits to the component package's manifest, the
//! embedded catalog wiring, and the check that no file is overwritten.
use vstd::prelude::*;
use crate::project::{holds_text, is_absent, is_first_index, join, joined, position_of, texts};
use crate::text::{append_text, chars_of, contains, contains_text, push_char, replace_text, replaced, same_text};

verus! {

// ----- Relative paths -----

/// The number of leading components `a` and `b` share.
pub open spec fn common_prefix_length(a: Seq<Seq<char>>, b: Seq<Seq<char>>) -> nat
    decreases a.len(),
{
    if a.len() == 0 || b.len() == 0 || a[0] != b[0] {
        0
    } else {
        1 + common_prefix_length(a.drop_first(), b.drop_first())
    }
}

/// `n` parent-directory components.
pub open spec fn parents(n: nat) -> Seq<Seq<char>> {
    Seq::new(n, |i: int| ".."@)
}

/// The components that lead from directory `from` to `to`: one `..` for each component of
/// `from` past the shared prefix, then the rest of `to`.
pub open spec fn relative_components(from: Seq<Seq<char>>, to: Seq<Seq<char>>) -> Seq<Seq<char>> {
    let k = common_prefix_length(from, to);
    parents((from.len() - k) as nat) + to.skip(k as int)
}

/// Following one component from `base`: `..` leaves the last component, any other enters it.
pub open spec fn step(base: Seq<Seq<char>>, component: Seq<char>) -> Seq<Seq<char>> {
    if component == ".."@ {
        base.drop_last()
    } else {
        base.push(component)
    }
}

/// The directory reached from `base` by following the components of `relative`.
pub open spec fn resolved(base: Seq<Seq<char>>, relative: Seq<Seq<char>>) -> Seq<Seq<char>>
    decreases relative.len(),
{
    if relative.len() == 0 {
        base
    } else {
        resolved(step(base, relative[0]), relative.drop_first())
    }
}

proof fn lemma_common_prefix_length(a: Seq<Seq<char>>, b: Seq<Seq<char>>)
    ensures
        common_prefix_length(a, b) <= a.len(),
        common_prefix_length(a, b) <= b.len(),
        forall|i: int| 0 <= i < common_prefix_length(a, b) ==> a[i] == b[i],
        common_prefix_length(a, b) < a.len() && common_prefix_length(a, b) < b.len() ==> a[
            common_prefix_length(a, b) as int] != b[common_prefix_length(a, b) as int],
    decreases a.len(),
{
    if !(a.len() == 0 || b.len() == 0 || a[0] != b[0]) {
        lemma_common_prefix_length(a.drop_first(), b.drop_first());
        let k = common_prefix_length(a, b);
        assert forall|i: int| 0 <= i < k implies a[i] == b[i] by {
            if i > 0 {
                assert(a.drop_first()[i - 1] == b.drop_first()[i - 1]);
            }
        }
    }
}

proof fn lemma_common_prefix_length_unique(a: Seq<Seq<char>>, b: Seq<Seq<char>>, k: int)
    requires
        0 <= k <= a.len(),
        k <= b.len(),
        forall|i: int| 0 <= i < k ==> a[i] == b[i],
        k < a.len() && k < b.len() ==> a[k] != b[k],
    ensures
        common_prefix_length(a, b) == k,
    decreases a.len(),
{
    if k > 0 {
        assert(a[0] == b[0]);
        assert forall|i: int| 0 <= i < k - 1 implies a.drop_first()[i] == b.drop_first()[i] by {
            assert(a[i + 1] == b[i + 1]);
        }
        lemma_common_prefix_length_unique(a.drop_first(), b.drop_first(), k - 1);
    }
}

/// The message for two paths without a shared root.
pub open spec fn no_shared_root_message() -> Seq<char> {
    "paths must share a filesystem root"@
}

/// The path from directory `from` to `to`, both absolute and given by their components; fails
/// when they share no component, that is, no filesystem root.
pub fn relative_path(from: &Vec<String>, to: &Vec<String>) -> (r: Result<Vec<String>, String>)
    ensures
        match r {
            Ok(components) => common_prefix_length(texts(from@), texts(to@)) > 0 && texts(components@)
                == relative_components(texts(from@), texts(to@)),
            Err(message) => common_prefix_length(texts(from@), texts(to@)) == 0 && message@
                == no_shared_root_message(),
        },
{
    let ghost a = texts(from@);
    let ghost b = texts(to@);
    let mut common: usize = 0;
    while common < from.len() && common < to.len() && same_text(from[common].as_str(), to[common].as_str())
        invariant
            a == texts(from@),
            b == texts(to@),
            common <= from@.len(),
            common <= to@.len(),
            forall|i: int| 0 <= i < common ==> a[i] == b[i],
        decreases from@.len() - common,
    {
        assert(a[common as int] == b[common as int]);
        common += 1;
    }
    proof {
        if common < from.len() && common < to.len() {
            assert(a[common as int] != b[common as int]);
        }
        lemma_common_prefix_length_unique(a, b, common as int);
    }
    if common == 0 {
        return Err("paths must share a filesystem root".to_owned());
    }
    let mut components: Vec<String> = Vec::new();
    let mut i: usize = common;
    while i < from.len()
        invariant
            common <= i <= from@.len(),
            texts(components@) == parents((i - common) as nat),
        decreases from@.len() - i,
    {
        let ghost before = components@;
        components.push("..".to_owned());
        assert(texts(components@) == texts(before).push(".."@));
        assert(texts(components@) == parents((i + 1 - common) as nat));
        i += 1;
    }
    let ghost prefix = texts(components@);
    let mut j: usize = common;
    while j < to.len()
        invariant
            common <= j <= to@.len(),
            b == texts(to@),
            prefix == parents((from@.len() - common) as nat),
            texts(components@) == prefix + b.subrange(common as int, j as int),
        decreases to@.len() - j,
    {
        let ghost before = components@;
        components.push(to[j].clone());
        assert(texts(components@) == texts(before).push(b[j as int]));
        assert(b.subrange(common as int, j + 1) == b.subrange(common as int, j as int).push(b[j as int]));
        j += 1;
    }
    assert(b.subrange(common as int, to@.len() as int) == b.skip(common as int));
    Ok(components)
}

proof fn lemma_resolved_parents(base: Seq<Seq<char>>, m: nat, rest: Seq<Seq<char>>)
    requires
        m <= base.len(),
    ensures
        resolved(base, parents(m) + rest) == resolved(base.take(base.len() - m), rest),
    decreases m,
{
    if m == 0 {
        assert(parents(0) + rest == rest);
        assert(base.take(base.len() as int) == base);
    } else {
        let relative = parents(m) + rest;
        assert(relative[0] == ".."@);
        assert(relative.drop_first() == parents((m - 1) as nat) + rest);
        assert(step(base, relative[0]) == base.drop_last());
        lemma_resolved_parents(base.drop_last(), (m - 1) as nat, rest);
        assert(base.drop_last().take(base.drop_last().len() - (m - 1)) == base.take(base.len() - m));
    }
}

proof fn lemma_resolved_plain(base: Seq<Seq<char>>, rest: Seq<Seq<char>>)
    requires
        forall|i: int| 0 <= i < rest.len() ==> rest[i] != ".."@,
    ensures
        resolved(base, rest) == base + rest,
    decreases rest.len(),
{
    if rest.len() > 0 {
        assert(rest[0] != ".."@);
        assert forall|i: int| 0 <= i < rest.drop_first().len() implies rest.drop_first()[i] != ".."@ by {
            assert(rest[i + 1] != ".."@);
        }
        lemma_resolved_plain(base.push(rest[0]), rest.drop_first());
        assert(base.push(rest[0]) + rest.drop_first() == base + rest);
    }
}

/// Following the relative path from `from` reaches `to`, whenever the two share a root and
/// `to` names no parent directory.
pub proof fn lemma_relative_path_reaches_target(from: Seq<Seq<char>>, to: Seq<Seq<char>>)
    requires
        common_prefix_length(from, to) > 0,
        forall|i: int| 0 <= i < to.len() ==> to[i] != ".."@,
    ensures
        resolved(from, relative_components(from, to)) == to,
{
    lemma_common_prefix_length(from, to);
    let k = common_prefix_length(from, to);
    lemma_resolved_parents(from, (from.len() - k) as nat, to.skip(k as int));
    assert(from.take(from.len() - (from.len() - k)) == from.take(k as int));
    assert forall|i: int| 0 <= i < to.skip(k as int).len() implies to.skip(k as int)[i] != ".."@ by {
        assert(to[i + k] != ".."@);
    }
    lemma_resolved_plain(from.take(k as int), to.skip(k as int));
    assert(from.take(k as int) == to.take(k as int));
    assert(to.take(k as int) + to.skip(k as int) == to);
}

// ----- The library dependency -----

/// The version of the catalog library that `init` depends on from crates.io.
pub const LIBRARY_VERSION: &'static str = "0.1.0";

/// Where the catalog library comes from: crates.io, or a local checkout (its directory's
/// components and its Dioxus requirement).
#[derive(Clone, Debug, PartialEq, Eq)]
pub enum LibrarySource {
    Registry,
    Local { path: Vec<String>, dioxus_requirement: String },
}

/// The Dioxus requirement that goes with a library source.
pub open spec fn dioxus_requirement_of(source: LibrarySource) -> Seq<char> {
    match source {
        LibrarySource::Registry => "0.7.10"@,
        LibrarySource::Local { path, dioxus_requirement } => dioxus_requirement@,
    }
}

/// How the component package depends on the library; the dependency is always optional.
#[derive(Clone, Debug, PartialEq, Eq)]
pub enum LibraryDependency {
    Version(String),
    Path(Vec<String>),
}

impl LibrarySource {
    /// The Dioxus version requirement to add beside the library: the one the library was
    /// released with, or the local checkout's own.
    pub fn dioxus_requirement(&self) -> (r: &str)
        ensures
            r@ == dioxus_requirement_of(*self),
    {
        match self {
            LibrarySource::Registry => {
                proof {
                    reveal_strlit("0.7.10");
                }
                "0.7.10"
            },
            LibrarySource::Local { dioxus_requirement, .. } => dioxus_requirement.as_str(),
        }
    }

    /// The library dependency of the package rooted at `root`: the released version, or
    /// the relative path to the local checkout.
    pub fn dependency(&self, root: &Vec<String>) -> (r: Result<LibraryDependency, String>)
        ensures
            match *self {
                LibrarySource::Registry => match r {
                    Ok(LibraryDependency::Version(version)) => version@ == LIBRARY_VERSION@,
                    _ => false,
                },
                LibrarySource::Local { path, dioxus_requirement } => match r {
                    Ok(LibraryDependency::Path(components)) => common_prefix_length(
                        texts(root@),
                        texts(path@),
                    ) > 0 && texts(components@) == relative_components(texts(root@), texts(path@)),
                    Ok(LibraryDependency::Version(_)) => false,
                    Err(message) => common_prefix_length(texts(root@), texts(path@)) == 0
                        && message@ == no_shared_root_message(),
                },
            },
    {
        match self {
            LibrarySource::Registry => Ok(LibraryDependency::Version(LIBRARY_VERSION.to_owned())),
            LibrarySource::Local { path, .. } => match relative_path(root, path) {
                Ok(components) => Ok(LibraryDependency::Path(components)),
                Err(message) => Err(message),
            },
        }
    }
}

/// The local library source of a checkout at `path` whose package declares the
/// dependencies `names` with the version requirements `requirements`: the requirement of
/// its first `dioxus` dependency.
pub fn local_library_source(path: Vec<String>, names: &Vec<String>, requirements: &Vec<String>) -> (r:
    Result<LibrarySource, String>)
    requires
        names@.len() == requirements@.len(),
    ensures
        match r {
            Ok(LibrarySource::Local { path: p, dioxus_requirement }) => p == path && exists|i: int|
                is_first_index(texts(names@), "dioxus"@, i) && dioxus_requirement@ == requirements@[i]@,
            Ok(LibrarySource::Registry) => false,
            Err(message) => is_absent(texts(names@), "dioxus"@) && message@
                == "dx-story has no dioxus dependency"@,
        },
{
    match position_of(names, "dioxus") {
        Some(i) => Ok(LibrarySource::Local { path, dioxus_requirement: requirements[i].clone() }),
        None => Err("dx-story has no dioxus dependency".to_owned()),
    }
}

// ----- The manifest -----

/// The name of the catalog feature and of the catalog example target.
pub const CATALOG_FEATURE: &'static str = "component-catalog";

/// The catalog example's source, relative to the package root.
pub const CATALOG_EXAMPLE_PATH: &'static str = "dev/main.rs";

/// A dependency the component package declares, as cargo reports it.
#[derive(Clone, Debug, PartialEq, Eq)]
pub struct DeclaredDependency {
    pub name: String,
    pub rename: Option<String>,
    pub target_specific: bool,
    pub optional: bool,
}

/// What `init` reads from the component package and from its manifest document.
#[derive(Clone, Debug, PartialEq, Eq)]
pub struct ManifestFacts {
    /// The declared feature names.
    pub features: Vec<String>,
    /// The target names.
    pub targets: Vec<String>,
    pub dependencies: Vec<DeclaredDependency>,
    /// The document has a `target` table.
    pub has_target_table: bool,
    /// The document's `dependencies` entry is absent or a table.
    pub dependencies_is_table: bool,
    /// The `dependencies` table has a `dx-story` entry.
    pub declares_library: bool,
    /// That entry is a table whose `optional` is `true`.
    pub library_optional: bool,
    /// The `dependencies` table has a `dioxus` entry.
    pub declares_dioxus: bool,
    /// The document's `example` entry is absent or an array of tables.
    pub examples_is_array: bool,
}

/// The edits `init` makes to the manifest: the library dependency and the Dioxus
/// dependency where they are missing, the catalog feature's list, and (always) the catalog
/// example, named `CATALOG_FEATURE`, at `CATALOG_EXAMPLE_PATH`, requiring that feature.
#[derive(Clone, Debug, PartialEq, Eq)]
pub struct ManifestPlan {
    /// Added, optional, when the manifest has no library dependency.
    pub library_dependency: Option<LibraryDependency>,
    /// The version requirement of the Dioxus dependency, added without default features,
    /// when the manifest has none.
    pub dioxus_requirement: Option<String>,
    /// What the catalog feature enables.
    pub catalog_features: Vec<String>,
}

/// Some declared dependency named `dx-story` is target-specific.
pub open spec fn has_target_specific_library(dependencies: Seq<DeclaredDependency>) -> bool {
    exists|i: int| 0 <= i < dependencies.len() && (#[trigger] dependencies[i]).name@ == "dx-story"@
        && dependencies[i].target_specific
}

/// The dependency is `dx-story` or `dioxus` under another name.
pub open spec fn is_renamed_known(dependency: DeclaredDependency) -> bool {
    &&& (dependency.name@ == "dx-story"@ || dependency.name@ == "dioxus"@)
    &&& match dependency.rename {
        Some(rename) => rename@ != dependency.name@,
        None => false,
    }
}

/// Some declared dependency is `dioxus` and optional.
pub open spec fn has_optional_dioxus(dependencies: Seq<DeclaredDependency>) -> bool {
    exists|i: int| 0 <= i < dependencies.len() && (#[trigger] dependencies[i]).name@ == "dioxus"@
        && dependencies[i].optional
}

/// The library dependency for the package at `root` can be written: always from crates.io,
/// and from a local checkout when it shares a root with the package.
pub open spec fn library_dependency_possible(library: LibrarySource, root: Seq<Seq<char>>) -> bool {
    match library {
        LibrarySource::Registry => true,
        LibrarySource::Local { path, dioxus_requirement } => common_prefix_length(root, texts(path@)) > 0,
    }
}

/// `dependency` is how the package at `root` depends on `library`.
pub open spec fn library_dependency_fits(library: LibrarySource, root: Seq<Seq<char>>, dependency: LibraryDependency) -> bool {
    match library {
        LibrarySource::Registry => match dependency {
            LibraryDependency::Version(version) => version@ == LIBRARY_VERSION@,
            LibraryDependency::Path(_) => false,
        },
        LibrarySource::Local { path, dioxus_requirement } => match dependency {
            LibraryDependency::Path(components) => texts(components@) == relative_components(root, texts(path@)),
            LibraryDependency::Version(_) => false,
        },
    }
}

/// The first reason the manifest cannot be initialized, checked in order: an existing
/// catalog feature, an existing catalog target, a target-specific library dependency, a
/// renamed library or Dioxus dependency, a `dependencies` entry that is no table, a library
/// dependency that cannot be written, an `example` entry that is no array of tables.
pub open spec fn manifest_error(facts: ManifestFacts, library: LibrarySource, root: Seq<Seq<char>>) -> Option<Seq<char>> {
    if texts(facts.features@).contains("component-catalog"@) {
        Some("package already has a component-catalog feature"@)
    } else if texts(facts.targets@).contains("component-catalog"@) {
        Some("package already has a component-catalog target"@)
    } else if facts.has_target_table && has_target_specific_library(facts.dependencies@) {
        Some("move the target-specific dx-story dependency to [dependencies] before initialization"@)
    } else if exists|i: int| 0 <= i < facts.dependencies@.len() && is_renamed_known(#[trigger] facts.dependencies@[i]) {
        Some("initialization requires the dependency names dx-story and dioxus; configure renamed dependencies manually"@)
    } else if !facts.dependencies_is_table {
        Some("dependencies must be a table"@)
    } else if !facts.declares_library && !library_dependency_possible(library, root) {
        Some(no_shared_root_message())
    } else if !facts.examples_is_array {
        Some("example must be an array of tables"@)
    } else {
        None
    }
}

/// What the catalog feature enables: the library when it is optional, Dioxus when it is an
/// optional dependency, and the library's catalog.
pub open spec fn catalog_features_of(facts: ManifestFacts) -> Seq<Seq<char>> {
    let optional = if facts.declares_library { facts.library_optional } else { true };
    let with_library = if optional { seq!["dep:dx-story"@] } else { seq![] };
    let with_dioxus = if has_optional_dioxus(facts.dependencies@) { with_library.push("dep:dioxus"@) } else { with_library };
    with_dioxus.push("dx-story/catalog"@)
}

fn target_specific_library(dependencies: &Vec<DeclaredDependency>) -> (r: bool)
    ensures
        r == has_target_specific_library(dependencies@),
{
    let mut i: usize = 0;
    while i < dependencies.len()
        invariant
            i <= dependencies@.len(),
            forall|j: int| 0 <= j < i ==> !((#[trigger] dependencies@[j]).name@ == "dx-story"@ && dependencies@[j].target_specific),
        decreases dependencies@.len() - i,
    {
        if dependencies[i].target_specific && same_text(dependencies[i].name.as_str(), "dx-story") {
            return true;
        }
        i += 1;
    }
    false
}

fn renamed_known(dependencies: &Vec<DeclaredDependency>) -> (r: bool)
    ensures
        r == exists|i: int| 0 <= i < dependencies@.len() && is_renamed_known(#[trigger] dependencies@[i]),
{
    let mut i: usize = 0;
    while i < dependencies.len()
        invariant
            i <= dependencies@.len(),
            forall|j: int| 0 <= j < i ==> !is_renamed_known(#[trigger] dependencies@[j]),
        decreases dependencies@.len() - i,
    {
        let dependency = &dependencies[i];
        let known = same_text(dependency.name.as_str(), "dx-story") || same_text(dependency.name.as_str(), "dioxus");
        if known {
            match &dependency.rename {
                Some(rename) => {
                    if !same_text(rename.as_str(), dependency.name.as_str()) {
                        assert(is_renamed_known(dependencies@[i as int]));
                        return true;
                    }
                },
                None => {},
            }
        }
        i += 1;
    }
    false
}

fn optional_dioxus(dependencies: &Vec<DeclaredDependency>) -> (r: bool)
    ensures
        r == has_optional_dioxus(dependencies@),
{
    let mut i: usize = 0;
    while i < dependencies.len()
        invariant
            i <= dependencies@.len(),
            forall|j: int| 0 <= j < i ==> !((#[trigger] dependencies@[j]).name@ == "dioxus"@ && dependencies@[j].optional),
        decreases dependencies@.len() - i,
    {
        if dependencies[i].optional && same_text(dependencies[i].name.as_str(), "dioxus") {
            return true;
        }
        i += 1;
    }
    false
}

/// Plans the manifest edits that add the catalog to the package rooted at `root`, or
/// gives the first reason it cannot.
pub fn plan_manifest_change(facts: &ManifestFacts, library: &LibrarySource, root: &Vec<String>) -> (r: Result<
    ManifestPlan,
    String,
>)
    ensures
        match r {
            Err(message) => manifest_error(*facts, *library, texts(root@)) == Some(message@),
            Ok(plan) => {
                &&& manifest_error(*facts, *library, texts(root@)) is None
                &&& (plan.library_dependency is None <==> facts.declares_library)
                &&& match plan.library_dependency {
                    Some(dependency) => library_dependency_fits(*library, texts(root@), dependency),
                    None => true,
                }
                &&& (plan.dioxus_requirement is None <==> facts.declares_dioxus)
                &&& match plan.dioxus_requirement {
                    Some(requirement) => requirement@ == dioxus_requirement_of(*library),
                    None => true,
                }
                &&& texts(plan.catalog_features@) == catalog_features_of(*facts)
            },
        },
{
    if holds_text(&facts.features, "component-catalog") {
        return Err("package already has a component-catalog feature".to_owned());
    }
    if holds_text(&facts.targets, "component-catalog") {
        return Err("package already has a component-catalog target".to_owned());
    }
    if facts.has_target_table && target_specific_library(&facts.dependencies) {
        return Err("move the target-specific dx-story dependency to [dependencies] before initialization".to_owned());
    }
    if renamed_known(&facts.dependencies) {
        return Err(
            "initialization requires the dependency names dx-story and dioxus; configure renamed dependencies manually".to_owned(),
        );
    }
    if !facts.dependencies_is_table {
        return Err("dependencies must be a table".to_owned());
    }
    let library_dependency = if facts.declares_library {
        None
    } else {
        match library.dependency(root) {
            Ok(dependency) => Some(dependency),
            Err(message) => return Err(message),
        }
    };
    if !facts.examples_is_array {
        return Err("example must be an array of tables".to_owned());
    }
    let optional = if facts.declares_library {
        facts.library_optional
    } else {
        true
    };
    let dioxus_requirement = if facts.declares_dioxus {
        None
    } else {
        Some(library.dioxus_requirement().to_owned())
    };
    let mut catalog_features: Vec<String> = Vec::new();
    if optional {
        catalog_features.push("dep:dx-story".to_owned());
    }
    if optional_dioxus(&facts.dependencies) {
        catalog_features.push("dep:dioxus".to_owned());
    }
    catalog_features.push("dx-story/catalog".to_owned());
    assert(texts(catalog_features@) == catalog_features_of(*facts));
    Ok(ManifestPlan { library_dependency, dioxus_requirement, catalog_features })
}

// ----- The embedded catalog -----

/// The library root already wires a component catalog.
pub open spec fn has_catalog_wiring_text(source: Seq<char>) -> bool {
    contains_text(source, "launch_component_catalog"@) || contains_text(source, "mod component_catalog"@)
}

/// Whether the library root `source` already wires a component catalog.
pub fn has_catalog_wiring(source: &str) -> (r: bool)
    ensures
        r == has_catalog_wiring_text(source@),
{
    let chars = chars_of(source);
    contains(&chars, &chars_of("launch_component_catalog")) || contains(&chars, &chars_of("mod component_catalog"))
}

/// The crate name of a package name: each `-` becomes `_`.
pub open spec fn crate_name_of(package: Seq<char>) -> Seq<char> {
    package.map_values(|c: char| if c == '-' { '_' } else { c })
}

/// The crate name of a package name.
pub fn crate_name(package: &str) -> (r: String)
    ensures
        r@ == crate_name_of(package@),
{
    let chars = chars_of(package);
    let mut name = String::new();
    let mut i: usize = 0;
    while i < chars.len()
        invariant
            chars@ == package@,
            i <= chars@.len(),
            name@ == crate_name_of(chars@.take(i as int)),
        decreases chars@.len() - i,
    {
        let c = chars[i];
        push_char(&mut name, if c == '-' { '_' } else { c });
        assert(chars@.take(i + 1) == chars@.take(i as int).push(c));
        assert(crate_name_of(chars@.take(i + 1)) == crate_name_of(chars@.take(i as int)).push(if c == '-' { '_' } else { c }));
        i += 1;
    }
    assert(chars@.take(chars@.len() as int) == chars@);
    name
}

/// The Rust string literal that `{:?}` writes for a text.
pub uninterp spec fn debug_literal(text: Seq<char>) -> Seq<char>;

/// `<str as Debug>::fmt` through `format!("{:?}")`: the text quoted and escaped as a Rust
/// string literal; the escaping rules are not restated here.
#[verifier::external_body]
fn debug_quoted(text: &str) -> (r: String)
    ensures
        r@ == debug_literal(text@),
{
    format!("{:?}", text)
}

/// The library root of an embedded catalog: its directory's components and its source.
#[derive(Clone, Debug, PartialEq, Eq)]
pub struct EmbeddedLibrary {
    pub directory: Vec<String>,
    pub source: String,
}

/// The components of the embedded catalog module, relative to the package root.
pub open spec fn catalog_module_components(root: Seq<Seq<char>>) -> Seq<Seq<char>> {
    root + seq!["dev"@, "catalog.rs"@]
}

/// The library root with the catalog wiring appended: the source, a new line, and the
/// wiring template with `{module_path}` replaced by the quoted path from the library root's
/// directory to the catalog module.
pub open spec fn wired_library_text(source: Seq<char>, template: Seq<char>, relative: Seq<Seq<char>>) -> Seq<char> {
    source + "\n"@ + replaced(template, "{module_path}"@, debug_literal(joined(relative, "/"@)))
}

/// The library root of the package rooted at `root` with an embedded catalog wired in,
/// or why it cannot be: there is no library target, the library already wires a catalog,
/// or the catalog module shares no root with the library.
pub fn wire_embedded_library(library: Option<&EmbeddedLibrary>, root: &Vec<String>, template: &str) -> (r:
    Result<String, String>)
    ensures
        match library {
            None => r is Err && r->Err_0@ == "--embedded requires a library target"@,
            Some(lib) => if has_catalog_wiring_text(lib.source@) {
                r is Err && r->Err_0@ == "library already has component catalog wiring"@
            } else {
                let module = catalog_module_components(texts(root@));
                if common_prefix_length(texts(lib.directory@), module) == 0 {
                    r is Err && r->Err_0@ == no_shared_root_message()
                } else {
                    r is Ok && r->Ok_0@ == wired_library_text(
                        lib.source@,
                        template@,
                        relative_components(texts(lib.directory@), module),
                    )
                }
            },
        },
{
    let library = match library {
        Some(library) => library,
        None => return Err("--embedded requires a library target".to_owned()),
    };
    if has_catalog_wiring(library.source.as_str()) {
        return Err("library already has component catalog wiring".to_owned());
    }
    let mut module: Vec<String> = root.clone();
    module.push("dev".to_owned());
    module.push("catalog.rs".to_owned());
    assert(texts(module@) == catalog_module_components(texts(root@)));
    let components = match relative_path(&library.directory, &module) {
        Ok(components) => components,
        Err(message) => return Err(message),
    };
    let relative = join(&components, "/");
    let literal = debug_quoted(relative.as_str());
    proof {
        reveal_strlit("{module_path}");
    }
    let wiring = replace_text(template, "{module_path}", literal.as_str());
    let mut contents = library.source.clone();
    append_text(&mut contents, "\n");
    append_text(&mut contents, wiring.as_str());
    Ok(contents)
}

/// The embedded catalog's example root: the template with `{crate_name}` replaced by the
/// library's crate name.
pub fn embedded_main(template: &str, library_name: &str) -> (r: String)
    ensures
        r@ == replaced(template@, "{crate_name}"@, crate_name_of(library_name@)),
{
    proof {
        reveal_strlit("{crate_name}");
    }
    let name = crate_name(library_name);
    replace_text(template, "{crate_name}", name.as_str())
}

// ----- Writing the files -----

/// A file `init` writes: its path, the contents it had when planned (`None` for a new
/// file), and what is there now (`None` when there is no such file).
#[derive(Clone, Debug, PartialEq, Eq)]
pub struct FileState {
    pub path: String,
    pub previous: Option<String>,
    pub current: Option<String>,
}

/// Why writing the file would lose work: an edited file that changed since it was read,
/// or a new file that already exists.
pub open spec fn file_conflict(state: FileState) -> Option<Seq<char>> {
    match state.previous {
        Some(previous) => match state.current {
            Some(current) => if current@ == previous@ {
                None
            } else {
                Some("file changed during initialization: "@ + state.path@)
            },
            None => Some("file changed during initialization: "@ + state.path@),
        },
        None => match state.current {
            Some(_) => Some("refusing to overwrite "@ + state.path@ + "; no files were changed"@),
            None => None,
        },
    }
}

/// No file among the first `n` conflicts.
pub open spec fn no_conflict_before(states: Seq<FileState>, n: int) -> bool {
    forall|j: int| 0 <= j < n ==> file_conflict(#[trigger] states[j]) is None
}

/// Accepts the planned files when none conflicts; otherwise reports the first conflict.
/// Nothing is written unless every file is accepted.
pub fn check_file_states(states: &Vec<FileState>) -> (r: Result<(), String>)
    ensures
        match r {
            Ok(()) => no_conflict_before(states@, states@.len() as int),
            Err(message) => exists|i: int| {
                &&& 0 <= i < states@.len()
                &&& no_conflict_before(states@, i)
                &&& file_conflict(#[trigger] states@[i]) == Some(message@)
            },
        },
{
    let mut i: usize = 0;
    while i < states.len()
        invariant
            i <= states@.len(),
            no_conflict_before(states@, i as int),
        decreases states@.len() - i,
    {
        let state = &states[i];
        let conflict = match &state.previous {
            Some(previous) => match &state.current {
                Some(current) => !same_text(current.as_str(), previous.as_str()),
                None => true,
            },
            None => state.current.is_some(),
        };
        if conflict {
            let message = match &state.previous {
                Some(_) => {
                    let mut text = "file changed during initialization: ".to_owned();
                    append_text(&mut text, state.path.as_str());
                    text
                },
                None => {
                    let mut text = "refusing to overwrite ".to_owned();
                    append_text(&mut text, state.path.as_str());
                    append_text(&mut text, "; no files were changed");
                    text
                },
            };
            assert(file_conflict(states@[i as int]) == Some(message@));
            return Err(message);
        }
        assert(file_conflict(states@[i as int]) is None);
        i += 1;
    }
    Ok(())
}

// ----- The configuration -----

/// The components of two paths are the same.
fn same_components(a: &Vec<String>, b: &Vec<String>) -> (r: bool)
    ensures
        r == (texts(a@) == texts(b@)),
{
    if a.len() != b.len() {
        assert(texts(a@).len() != texts(b@).len());
        return false;
    }
    let mut i: usize = 0;
    while i < a.len()
        invariant
            a@.len() == b@.len(),
            i <= a@.len(),
            forall|j: int| 0 <= j < i ==> texts(a@)[j] == texts(b@)[j],
        decreases a@.len() - i,
    {
        if !same_text(a[i].as_str(), b[i].as_str()) {
            assert(texts(a@)[i as int] != texts(b@)[i as int]);
            return false;
        }
        i += 1;
    }
    assert(texts(a@) == texts(b@));
    true
}

/// The `catalog.path` setting of a new configuration in `configuration_directory`: none
/// when the configuration sits at the workspace root, where the catalog package is found
/// by name; otherwise the path from the configuration's directory to the package root.
pub fn catalog_path_setting(
    configuration_directory: &Vec<String>,
    workspace_root: &Vec<String>,
    package_root: &Vec<String>,
) -> (r: Result<Option<Vec<String>>, String>)
    ensures
        texts(configuration_directory@) == texts(workspace_root@) ==> r == Ok::<Option<Vec<String>>, String>(None),
        texts(configuration_directory@) != texts(workspace_root@) ==> match r {
            Ok(Some(components)) => common_prefix_length(texts(configuration_directory@), texts(package_root@)) > 0
                && texts(components@) == relative_components(texts(configuration_directory@), texts(package_root@)),
            Ok(None) => false,
            Err(message) => common_prefix_length(texts(configuration_directory@), texts(package_root@)) == 0
                && message@ == no_shared_root_message(),
        },
{
    if same_components(configuration_directory, workspace_root) {
        return Ok(None);
    }
    match relative_path(configuration_directory, package_root) {
        Ok(components) => Ok(Some(components)),
        Err(message) => Err(message),
    }
}

} // verus!
