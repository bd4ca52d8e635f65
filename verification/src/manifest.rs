//! The TOML documents that `init` edits: the component package's manifest, which gains the
//! library and Dioxus dependencies, the catalog feature and the catalog example, and the
//! new configuration file.
//!
//! Parsing and writing TOML are toml_edit's, which keeps comments and formatting; this
//! module reads what the decisions need from a document and chains the edits.
use vstd::prelude::*;
use toml_edit::{value, Array, ArrayOfTables, DocumentMut, InlineTable, Item, Table, Value};
use crate::init::{
    catalog_features_of, dioxus_requirement_of, manifest_error, plan_manifest_change, relative_components,
    DeclaredDependency, LibraryDependency, LibrarySource, ManifestFacts, ManifestPlan, CATALOG_EXAMPLE_PATH,
    CATALOG_FEATURE, LIBRARY_VERSION,
};
use crate::project::{join, joined, texts};

verus! {

#[verifier::external_type_specification]
#[verifier::external_body]
pub struct ExItem(Item);

/// What a TOML document holds at a key.
#[derive(Clone, Copy, Debug, PartialEq, Eq)]
pub enum TomlItem {
    /// Nothing.
    Absent,
    /// A table with a header of its own.
    Table,
    /// An inline table.
    InlineTable,
    /// An array of tables.
    ArrayOfTables,
    /// A string.
    String,
    /// An integer.
    Integer,
    /// A floating-point number.
    Float,
    /// A boolean.
    Boolean(bool),
    /// A date or time.
    Datetime,
    /// An array of values.
    Array,
}

/// A table, with a header of its own or inline.
pub open spec fn is_table_like(item: TomlItem) -> bool {
    item is Table || item is InlineTable
}

/// What toml_edit finds at a top-level key of a document, or `None` when the text is no
/// TOML document.
pub uninterp spec fn toml_top_item(source: Seq<char>, key: Seq<char>) -> Option<TomlItem>;

/// What toml_edit finds at `key` in the top-level table `table` (absent when `table` is
/// absent or no table), or `None` when the text is no TOML document.
pub uninterp spec fn toml_table_item(source: Seq<char>, table: Seq<char>, key: Seq<char>) -> Option<TomlItem>;

/// What toml_edit finds at `field` of the table `key` of the top-level table `table`, or
/// `None` when the text is no TOML document.
pub uninterp spec fn toml_field_item(source: Seq<char>, table: Seq<char>, key: Seq<char>, field: Seq<char>) -> Option<
    TomlItem,
>;

/// A toml_edit item as a `TomlItem`, variant for variant (absence and `Item::None` alike
/// as `Absent`).
#[verifier::external_body]
fn item_kind(item: Option<&Item>) -> TomlItem {
    match item {
        None => TomlItem::Absent,
        Some(Item::None) => TomlItem::Absent,
        Some(Item::Table(_)) => TomlItem::Table,
        Some(Item::ArrayOfTables(_)) => TomlItem::ArrayOfTables,
        Some(Item::Value(Value::String(_))) => TomlItem::String,
        Some(Item::Value(Value::Integer(_))) => TomlItem::Integer,
        Some(Item::Value(Value::Float(_))) => TomlItem::Float,
        Some(Item::Value(Value::Boolean(flag))) => TomlItem::Boolean(*flag.value()),
        Some(Item::Value(Value::Datetime(_))) => TomlItem::Datetime,
        Some(Item::Value(Value::Array(_))) => TomlItem::Array,
        Some(Item::Value(Value::InlineTable(_))) => TomlItem::InlineTable,
    }
}

/// `source.parse::<toml_edit::DocumentMut>()`, then `DocumentMut::get(key)`: the item at a
/// top-level key; the result is named `toml_top_item`.
#[verifier::external_body]
fn top_item(source: &str, key: &str) -> (r: Option<TomlItem>)
    ensures
        r == toml_top_item(source@, key@),
{
    let document = source.parse::<DocumentMut>().ok()?;
    Some(item_kind(document.get(key)))
}

/// `source.parse::<toml_edit::DocumentMut>()`, then `Item::get` twice: the item at `key`
/// of the table `table`; the result is named `toml_table_item`.
#[verifier::external_body]
fn table_item(source: &str, table: &str, key: &str) -> (r: Option<TomlItem>)
    ensures
        r == toml_table_item(source@, table@, key@),
{
    let document = source.parse::<DocumentMut>().ok()?;
    let absent = Item::None;
    Some(item_kind(document.get(table).unwrap_or(&absent).get(key)))
}

/// `source.parse::<toml_edit::DocumentMut>()`, then `Item::get` three times: the item at
/// `field` of `key` of the table `table`; the result is named `toml_field_item`.
#[verifier::external_body]
fn field_item(source: &str, table: &str, key: &str, field: &str) -> (r: Option<TomlItem>)
    ensures
        r == toml_field_item(source@, table@, key@, field@),
{
    let document = source.parse::<DocumentMut>().ok()?;
    let absent = Item::None;
    Some(item_kind(document.get(table).unwrap_or(&absent).get(key).unwrap_or(&absent).get(field)))
}

/// The text toml_edit writes after inserting, into the top-level table `table` (added as a
/// table when absent), the entry `name = { text_key = text, flag_key = flag }`; or `None`
/// when the text is no TOML document or `table` is there and is no table.
pub uninterp spec fn toml_with_entry(
    source: Seq<char>,
    table: Seq<char>,
    name: Seq<char>,
    text_key: Seq<char>,
    text: Seq<char>,
    flag_key: Seq<char>,
    flag: bool,
) -> Option<Seq<char>>;

/// Parses the document with toml_edit, builds the inline table from the arguments,
/// inserts it under `name` in `table`
/// (`entry(table).or_insert(Item::Table(Table::new())).as_table_like_mut()`, then
/// `insert`), and writes the document out; the result is named `toml_with_entry`.
#[verifier::external_body]
fn with_entry(source: &str, table: &str, name: &str, text_key: &str, text: &str, flag_key: &str, flag: bool) -> (r:
    Option<String>)
    ensures
        r matches Some(t) ==> toml_with_entry(source@, table@, name@, text_key@, text@, flag_key@, flag) == Some(t@),
        r is None ==> toml_with_entry(source@, table@, name@, text_key@, text@, flag_key@, flag) is None,
{
    let mut document = source.parse::<DocumentMut>().ok()?;
    let mut entry = InlineTable::new();
    entry.insert(text_key, Value::from(text));
    entry.insert(flag_key, Value::from(flag));
    let parent = document.entry(table).or_insert(Item::Table(Table::new())).as_table_like_mut()?;
    parent.insert(name, Item::Value(Value::InlineTable(entry)));
    Some(document.to_string())
}

/// The text toml_edit writes after inserting, into the top-level table `table` (added as a
/// table when absent), first `name = { text_key = text, flag_key = flag }`, then
/// `second_name = { second_text_key = second_text, second_flag_key = second_flag }`; or
/// `None` when the text is no TOML document or `table` is there and is no table.
pub uninterp spec fn toml_with_entries(
    source: Seq<char>,
    table: Seq<char>,
    name: Seq<char>,
    text_key: Seq<char>,
    text: Seq<char>,
    flag_key: Seq<char>,
    flag: bool,
    second_name: Seq<char>,
    second_text_key: Seq<char>,
    second_text: Seq<char>,
    second_flag_key: Seq<char>,
    second_flag: bool,
) -> Option<Seq<char>>;

/// Parses the document with toml_edit, builds the two inline tables from the arguments,
/// inserts them in order under their names in `table`
/// (`entry(table).or_insert(Item::Table(Table::new())).as_table_like_mut()`, then
/// `insert` twice), and writes the document out; the result is named `toml_with_entries`.
#[verifier::external_body]
fn with_entries(
    source: &str,
    table: &str,
    name: &str,
    text_key: &str,
    text: &str,
    flag_key: &str,
    flag: bool,
    second_name: &str,
    second_text_key: &str,
    second_text: &str,
    second_flag_key: &str,
    second_flag: bool,
) -> (r: Option<String>)
    ensures
        r matches Some(t) ==> toml_with_entries(
            source@,
            table@,
            name@,
            text_key@,
            text@,
            flag_key@,
            flag,
            second_name@,
            second_text_key@,
            second_text@,
            second_flag_key@,
            second_flag,
        ) == Some(t@),
        r is None ==> toml_with_entries(
            source@,
            table@,
            name@,
            text_key@,
            text@,
            flag_key@,
            flag,
            second_name@,
            second_text_key@,
            second_text@,
            second_flag_key@,
            second_flag,
        ) is None,
{
    let mut document = source.parse::<DocumentMut>().ok()?;
    let mut first = InlineTable::new();
    first.insert(text_key, Value::from(text));
    first.insert(flag_key, Value::from(flag));
    let mut second = InlineTable::new();
    second.insert(second_text_key, Value::from(second_text));
    second.insert(second_flag_key, Value::from(second_flag));
    let parent = document.entry(table).or_insert(Item::Table(Table::new())).as_table_like_mut()?;
    parent.insert(name, Item::Value(Value::InlineTable(first)));
    parent.insert(second_name, Item::Value(Value::InlineTable(second)));
    Some(document.to_string())
}

/// The text toml_edit writes after `document[table][key] = value(items)` with the items as
/// an array of strings, or `None` when the text is no TOML document.
pub uninterp spec fn toml_with_list(source: Seq<char>, table: Seq<char>, key: Seq<char>, items: Seq<Seq<char>>) -> Option<
    Seq<char>,
>;

/// Parses the document with toml_edit, sets `document[table][key]` to the array of the
/// items and writes the document out; the result is named `toml_with_list`. Indexing
/// panics when `table` holds something other than a table, so that is excluded.
#[verifier::external_body]
fn with_list(source: &str, table: &str, key: &str, items: &Vec<String>) -> (r: Option<String>)
    requires
        toml_top_item(source@, table@) matches Some(item) && (item is Absent || is_table_like(item)),
    ensures
        r matches Some(t) ==> toml_with_list(source@, table@, key@, texts(items@)) == Some(t@),
        r is None ==> toml_with_list(source@, table@, key@, texts(items@)) is None,
{
    let mut document = source.parse::<DocumentMut>().ok()?;
    document[table][key] = value(items.iter().map(String::as_str).collect::<Array>());
    Some(document.to_string())
}

/// The text toml_edit writes after appending the table `{ name_key = name, path_key = path,
/// list_key = list }` to the array of tables `array`, or `None` when the text is no TOML
/// document or `array` is there and is no array of tables.
pub uninterp spec fn toml_with_array_table(
    source: Seq<char>,
    array: Seq<char>,
    name_key: Seq<char>,
    name: Seq<char>,
    path_key: Seq<char>,
    path: Seq<char>,
    list_key: Seq<char>,
    list: Seq<Seq<char>>,
) -> Option<Seq<char>>;

/// Parses the document with toml_edit, pushes the new table onto `array`
/// (`entry(array).or_insert(Item::ArrayOfTables(ArrayOfTables::new()))`, then
/// `as_array_of_tables_mut` and `push`) and writes the document out; the result is named
/// `toml_with_array_table`.
#[verifier::external_body]
fn with_array_table(
    source: &str,
    array: &str,
    name_key: &str,
    name: &str,
    path_key: &str,
    path: &str,
    list_key: &str,
    list: &Vec<String>,
) -> (r: Option<String>)
    ensures
        r matches Some(t) ==> toml_with_array_table(source@, array@, name_key@, name@, path_key@, path@, list_key@, texts(list@))
            == Some(t@),
        r is None ==> toml_with_array_table(source@, array@, name_key@, name@, path_key@, path@, list_key@, texts(list@))
            is None,
{
    let mut document = source.parse::<DocumentMut>().ok()?;
    let mut entry = Table::new();
    entry[name_key] = value(name);
    entry[path_key] = value(path);
    entry[list_key] = value(list.iter().map(String::as_str).collect::<Array>());
    let tables = document.entry(array).or_insert(Item::ArrayOfTables(ArrayOfTables::new())).as_array_of_tables_mut()?;
    tables.push(entry);
    Some(document.to_string())
}

// ----- The component manifest -----

/// What cargo reports of the component package: its feature names, its target names and
/// its dependencies.
#[derive(Clone, Debug, PartialEq, Eq)]
pub struct PackageFacts {
    pub features: Vec<String>,
    pub targets: Vec<String>,
    pub dependencies: Vec<DeclaredDependency>,
}

/// The facts that `init` decides on: the package's, and what its manifest holds, when the
/// manifest text is a TOML document.
pub open spec fn manifest_facts_of(source: Seq<char>, package: PackageFacts) -> Option<ManifestFacts> {
    match (
        toml_top_item(source, "target"@),
        toml_top_item(source, "dependencies"@),
        toml_table_item(source, "dependencies"@, "dx-story"@),
        toml_field_item(source, "dependencies"@, "dx-story"@, "optional"@),
        toml_table_item(source, "dependencies"@, "dioxus"@),
        toml_top_item(source, "example"@),
    ) {
        (Some(target), Some(dependencies), Some(library), Some(optional), Some(dioxus), Some(example)) => Some(
            ManifestFacts {
                features: package.features,
                targets: package.targets,
                dependencies: package.dependencies,
                has_target_table: !(target is Absent),
                dependencies_is_table: dependencies is Absent || is_table_like(dependencies),
                declares_library: !(library is Absent),
                library_optional: optional == TomlItem::Boolean(true),
                declares_dioxus: !(dioxus is Absent),
                examples_is_array: example is Absent || example is ArrayOfTables,
            },
        ),
        _ => None,
    }
}

fn is_absent_item(item: TomlItem) -> (r: bool)
    ensures
        r == item is Absent,
{
    matches!(item, TomlItem::Absent)
}

/// Reads the manifest facts from the package's facts and its manifest text.
fn read_manifest_facts(source: &str, package: PackageFacts) -> (r: Option<ManifestFacts>)
    ensures
        r == manifest_facts_of(source@, package),
{
    let target = top_item(source, "target");
    let dependencies = top_item(source, "dependencies");
    let library = table_item(source, "dependencies", "dx-story");
    let optional = field_item(source, "dependencies", "dx-story", "optional");
    let dioxus = table_item(source, "dependencies", "dioxus");
    let example = top_item(source, "example");
    match (target, dependencies, library, optional, dioxus, example) {
        (Some(target), Some(dependencies), Some(library), Some(optional), Some(dioxus), Some(example)) => Some(
            ManifestFacts {
                features: package.features,
                targets: package.targets,
                dependencies: package.dependencies,
                has_target_table: !is_absent_item(target),
                dependencies_is_table: is_absent_item(dependencies) || matches!(dependencies, TomlItem::Table)
                    || matches!(dependencies, TomlItem::InlineTable),
                declares_library: !is_absent_item(library),
                library_optional: matches!(optional, TomlItem::Boolean(true)),
                declares_dioxus: !is_absent_item(dioxus),
                examples_is_array: is_absent_item(example) || matches!(example, TomlItem::ArrayOfTables),
            },
        ),
        _ => None,
    }
}

/// The key of the library dependency's inline table that says where it comes from.
pub open spec fn library_entry_key(library: LibrarySource) -> Seq<char> {
    match library {
        LibrarySource::Registry => "version"@,
        LibrarySource::Local { .. } => "path"@,
    }
}

/// The version of the library, or the path from the package root to the local checkout.
pub open spec fn library_entry_text(library: LibrarySource, root: Seq<Seq<char>>) -> Seq<char> {
    match library {
        LibrarySource::Registry => LIBRARY_VERSION@,
        LibrarySource::Local { path, dioxus_requirement } => joined(relative_components(root, texts(path@)), "/"@),
    }
}

/// The library dependency entry is written as optional.
pub open spec fn library_is_optional() -> bool {
    true
}

/// The Dioxus dependency entry is written without default features.
pub open spec fn dioxus_default_features() -> bool {
    false
}

/// The manifest text with the missing dependencies added: the library, when the manifest
/// has none, as `dx-story = { version | path = ..., optional = true }`, then Dioxus, when
/// the manifest has none, as `dioxus = { version = ..., default-features = false }`; an
/// entry the manifest has is kept as it is.
pub open spec fn with_dependencies_text(
    source: Seq<char>,
    facts: ManifestFacts,
    library: LibrarySource,
    root: Seq<Seq<char>>,
) -> Option<Seq<char>> {
    let key = library_entry_key(library);
    let text = library_entry_text(library, root);
    let requirement = dioxus_requirement_of(library);
    if facts.declares_library && facts.declares_dioxus {
        Some(source)
    } else if facts.declares_dioxus {
        toml_with_entry(source, "dependencies"@, "dx-story"@, key, text, "optional"@, library_is_optional())
    } else if facts.declares_library {
        toml_with_entry(source, "dependencies"@, "dioxus"@, "version"@, requirement, "default-features"@, dioxus_default_features())
    } else {
        toml_with_entries(
            source,
            "dependencies"@,
            "dx-story"@,
            key,
            text,
            "optional"@,
            library_is_optional(),
            "dioxus"@,
            "version"@,
            requirement,
            "default-features"@,
            dioxus_default_features(),
        )
    }
}

/// The manifest text after the planned edits, in order: the missing dependencies, the
/// catalog feature's list under `features`, and the catalog example appended to
/// `example`; or the first edit that cannot be made.
pub open spec fn edited_manifest(
    source: Seq<char>,
    facts: ManifestFacts,
    library: LibrarySource,
    root: Seq<Seq<char>>,
) -> Result<Seq<char>, Seq<char>> {
    match with_dependencies_text(source, facts, library, root) {
        None => Err("dependencies must be a table"@),
        Some(text) => match toml_top_item(text, "features"@) {
            None => Err("parse consumer manifest"@),
            Some(features) => if !(features is Absent || is_table_like(features)) {
                Err("features must be a table"@)
            } else {
                match toml_with_list(text, "features"@, CATALOG_FEATURE@, catalog_features_of(facts)) {
                    None => Err("parse consumer manifest"@),
                    Some(with_feature) => match toml_with_array_table(
                        with_feature,
                        "example"@,
                        "name"@,
                        CATALOG_FEATURE@,
                        "path"@,
                        CATALOG_EXAMPLE_PATH@,
                        "required-features"@,
                        seq![CATALOG_FEATURE@],
                    ) {
                        None => Err("example must be an array of tables"@),
                        Some(edited) => Ok(edited),
                    },
                }
            },
        },
    }
}

/// What `init` makes of the manifest: the edited text, or why it cannot be edited.
pub open spec fn manifest_change_result(
    source: Seq<char>,
    package: PackageFacts,
    library: LibrarySource,
    root: Seq<Seq<char>>,
) -> Result<Seq<char>, Seq<char>> {
    match manifest_facts_of(source, package) {
        None => Err("parse consumer manifest"@),
        Some(facts) => match manifest_error(facts, library, root) {
            Some(message) => Err(message),
            None => edited_manifest(source, facts, library, root),
        },
    }
}

fn add_dependencies(source: &str, facts: &ManifestFacts, plan: &ManifestPlan, library: &LibrarySource, root: &Vec<String>) -> (r:
    Option<String>)
    requires
        (plan.library_dependency is None <==> facts.declares_library),
        match plan.library_dependency {
            Some(dependency) => crate::init::library_dependency_fits(*library, texts(root@), dependency),
            None => true,
        },
        (plan.dioxus_requirement is None <==> facts.declares_dioxus),
        match plan.dioxus_requirement {
            Some(requirement) => requirement@ == dioxus_requirement_of(*library),
            None => true,
        },
    ensures
        r matches Some(t) ==> with_dependencies_text(source@, *facts, *library, texts(root@)) == Some(t@),
        r is None ==> with_dependencies_text(source@, *facts, *library, texts(root@)) is None,
{
    let optional = true;
    let default_features = false;
    let library_entry = match &plan.library_dependency {
        None => None,
        Some(LibraryDependency::Version(version)) => Some(("version", version.clone())),
        Some(LibraryDependency::Path(components)) => Some(("path", join(components, "/"))),
    };
    match (library_entry, &plan.dioxus_requirement) {
        (None, None) => Some(source.to_owned()),
        (Some((key, text)), None) => with_entry(source, "dependencies", "dx-story", key, text.as_str(), "optional", optional),
        (None, Some(requirement)) => with_entry(
            source,
            "dependencies",
            "dioxus",
            "version",
            requirement.as_str(),
            "default-features",
            default_features,
        ),
        (Some((key, text)), Some(requirement)) => with_entries(
            source,
            "dependencies",
            "dx-story",
            key,
            text.as_str(),
            "optional",
            optional,
            "dioxus",
            "version",
            requirement.as_str(),
            "default-features",
            default_features,
        ),
    }
}

/// The manifest text with the catalog added to the component package rooted at `root`, or
/// why it cannot be: the text is no TOML document ("parse consumer manifest"), a reason
/// of `manifest_error`, or an edit that cannot be made.
pub fn manifest_change(source: &str, package: PackageFacts, library: &LibrarySource, root: &Vec<String>) -> (r:
    Result<String, String>)
    ensures
        match r {
            Ok(text) => manifest_change_result(source@, package, *library, texts(root@)) == Ok::<
                Seq<char>,
                Seq<char>,
            >(text@),
            Err(message) => manifest_change_result(source@, package, *library, texts(root@)) == Err::<
                Seq<char>,
                Seq<char>,
            >(message@),
        },
{
    let facts = match read_manifest_facts(source, package) {
        Some(facts) => facts,
        None => return Err("parse consumer manifest".to_owned()),
    };
    let plan = match plan_manifest_change(&facts, library, root) {
        Ok(plan) => plan,
        Err(message) => return Err(message),
    };
    let text = match add_dependencies(source, &facts, &plan, library, root) {
        Some(text) => text,
        None => return Err("dependencies must be a table".to_owned()),
    };
    match top_item(text.as_str(), "features") {
        Some(features) => {
            if !(is_absent_item(features) || matches!(features, TomlItem::Table) || matches!(features, TomlItem::InlineTable)) {
                return Err("features must be a table".to_owned());
            }
        },
        None => return Err("parse consumer manifest".to_owned()),
    }
    let with_feature = match with_list(text.as_str(), "features", CATALOG_FEATURE, &plan.catalog_features) {
        Some(t) => t,
        None => return Err("parse consumer manifest".to_owned()),
    };
    let required = vec![CATALOG_FEATURE.to_owned()];
    proof {
        assert(texts(required@) == seq![CATALOG_FEATURE@]);
    }
    match with_array_table(
        with_feature.as_str(),
        "example",
        "name",
        CATALOG_FEATURE,
        "path",
        CATALOG_EXAMPLE_PATH,
        "required-features",
        &required,
    ) {
        Some(edited) => Ok(edited),
        None => Err("example must be an array of tables".to_owned()),
    }
}

// ----- The configuration file -----

/// The text toml_edit writes for a new document after `document[table][key] = value(text)`.
pub uninterp spec fn toml_new_with_text(table: Seq<char>, key: Seq<char>, text: Seq<char>) -> Seq<char>;

/// `toml_edit::DocumentMut::new()`, `document[table][key] = value(text)`, then
/// `to_string`; the result is named `toml_new_with_text`.
#[verifier::external_body]
fn new_with_text(table: &str, key: &str, text: &str) -> (r: String)
    ensures
        r@ == toml_new_with_text(table@, key@, text@),
{
    let mut document = DocumentMut::new();
    document[table][key] = value(text);
    document.to_string()
}

/// The text toml_edit writes for a new document after `document[table][key] = value(text)`
/// and `document[table][second_key] = value(second_text)`.
pub uninterp spec fn toml_new_with_texts(
    table: Seq<char>,
    key: Seq<char>,
    text: Seq<char>,
    second_key: Seq<char>,
    second_text: Seq<char>,
) -> Seq<char>;

/// `toml_edit::DocumentMut::new()`, the two assignments, then `to_string`; the result is
/// named `toml_new_with_texts`.
#[verifier::external_body]
fn new_with_texts(table: &str, key: &str, text: &str, second_key: &str, second_text: &str) -> (r: String)
    ensures
        r@ == toml_new_with_texts(table@, key@, text@, second_key@, second_text@),
{
    let mut document = DocumentMut::new();
    document[table][key] = value(text);
    document[table][second_key] = value(second_text);
    document.to_string()
}

/// The component texts of an optional path.
pub open spec fn optional_texts(path: Option<Vec<String>>) -> Option<Seq<Seq<char>>> {
    match path {
        Some(p) => Some(texts(p@)),
        None => None,
    }
}

/// The new configuration file as toml_edit writes it: the catalog package's name as
/// `catalog.package`, then, when given, the path to the package as `catalog.path`.
pub open spec fn configuration_text_of(package: Seq<char>, path: Option<Seq<Seq<char>>>) -> Seq<char> {
    match path {
        Some(components) => toml_new_with_texts("catalog"@, "package"@, package, "path"@, joined(components, "/"@)),
        None => toml_new_with_text("catalog"@, "package"@, package),
    }
}

/// The text of a new configuration file naming the catalog package and, when given, the
/// path from the configuration's directory to it.
pub fn configuration_text(package: &str, path: &Option<Vec<String>>) -> (r: String)
    ensures
        r@ == configuration_text_of(package@, optional_texts(*path)),
{
    match path {
        Some(components) => {
            let joined_path = join(components, "/");
            new_with_texts("catalog", "package", package, "path", joined_path.as_str())
        },
        None => new_with_text("catalog", "package", package),
    }
}

} // verus!
