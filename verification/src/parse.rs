//! The dependencies a manifest declares.
//!
//! The `toml` crate reads the manifest's text. What it read is copied into a
//! [`Node`], a plain tree, and everything after that is decided here: which
//! sections count, what each entry declares, and which entries repeat.

use crate::text::same_text;
use vstd::prelude::*;

verus! {

/// A declared dependency: a package's name and the constraint on its version.
#[derive(Debug, Clone, PartialEq, Eq)]
pub struct Dep {
    pub name: String,
    pub version_req: String,
}

impl View for Dep {
    type V = (Seq<char>, Seq<char>);

    open spec fn view(&self) -> (Seq<char>, Seq<char>) {
        (self.name@, self.version_req@)
    }
}

/// The views of a sequence of dependencies.
pub open spec fn dep_texts(deps: Seq<Dep>) -> Seq<(Seq<char>, Seq<char>)> {
    Seq::new(deps.len(), |i: int| deps[i]@)
}

/// A value of a manifest, as far as dependencies go: a string, a boolean, a
/// table with its entries in the order `toml` walks them, or anything else.
#[derive(Debug, PartialEq, Eq)]
pub enum Node {
    Text(String),
    Flag(bool),
    Table(Vec<(String, Node)>),
    Other,
}

/// Why a manifest could not be read.
#[derive(Debug, Clone, PartialEq, Eq)]
pub enum ManifestError {
    /// The text is not TOML; `message` is what the parser said.
    Syntax { message: String },
}

#[verifier::external_type_specification]
#[verifier::external_body]
pub struct ExTomlValue(toml::Value);

/// What `toml::from_str` makes of a manifest's text: the document it read, as
/// a [`Node`], or the message of the error it returned.
pub uninterp spec fn parsed_document(text: Seq<char>) -> Result<Node, Seq<char>>;

/// The plain copy of what a `toml::Value` holds: the string of a string, the
/// boolean of a boolean, for a table the copies of its entries in the order
/// its `iter` yields them, and `Other` for every other value.
pub uninterp spec fn node_model(value: toml::Value) -> Node;

/// Calls `toml::from_str` to read `text` as a `toml::Value`, and keeps of an
/// error its message. The contract names the answer by [`parsed_document`],
/// through the plain copy of the value read.
#[verifier::external_body]
fn read_toml(text: &str) -> (r: Result<toml::Value, String>)
    ensures
        match r {
            Ok(value) => parsed_document(text@) == Ok::<Node, Seq<char>>(node_model(value)),
            Err(message) => parsed_document(text@) == Err::<Node, Seq<char>>(message@),
        },
{
    match toml::from_str::<toml::Value>(text) {
        Ok(value) => Ok(value),
        Err(error) => Err(error.to_string()),
    }
}

/// Copies a `toml::Value` into a [`Node`], variant by variant; a table's
/// entries come from `toml::map::Map::iter`. The contract names the copy.
#[verifier::external_body]
fn node_of(value: &toml::Value) -> (node: Node)
    ensures
        node == node_model(*value),
{
    match value {
        toml::Value::String(text) => Node::Text(text.clone()),
        toml::Value::Boolean(flag) => Node::Flag(*flag),
        toml::Value::Table(table) => Node::Table(
            table.iter().map(|(key, item)| (key.clone(), node_of(item))).collect(),
        ),
        _ => Node::Other,
    }
}

/// The value of the first entry named `key`, if there is one.
pub open spec fn lookup(entries: Seq<(String, Node)>, key: Seq<char>) -> Option<Node>
    decreases entries.len(),
{
    if entries.len() == 0 {
        None
    } else if entries[0].0@ == key {
        Some(entries[0].1)
    } else {
        lookup(entries.skip(1), key)
    }
}

/// The entries of the document's table named `key`; none where the document has
/// no such entry or the entry is no table.
pub open spec fn section(doc: Node, key: Seq<char>) -> Seq<(String, Node)> {
    match doc {
        Node::Table(entries) => match lookup(entries@, key) {
            Some(Node::Table(inner)) => inner@,
            _ => Seq::empty(),
        },
        _ => Seq::empty(),
    }
}

/// What one entry of a dependency table declares. A bare string is the
/// constraint. A table gives its `version` where that is a string; with
/// `skip_optional`, a table whose `optional` is `true` declares nothing. Every
/// entry without a constraint gets `unspecified`.
pub open spec fn declared(entry: (String, Node), skip_optional: bool) -> Option<
    (Seq<char>, Seq<char>),
> {
    match entry.1 {
        Node::Text(constraint) => Some((entry.0@, constraint@)),
        Node::Table(fields) => if skip_optional && lookup(fields@, "optional"@) == Some(
            Node::Flag(true),
        ) {
            None
        } else {
            match lookup(fields@, "version"@) {
                Some(Node::Text(constraint)) => Some((entry.0@, constraint@)),
                _ => Some((entry.0@, "unspecified"@)),
            }
        },
        _ => Some((entry.0@, "unspecified"@)),
    }
}

/// What the entries of one dependency table declare, in order.
pub open spec fn table_deps(entries: Seq<(String, Node)>, skip_optional: bool) -> Seq<
    (Seq<char>, Seq<char>),
>
    decreases entries.len(),
{
    if entries.len() == 0 {
        Seq::empty()
    } else {
        let before = table_deps(entries.drop_last(), skip_optional);
        match declared(entries.last(), skip_optional) {
            Some(dep) => before.push(dep),
            None => before,
        }
    }
}

/// Everything the document declares: its `dependencies`, then on request its
/// `dev-dependencies`, then on request its `build-dependencies`.
pub open spec fn all_deps(
    doc: Node,
    include_dev: bool,
    include_build: bool,
    skip_optional: bool,
) -> Seq<(Seq<char>, Seq<char>)> {
    table_deps(section(doc, "dependencies"@), skip_optional) + (if include_dev {
        table_deps(section(doc, "dev-dependencies"@), skip_optional)
    } else {
        Seq::empty()
    }) + (if include_build {
        table_deps(section(doc, "build-dependencies"@), skip_optional)
    } else {
        Seq::empty()
    })
}

/// `items` without repeats: of equal items the first stays where it is.
pub open spec fn deduplicated<T>(items: Seq<T>) -> Seq<T>
    decreases items.len(),
{
    if items.len() == 0 {
        Seq::empty()
    } else {
        let before = deduplicated(items.drop_last());
        if before.contains(items.last()) {
            before
        } else {
            before.push(items.last())
        }
    }
}

/// [`deduplicated`] holds exactly the items it was given, each once.
pub proof fn deduplicated_is_a_set<T>(items: Seq<T>)
    ensures
        deduplicated(items).no_duplicates(),
        forall|x: T| deduplicated(items).contains(x) <==> items.contains(x),
    decreases items.len(),
{
    if items.len() > 0 {
        let init = items.drop_last();
        let last = items.last();
        let before = deduplicated(init);
        let whole = deduplicated(items);
        deduplicated_is_a_set(init);
        assert forall|x: T| whole.contains(x) <==> items.contains(x) by {
            if items.contains(x) {
                let i = choose|i: int| 0 <= i < items.len() && items[i] == x;
                if i < items.len() - 1 {
                    assert(init[i] == x);
                    assert(init.contains(x));
                }
            }
            if init.contains(x) {
                let i = choose|i: int| 0 <= i < init.len() && init[i] == x;
                assert(items[i] == x);
            }
            assert(items[items.len() - 1] == last);
            assert(items.contains(x) <==> (init.contains(x) || x == last));
            if !before.contains(last) {
                assert(whole == before.push(last));
                if before.contains(x) {
                    let j = choose|j: int| 0 <= j < before.len() && before[j] == x;
                    assert(whole[j] == x);
                }
                assert(whole[before.len() as int] == last);
                if whole.contains(x) {
                    let j = choose|j: int| 0 <= j < whole.len() && whole[j] == x;
                    if j < before.len() {
                        assert(before[j] == x);
                    }
                }
            }
        }
        assert(whole.no_duplicates());
    }
}

/// Whether `x` occurs in `items` before any `y` does.
pub open spec fn occurs_before<T>(items: Seq<T>, x: T, y: T) -> bool {
    exists|i: int| 0 <= i < items.len() && items[i] == x && !items.take(i + 1).contains(y)
}

/// [`deduplicated`] keeps the order in which items first occur: of two items
/// it holds, the one that comes first in it occurs first in `items`.
pub proof fn deduplicated_keeps_first_occurrences<T>(items: Seq<T>, a: int, b: int)
    requires
        0 <= a < b < deduplicated(items).len(),
    ensures
        occurs_before(items, deduplicated(items)[a], deduplicated(items)[b]),
    decreases items.len(),
{
    let init = items.drop_last();
    let last = items.last();
    let before = deduplicated(init);
    let whole = deduplicated(items);
    let x = whole[a];
    let y = whole[b];
    if b < before.len() {
        assert(x == before[a] && y == before[b]);
        deduplicated_keeps_first_occurrences(init, a, b);
        let i = choose|i: int| 0 <= i < init.len() && init[i] == x && !init.take(i + 1).contains(y);
        assert(init.take(i + 1) =~= items.take(i + 1));
        assert(items[i] == x);
    } else {
        assert(whole == before.push(last));
        assert(y == last && x == before[a]);
        deduplicated_is_a_set(init);
        assert(before.contains(x));
        assert(init.contains(x));
        let i = choose|i: int| 0 <= i < init.len() && init[i] == x;
        assert(items[i] == x);
        let prefix = items.take(i + 1);
        if prefix.contains(y) {
            let j = choose|j: int| 0 <= j < prefix.len() && prefix[j] == y;
            assert(init[j] == y);
            assert(init.contains(y));
        }
    }
}

fn find_entry<'a>(entries: &'a Vec<(String, Node)>, key: &str) -> (found: Option<&'a Node>)
    ensures
        match found {
            Some(node) => lookup(entries@, key@) == Some(*node),
            None => lookup(entries@, key@) is None,
        },
{
    let mut i: usize = 0;
    assert(entries@.skip(0) =~= entries@);
    while i < entries.len()
        invariant
            i <= entries.len(),
            lookup(entries@, key@) == lookup(entries@.skip(i as int), key@),
        decreases entries.len() - i,
    {
        if same_text(entries[i].0.as_str(), key) {
            return Some(&entries[i].1);
        }
        assert(entries@.skip(i as int).skip(1) =~= entries@.skip(i as int + 1));
        i += 1;
    }
    None
}

fn find_section<'a>(doc: &'a Node, key: &str) -> (found: Option<&'a Vec<(String, Node)>>)
    ensures
        match found {
            Some(entries) => section(*doc, key@) == entries@,
            None => section(*doc, key@) == Seq::<(String, Node)>::empty(),
        },
{
    match doc {
        Node::Table(entries) => match find_entry(entries, key) {
            Some(Node::Table(inner)) => Some(inner),
            _ => None,
        },
        _ => None,
    }
}

fn declared_by(entry: &(String, Node), skip_optional: bool) -> (dep: Option<Dep>)
    ensures
        match dep {
            Some(d) => declared(*entry, skip_optional) == Some(d@),
            None => declared(*entry, skip_optional) is None,
        },
{
    let name = entry.0.clone();
    match &entry.1 {
        Node::Text(constraint) => Some(Dep { name, version_req: constraint.clone() }),
        Node::Table(fields) => {
            if skip_optional {
                if let Some(Node::Flag(true)) = find_entry(fields, "optional") {
                    return None;
                }
            }
            let version_req = if let Some(Node::Text(constraint)) = find_entry(fields, "version") {
                constraint.clone()
            } else {
                "unspecified".to_owned()
            };
            Some(Dep { name, version_req })
        },
        _ => Some(Dep { name, version_req: "unspecified".to_owned() }),
    }
}

/// The dependencies that the entries of one table declare, in order.
pub fn parse_deps_table(entries: &Vec<(String, Node)>, skip_optional: bool) -> (deps: Vec<Dep>)
    ensures
        dep_texts(deps@) == table_deps(entries@, skip_optional),
{
    let mut deps: Vec<Dep> = Vec::new();
    let mut i: usize = 0;
    while i < entries.len()
        invariant
            i <= entries.len(),
            dep_texts(deps@) == table_deps(entries@.take(i as int), skip_optional),
        decreases entries.len() - i,
    {
        assert(entries@.take(i as int + 1).drop_last() =~= entries@.take(i as int));
        let ghost before = dep_texts(deps@);
        if let Some(dep) = declared_by(&entries[i], skip_optional) {
            deps.push(dep);
            assert(dep_texts(deps@) =~= before.push(dep@));
        }
        i += 1;
    }
    assert(entries@.take(entries.len() as int) =~= entries@);
    deps
}

fn copy_dep(dep: &Dep) -> (copy: Dep)
    ensures
        copy == *dep,
{
    Dep { name: dep.name.clone(), version_req: dep.version_req.clone() }
}

fn holds_dep(deps: &Vec<Dep>, dep: &Dep) -> (held: bool)
    ensures
        held == dep_texts(deps@).contains(dep@),
{
    let mut i: usize = 0;
    while i < deps.len()
        invariant
            i <= deps.len(),
            forall|j: int| 0 <= j < i ==> dep_texts(deps@)[j] != dep@,
        decreases deps.len() - i,
    {
        if deps[i].name == dep.name && deps[i].version_req == dep.version_req {
            assert(dep_texts(deps@)[i as int] == dep@);
            return true;
        }
        i += 1;
    }
    false
}

/// `deps` without repeats: of dependencies equal in name and constraint the
/// first stays where it is.
pub fn unique_deps(deps: Vec<Dep>) -> (unique: Vec<Dep>)
    ensures
        dep_texts(unique@) == deduplicated(dep_texts(deps@)),
{
    let mut unique: Vec<Dep> = Vec::new();
    let mut i: usize = 0;
    while i < deps.len()
        invariant
            i <= deps.len(),
            dep_texts(unique@) == deduplicated(dep_texts(deps@).take(i as int)),
        decreases deps.len() - i,
    {
        assert(dep_texts(deps@).take(i as int + 1).drop_last() =~= dep_texts(deps@).take(
            i as int,
        ));
        let ghost before = dep_texts(unique@);
        if !holds_dep(&unique, &deps[i]) {
            unique.push(copy_dep(&deps[i]));
            assert(dep_texts(unique@) =~= before.push(deps[i as int]@));
        }
        i += 1;
    }
    assert(dep_texts(deps@).take(deps.len() as int) =~= dep_texts(deps@));
    unique
}

fn append_deps(all: &mut Vec<Dep>, more: Vec<Dep>)
    ensures
        dep_texts(final(all)@) == dep_texts(old(all)@) + dep_texts(more@),
{
    let mut more = more;
    let ghost before = all@;
    let ghost added = more@;
    all.append(&mut more);
    assert(dep_texts(all@) =~= dep_texts(before) + dep_texts(added));
}

/// The dependencies a manifest's document declares, without repeats.
pub fn extract_dependencies(
    doc: &Node,
    include_dev: bool,
    include_build: bool,
    skip_optional: bool,
) -> (deps: Vec<Dep>)
    ensures
        dep_texts(deps@) == deduplicated(all_deps(*doc, include_dev, include_build, skip_optional)),
{
    let mut all: Vec<Dep> = Vec::new();
    assert(dep_texts(all@) =~= Seq::empty());
    if let Some(entries) = find_section(doc, "dependencies") {
        append_deps(&mut all, parse_deps_table(entries, skip_optional));
    }
    let ghost normal = dep_texts(all@);
    assert(normal =~= table_deps(section(*doc, "dependencies"@), skip_optional));
    if include_dev {
        if let Some(entries) = find_section(doc, "dev-dependencies") {
            append_deps(&mut all, parse_deps_table(entries, skip_optional));
        }
    }
    let ghost with_dev = dep_texts(all@);
    assert(with_dev =~= normal + (if include_dev {
        table_deps(section(*doc, "dev-dependencies"@), skip_optional)
    } else {
        Seq::empty()
    }));
    if include_build {
        if let Some(entries) = find_section(doc, "build-dependencies") {
            append_deps(&mut all, parse_deps_table(entries, skip_optional));
        }
    }
    assert(dep_texts(all@) =~= all_deps(*doc, include_dev, include_build, skip_optional));
    unique_deps(all)
}

/// What [`parse_manifest`] owes for a given result.
pub open spec fn manifest_holds(
    text: Seq<char>,
    include_dev: bool,
    include_build: bool,
    skip_optional: bool,
    result: Result<Vec<Dep>, ManifestError>,
) -> bool {
    match parsed_document(text) {
        Ok(doc) => result matches Ok(deps) && dep_texts(deps@) == deduplicated(
            all_deps(doc, include_dev, include_build, skip_optional),
        ),
        Err(said) => result matches Err(ManifestError::Syntax { message }) && message@ == said,
    }
}

/// Reads a manifest's text and lists the dependencies it declares, without
/// repeats. Fails where the text is not TOML.
pub fn parse_manifest(
    text: &str,
    include_dev: bool,
    include_build: bool,
    skip_optional: bool,
) -> (result: Result<Vec<Dep>, ManifestError>)
    ensures
        manifest_holds(text@, include_dev, include_build, skip_optional, result),
{
    match read_toml(text) {
        Ok(value) => {
            let doc = node_of(&value);
            Ok(extract_dependencies(&doc, include_dev, include_build, skip_optional))
        },
        Err(message) => Err(ManifestError::Syntax { message }),
    }
}

} // verus!
