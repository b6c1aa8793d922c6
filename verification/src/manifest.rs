//! The synthetic package descriptor and its serialization contract.
//!
//! A descriptor is built fresh for every isolated build, written to disk
//! once by the caller, and never read back.  Its serialized form must be
//! deterministic: table keys appear in strictly ascending lexicographic
//! order of their byte encodings, a map field that is empty is omitted
//! entirely, and an optional field that is absent is omitted entirely —
//! the consuming toolchain treats presence as an override signal.

use vstd::prelude::*;
use vstd::string::StringExecFns;
use vstd::utf8::encode_utf8;

use crate::strings::{
    lemma_lex_lt_transitive, lemma_lex_lt_trichotomy, lex_lt, str_bytes_eq, str_lex_lt,
};

verus! {

/// The byte encoding a key is ordered by.
pub open spec fn key_bytes(key: Seq<char>) -> Seq<u8> {
    encode_utf8(key)
}

/// Entries are in strictly ascending lexicographic order of their key
/// encodings; in particular every key occurs at most once.
pub open spec fn table_sorted<V>(entries: Seq<(Seq<char>, V)>) -> bool {
    forall|i: int, j: int|
        0 <= i < j < entries.len() ==> lex_lt(
            key_bytes(#[trigger] entries[i].0),
            key_bytes(#[trigger] entries[j].0),
        )
}

/// Insertion into a sorted table: the entry lands at its ordered position,
/// replacing an entry whose key has the same encoding.
pub open spec fn sorted_insert<V>(
    entries: Seq<(Seq<char>, V)>,
    key: Seq<char>,
    value: V,
) -> Seq<(Seq<char>, V)>
    decreases entries.len(),
{
    if entries.len() == 0 {
        seq![(key, value)]
    } else if lex_lt(key_bytes(entries[0].0), key_bytes(key)) {
        seq![entries[0]] + sorted_insert(entries.drop_first(), key, value)
    } else if key_bytes(entries[0].0) == key_bytes(key) {
        seq![(key, value)] + entries.drop_first()
    } else {
        seq![(key, value)] + entries
    }
}

/// Where `sorted_insert` puts the new entry, phrased by the scan position
/// an implementation finds: the first index whose key is not below the new
/// key.
proof fn lemma_sorted_insert_at<V>(entries: Seq<(Seq<char>, V)>, key: Seq<char>, value: V, idx: int)
    requires
        0 <= idx <= entries.len(),
        forall|k: int|
            0 <= k < idx ==> lex_lt(key_bytes(#[trigger] entries[k].0), key_bytes(key)),
        idx < entries.len() ==> !lex_lt(key_bytes(entries[idx].0), key_bytes(key)),
    ensures
        idx < entries.len() && key_bytes(entries[idx].0) == key_bytes(key) ==> sorted_insert(
            entries,
            key,
            value,
        ) == entries.take(idx) + seq![(key, value)] + entries.skip(idx + 1),
        !(idx < entries.len() && key_bytes(entries[idx].0) == key_bytes(key)) ==> sorted_insert(
            entries,
            key,
            value,
        ) == entries.take(idx) + seq![(key, value)] + entries.skip(idx),
    decreases entries.len(),
{
    if entries.len() == 0 {
        assert(sorted_insert(entries, key, value) =~= entries.take(0) + seq![(key, value)]
            + entries.skip(0));
    } else if idx == 0 {
        if key_bytes(entries[0].0) == key_bytes(key) {
            assert(sorted_insert(entries, key, value) =~= entries.take(0) + seq![(key, value)]
                + entries.skip(1));
        } else {
            assert(sorted_insert(entries, key, value) =~= entries.take(0) + seq![(key, value)]
                + entries.skip(0));
        }
    } else {
        assert(lex_lt(key_bytes(entries[0].0), key_bytes(key)));
        let rest = entries.drop_first();
        assert(forall|k: int|
            0 <= k < idx - 1 ==> lex_lt(key_bytes(#[trigger] rest[k].0), key_bytes(key)));
        lemma_sorted_insert_at(rest, key, value, idx - 1);
        if idx < entries.len() && key_bytes(entries[idx].0) == key_bytes(key) {
            assert(sorted_insert(entries, key, value) =~= entries.take(idx) + seq![(key, value)]
                + entries.skip(idx + 1)) by {
                assert(rest.take(idx - 1) =~= entries.skip(1).take(idx - 1));
                assert(sorted_insert(rest, key, value) == rest.take(idx - 1) + seq![(key, value)]
                    + rest.skip(idx));
            }
        } else {
            assert(sorted_insert(entries, key, value) =~= entries.take(idx) + seq![(key, value)]
                + entries.skip(idx)) by {
                assert(sorted_insert(rest, key, value) == rest.take(idx - 1) + seq![(key, value)]
                    + rest.skip(idx - 1));
            }
        }
    }
}

/// Every entry of an insertion's result is either an original entry or the
/// inserted one.
proof fn lemma_sorted_insert_elems<V>(entries: Seq<(Seq<char>, V)>, key: Seq<char>, value: V)
    ensures
        forall|i: int|
            0 <= i < sorted_insert(entries, key, value).len() ==> (exists|j: int|
                0 <= j < entries.len() && #[trigger] sorted_insert(entries, key, value)[i]
                    == entries[j]) || sorted_insert(entries, key, value)[i] == (key, value),
    decreases entries.len(),
{
    if entries.len() == 0 {
    } else if lex_lt(key_bytes(entries[0].0), key_bytes(key)) {
        lemma_sorted_insert_elems(entries.drop_first(), key, value);
        assert forall|i: int| 0 <= i < sorted_insert(entries, key, value).len() implies (exists|
            j: int,
        |
            0 <= j < entries.len() && #[trigger] sorted_insert(entries, key, value)[i]
                == entries[j]) || sorted_insert(entries, key, value)[i] == (key, value) by {
            if i == 0 {
                assert(sorted_insert(entries, key, value)[0] == entries[0]);
            } else {
                let rest = entries.drop_first();
                assert(sorted_insert(entries, key, value)[i] == sorted_insert(rest, key, value)[i
                    - 1]);
                if exists|j: int|
                    0 <= j < rest.len() && #[trigger] sorted_insert(rest, key, value)[i - 1]
                        == rest[j] {
                    let j = choose|j: int|
                        0 <= j < rest.len() && #[trigger] sorted_insert(rest, key, value)[i - 1]
                            == rest[j];
                    assert(rest[j] == entries[j + 1]);
                }
            }
        }
    } else {
    }
}

/// Inserting into a sorted table keeps it sorted.
proof fn lemma_sorted_insert_sorted<V>(entries: Seq<(Seq<char>, V)>, key: Seq<char>, value: V)
    requires
        table_sorted(entries),
    ensures
        table_sorted(sorted_insert(entries, key, value)),
    decreases entries.len(),
{
    let result = sorted_insert(entries, key, value);
    if entries.len() == 0 {
    } else if lex_lt(key_bytes(entries[0].0), key_bytes(key)) {
        let rest = entries.drop_first();
        lemma_sorted_insert_sorted(rest, key, value);
        lemma_sorted_insert_elems(rest, key, value);
        assert forall|i: int, j: int| 0 <= i < j < result.len() implies lex_lt(
            key_bytes(#[trigger] result[i].0),
            key_bytes(#[trigger] result[j].0),
        ) by {
            if i == 0 {
                assert(result[j] == sorted_insert(rest, key, value)[j - 1]);
                if exists|k: int|
                    0 <= k < rest.len() && #[trigger] sorted_insert(rest, key, value)[j - 1]
                        == rest[k] {
                    let k = choose|k: int|
                        0 <= k < rest.len() && #[trigger] sorted_insert(rest, key, value)[j - 1]
                            == rest[k];
                    assert(rest[k] == entries[k + 1]);
                } else {
                    assert(result[j] == (key, value));
                }
            } else {
                assert(result[i] == sorted_insert(rest, key, value)[i - 1]);
                assert(result[j] == sorted_insert(rest, key, value)[j - 1]);
            }
        }
    } else if key_bytes(entries[0].0) == key_bytes(key) {
        assert forall|i: int, j: int| 0 <= i < j < result.len() implies lex_lt(
            key_bytes(#[trigger] result[i].0),
            key_bytes(#[trigger] result[j].0),
        ) by {
            if i == 0 {
                assert(result[j] == entries[j]);
                assert(lex_lt(key_bytes(entries[0].0), key_bytes(entries[j].0)));
            } else {
                assert(result[i] == entries[i]);
                assert(result[j] == entries[j]);
            }
        }
    } else {
        lemma_lex_lt_trichotomy(key_bytes(entries[0].0), key_bytes(key));
        assert(lex_lt(key_bytes(key), key_bytes(entries[0].0)));
        assert forall|i: int, j: int| 0 <= i < j < result.len() implies lex_lt(
            key_bytes(#[trigger] result[i].0),
            key_bytes(#[trigger] result[j].0),
        ) by {
            if i == 0 {
                assert(result[j] == entries[j - 1]);
                if j > 1 {
                    lemma_lex_lt_transitive(
                        key_bytes(key),
                        key_bytes(entries[0].0),
                        key_bytes(entries[j - 1].0),
                    );
                }
            } else {
                assert(result[i] == entries[i - 1]);
                assert(result[j] == entries[j - 1]);
            }
        }
    }
}

/// The package identity of a synthetic descriptor.
pub struct Package {
    pub name: String,
    pub version: String,
    pub edition: String,
    pub publish: bool,
}

/// The library-target declaration.  Its artifact kind is fixed to a
/// dynamically loadable shared library and is not configurable per build.
pub struct Lib {
    pub path: String,
}

impl Lib {
    /// A library target rooted at the given source path.
    pub fn new(path: String) -> (r: Lib)
        ensures
            r.path@ == path@,
    {
        Lib { path }
    }
}

/// A package name, carried verbatim.
pub struct Name(pub String);

impl Name {
    /// The name as a borrowed string.
    pub fn as_str(&self) -> (r: &str)
        ensures
            r@ == self.0@,
    {
        self.0.as_str()
    }
}

/// The marker for an empty workspace table: its mere presence cuts the
/// synthetic package out of any enclosing workspace.
pub struct Workspace {}

/// The companion build configuration: extra compiler flags handed through
/// to the toolchain, opaque to this library.
pub struct Build {
    pub rustflags: Vec<String>,
}

/// The companion configuration file, `{build: {flags}}`.
pub struct Config {
    pub build: Build,
}

/// The feature map of a descriptor: feature name to the list of features
/// it enables, kept in ascending key order.
pub struct FeatureMap {
    entries: Vec<(String, Vec<String>)>,
}

impl View for FeatureMap {
    type V = Seq<(Seq<char>, Seq<Seq<char>>)>;

    closed spec fn view(&self) -> Seq<(Seq<char>, Seq<Seq<char>>)> {
        self.entries.deep_view()
    }
}

/// A table of named entries whose values are opaque, already-rendered
/// inline expressions supplied by the caller: the dependency table and the
/// patch and replace tables of a descriptor.  Kept in ascending key order.
pub struct EntryTable {
    entries: Vec<(String, String)>,
}

impl View for EntryTable {
    type V = Seq<(Seq<char>, Seq<char>)>;

    closed spec fn view(&self) -> Seq<(Seq<char>, Seq<char>)> {
        self.entries.deep_view()
    }
}

impl FeatureMap {
    /// The keys are strictly sorted.
    pub open spec fn wf(&self) -> bool {
        table_sorted(self@)
    }

    /// An empty feature map.
    pub fn new() -> (r: FeatureMap)
        ensures
            r@ =~= Seq::<(Seq<char>, Seq<Seq<char>>)>::empty(),
            r.wf(),
    {
        let r = FeatureMap { entries: Vec::new() };
        proof {
            assert(r@ =~= Seq::<(Seq<char>, Seq<Seq<char>>)>::empty());
        }
        r
    }

    /// The number of features.
    pub fn len(&self) -> (r: usize)
        ensures
            r == self@.len(),
    {
        self.entries.len()
    }

    /// Adds a feature at its ordered position, replacing a feature of the
    /// same name.
    pub fn insert(&mut self, key: String, value: Vec<String>)
        requires
            old(self).wf(),
        ensures
            final(self)@ == sorted_insert(old(self)@, key@, value.deep_view()),
            final(self).wf(),
    {
        let ghost model = self@;
        let ghost v = value.deep_view();
        let mut idx: usize = 0;
        while idx < self.entries.len() && str_lex_lt(self.entries[idx].0.as_str(), key.as_str())
            invariant
                *self == *old(self),
                idx <= self.entries.len(),
                self@.len() == self.entries.len(),
                forall|k: int|
                    0 <= k < idx ==> lex_lt(key_bytes(#[trigger] self@[k].0), key_bytes(key@)),
            decreases self.entries.len() - idx,
        {
            proof {
                assert(self@[idx as int].0 == self.entries@[idx as int].0@);
            }
            idx = idx + 1;
        }
        let replace = idx < self.entries.len() && str_bytes_eq(
            self.entries[idx].0.as_str(),
            key.as_str(),
        );
        proof {
            lemma_sorted_insert_at(model, key@, v, idx as int);
            lemma_sorted_insert_sorted(model, key@, v);
        }
        if replace {
            let ghost pre = self.entries@;
            let _ = self.entries.remove(idx);
            self.entries.insert(idx, (key, value));
            proof {
                assert forall|k: int| 0 <= k < self@.len() implies self@[k] == (model.take(
                    idx as int,
                ) + seq![(key@, v)] + model.skip(idx as int + 1))[k] by {
                    if k < idx as int {
                        assert(self.entries@[k] == pre[k]);
                    } else if k > idx as int {
                        assert(self.entries@[k] == pre[k]);
                    }
                }
                assert(self@ =~= model.take(idx as int) + seq![(key@, v)] + model.skip(
                    idx as int + 1,
                ));
            }
        } else {
            let ghost pre = self.entries@;
            self.entries.insert(idx, (key, value));
            proof {
                assert forall|k: int| 0 <= k < self@.len() implies self@[k] == (model.take(
                    idx as int,
                ) + seq![(key@, v)] + model.skip(idx as int))[k] by {
                    if k < idx as int {
                        assert(self.entries@[k] == pre[k]);
                    } else if k > idx as int {
                        assert(self.entries@[k] == pre[k - 1]);
                    }
                }
                assert(self@ =~= model.take(idx as int) + seq![(key@, v)] + model.skip(
                    idx as int,
                ));
            }
        }
    }
}

impl EntryTable {
    /// The keys are strictly sorted.
    pub open spec fn wf(&self) -> bool {
        table_sorted(self@)
    }

    /// An empty table.
    pub fn new() -> (r: EntryTable)
        ensures
            r@ =~= Seq::<(Seq<char>, Seq<char>)>::empty(),
            r.wf(),
    {
        let r = EntryTable { entries: Vec::new() };
        proof {
            assert(r@ =~= Seq::<(Seq<char>, Seq<char>)>::empty());
        }
        r
    }

    /// The number of entries.
    pub fn len(&self) -> (r: usize)
        ensures
            r == self@.len(),
    {
        self.entries.len()
    }

    /// Adds an entry at its ordered position, replacing an entry of the
    /// same key.
    pub fn insert(&mut self, key: String, value: String)
        requires
            old(self).wf(),
        ensures
            final(self)@ == sorted_insert(old(self)@, key@, value@),
            final(self).wf(),
    {
        let ghost model = self@;
        let ghost v = value@;
        let mut idx: usize = 0;
        while idx < self.entries.len() && str_lex_lt(self.entries[idx].0.as_str(), key.as_str())
            invariant
                *self == *old(self),
                idx <= self.entries.len(),
                self@.len() == self.entries.len(),
                forall|k: int|
                    0 <= k < idx ==> lex_lt(key_bytes(#[trigger] self@[k].0), key_bytes(key@)),
            decreases self.entries.len() - idx,
        {
            proof {
                assert(self@[idx as int].0 == self.entries@[idx as int].0@);
            }
            idx = idx + 1;
        }
        let replace = idx < self.entries.len() && str_bytes_eq(
            self.entries[idx].0.as_str(),
            key.as_str(),
        );
        proof {
            lemma_sorted_insert_at(model, key@, v, idx as int);
            lemma_sorted_insert_sorted(model, key@, v);
        }
        if replace {
            let ghost pre = self.entries@;
            let _ = self.entries.remove(idx);
            self.entries.insert(idx, (key, value));
            proof {
                assert forall|k: int| 0 <= k < self@.len() implies self@[k] == (model.take(
                    idx as int,
                ) + seq![(key@, v)] + model.skip(idx as int + 1))[k] by {
                    if k < idx as int {
                        assert(self.entries@[k] == pre[k]);
                    } else if k > idx as int {
                        assert(self.entries@[k] == pre[k]);
                    }
                }
                assert(self@ =~= model.take(idx as int) + seq![(key@, v)] + model.skip(
                    idx as int + 1,
                ));
            }
        } else {
            let ghost pre = self.entries@;
            self.entries.insert(idx, (key, value));
            proof {
                assert forall|k: int| 0 <= k < self@.len() implies self@[k] == (model.take(
                    idx as int,
                ) + seq![(key@, v)] + model.skip(idx as int))[k] by {
                    if k < idx as int {
                        assert(self.entries@[k] == pre[k]);
                    } else if k > idx as int {
                        assert(self.entries@[k] == pre[k - 1]);
                    }
                }
                assert(self@ =~= model.take(idx as int) + seq![(key@, v)] + model.skip(
                    idx as int,
                ));
            }
        }
    }
}

/// A synthetic package descriptor: identity, feature map, dependency
/// table, library target, optional workspace marker, and the patch and
/// replace tables.
pub struct Manifest {
    pub package: Package,
    pub features: FeatureMap,
    pub dependencies: EntryTable,
    pub lib: Lib,
    pub workspace: Option<Workspace>,
    pub patch: EntryTable,
    pub replace: EntryTable,
}

/// A string value between double quotes, verbatim.
pub open spec fn quoted(s: Seq<char>) -> Seq<char> {
    "\""@ + s + "\""@
}

/// The quoted items separated by comma and space.
pub open spec fn quoted_items(items: Seq<Seq<char>>) -> Seq<char>
    decreases items.len(),
{
    if items.len() == 0 {
        Seq::empty()
    } else if items.len() == 1 {
        quoted(items[0])
    } else {
        quoted_items(items.drop_last()) + ", "@ + quoted(items.last())
    }
}

/// A bracketed array of quoted items.
pub open spec fn bracketed_list(items: Seq<Seq<char>>) -> Seq<char> {
    "["@ + quoted_items(items) + "]"@
}

/// One line per feature: its name, then the array of features it enables.
pub open spec fn feature_lines(entries: Seq<(Seq<char>, Seq<Seq<char>>)>) -> Seq<char>
    decreases entries.len(),
{
    if entries.len() == 0 {
        Seq::empty()
    } else {
        feature_lines(entries.drop_last()) + entries.last().0 + " = "@ + bracketed_list(
            entries.last().1,
        ) + "\n"@
    }
}

/// One line per entry: its key, then its already-rendered value.
pub open spec fn entry_lines(entries: Seq<(Seq<char>, Seq<char>)>) -> Seq<char>
    decreases entries.len(),
{
    if entries.len() == 0 {
        Seq::empty()
    } else {
        entry_lines(entries.drop_last()) + entries.last().0 + " = "@ + entries.last().1 + "\n"@
    }
}

/// The package identity table, always present.
pub open spec fn package_section(
    name: Seq<char>,
    version: Seq<char>,
    edition: Seq<char>,
    publish: bool,
) -> Seq<char> {
    "[package]\nname = "@ + quoted(name) + "\nversion = "@ + quoted(version) + "\nedition = "@
        + quoted(edition) + "\npublish = "@ + (if publish {
        "true"@
    } else {
        "false"@
    }) + "\n"@
}

/// The feature table, omitted entirely when empty.
pub open spec fn features_section(entries: Seq<(Seq<char>, Seq<Seq<char>>)>) -> Seq<char> {
    if entries.len() == 0 {
        Seq::empty()
    } else {
        "\n[features]\n"@ + feature_lines(entries)
    }
}

/// The dependency table, always present.
pub open spec fn dependencies_section(entries: Seq<(Seq<char>, Seq<char>)>) -> Seq<char> {
    "\n[dependencies]\n"@ + entry_lines(entries)
}

/// The library target, always present, with the fixed artifact kind.
pub open spec fn lib_section(path: Seq<char>) -> Seq<char> {
    "\n[lib]\npath = "@ + quoted(path) + "\ncrate-type = [\"cdylib\"]\n"@
}

/// The workspace marker, present exactly when the descriptor carries one.
pub open spec fn workspace_section(present: bool) -> Seq<char> {
    if present {
        "\n[workspace]\n"@
    } else {
        Seq::empty()
    }
}

/// The patch table, omitted entirely when empty.
pub open spec fn patch_section(entries: Seq<(Seq<char>, Seq<char>)>) -> Seq<char> {
    if entries.len() == 0 {
        Seq::empty()
    } else {
        "\n[patch]\n"@ + entry_lines(entries)
    }
}

/// The replace table, omitted entirely when empty.
pub open spec fn replace_section(entries: Seq<(Seq<char>, Seq<char>)>) -> Seq<char> {
    if entries.len() == 0 {
        Seq::empty()
    } else {
        "\n[replace]\n"@ + entry_lines(entries)
    }
}

/// The whole serialized descriptor, section by section in declaration
/// order.
pub open spec fn manifest_toml(m: Manifest) -> Seq<char> {
    package_section(m.package.name@, m.package.version@, m.package.edition@, m.package.publish)
        + features_section(m.features@) + dependencies_section(m.dependencies@) + lib_section(
        m.lib.path@,
    ) + workspace_section(m.workspace is Some) + patch_section(m.patch@) + replace_section(
        m.replace@,
    )
}

/// The serialized companion configuration.
pub open spec fn config_toml(rustflags: Seq<Seq<char>>) -> Seq<char> {
    "[build]\nrustflags = "@ + bracketed_list(rustflags) + "\n"@
}

/// Appends `s` between double quotes.
fn push_quoted(out: &mut String, s: &str)
    ensures
        final(out)@ == old(out)@ + quoted(s@),
{
    out.append("\"");
    out.append(s);
    out.append("\"");
    proof {
        assert(out@ =~= old(out)@ + quoted(s@));
    }
}

/// Appends the bracketed, quoted, comma-separated list of `items`.
fn push_bracketed_list(out: &mut String, items: &Vec<String>)
    ensures
        final(out)@ == old(out)@ + bracketed_list(items.deep_view()),
{
    let ghost model = items.deep_view();
    out.append("[");
    let mut i: usize = 0;
    while i < items.len()
        invariant
            i <= items.len(),
            model == items.deep_view(),
            model.len() == items.len(),
            out@ == old(out)@ + "["@ + quoted_items(model.take(i as int)),
        decreases items.len() - i,
    {
        if i > 0 {
            out.append(", ");
        }
        push_quoted(out, items[i].as_str());
        proof {
            assert(model.take(i + 1).drop_last() =~= model.take(i as int));
            assert(model.take(i + 1).last() == model[i as int]);
            if i > 0 {
                assert(out@ =~= old(out)@ + "["@ + quoted_items(model.take(i + 1)));
            } else {
                assert(out@ =~= old(out)@ + "["@ + quoted_items(model.take(1)));
            }
        }
        i = i + 1;
    }
    out.append("]");
    proof {
        assert(model.take(items@.len() as int) =~= model);
        assert(out@ =~= old(out)@ + bracketed_list(model));
    }
}

impl FeatureMap {
    /// Appends one line per feature, in storage order.
    fn render_into(&self, out: &mut String)
        ensures
            final(out)@ == old(out)@ + feature_lines(self@),
    {
        let ghost model = self@;
        let mut i: usize = 0;
        while i < self.entries.len()
            invariant
                i <= self.entries.len(),
                model == self@,
                model.len() == self.entries.len(),
                out@ == old(out)@ + feature_lines(model.take(i as int)),
            decreases self.entries.len() - i,
        {
            proof {
                assert(model[i as int] == (self.entries@[i as int].0@, self.entries@[
                    i as int].1.deep_view()));
            }
            out.append(self.entries[i].0.as_str());
            out.append(" = ");
            push_bracketed_list(out, &self.entries[i].1);
            out.append("\n");
            proof {
                assert(model.take(i + 1).drop_last() =~= model.take(i as int));
                assert(model.take(i + 1).last() == model[i as int]);
                assert(out@ =~= old(out)@ + feature_lines(model.take(i + 1)));
            }
            i = i + 1;
        }
        proof {
            assert(model.take(self.entries@.len() as int) =~= model);
        }
    }
}

impl EntryTable {
    /// Appends one line per entry, in storage order, the value verbatim.
    fn render_into(&self, out: &mut String)
        ensures
            final(out)@ == old(out)@ + entry_lines(self@),
    {
        let ghost model = self@;
        let mut i: usize = 0;
        while i < self.entries.len()
            invariant
                i <= self.entries.len(),
                model == self@,
                model.len() == self.entries.len(),
                out@ == old(out)@ + entry_lines(model.take(i as int)),
            decreases self.entries.len() - i,
        {
            proof {
                assert(model[i as int] == (self.entries@[i as int].0@, self.entries@[
                    i as int].1@));
            }
            out.append(self.entries[i].0.as_str());
            out.append(" = ");
            out.append(self.entries[i].1.as_str());
            out.append("\n");
            proof {
                assert(model.take(i + 1).drop_last() =~= model.take(i as int));
                assert(model.take(i + 1).last() == model[i as int]);
                assert(out@ =~= old(out)@ + entry_lines(model.take(i + 1)));
            }
            i = i + 1;
        }
        proof {
            assert(model.take(self.entries@.len() as int) =~= model);
        }
    }
}

impl Manifest {
    /// Serializes the descriptor.  The output is a pure function of the
    /// descriptor's contents: empty feature, patch and replace tables and
    /// an absent workspace marker are omitted entirely, every other field
    /// is always present, and table entries follow storage order.
    #[verifier::rlimit(100)]
    pub fn to_toml(&self) -> (r: String)
        ensures
            r@ == manifest_toml(*self),
    {
        let mut out = String::new();
        out.append("[package]\nname = ");
        push_quoted(&mut out, self.package.name.as_str());
        out.append("\nversion = ");
        push_quoted(&mut out, self.package.version.as_str());
        out.append("\nedition = ");
        push_quoted(&mut out, self.package.edition.as_str());
        out.append("\npublish = ");
        if self.package.publish {
            out.append("true");
        } else {
            out.append("false");
        }
        out.append("\n");
        let ghost s1 = package_section(
            self.package.name@,
            self.package.version@,
            self.package.edition@,
            self.package.publish,
        );
        proof {
            assert(out@ =~= s1);
        }
        if self.features.len() > 0 {
            out.append("\n[features]\n");
            self.features.render_into(&mut out);
        }
        let ghost s2 = s1 + features_section(self.features@);
        proof {
            assert(out@ =~= s2);
        }
        out.append("\n[dependencies]\n");
        self.dependencies.render_into(&mut out);
        let ghost s3 = s2 + dependencies_section(self.dependencies@);
        proof {
            assert(out@ =~= s3);
        }
        out.append("\n[lib]\npath = ");
        push_quoted(&mut out, self.lib.path.as_str());
        out.append("\ncrate-type = [\"cdylib\"]\n");
        let ghost s4 = s3 + lib_section(self.lib.path@);
        proof {
            assert(out@ =~= s4);
        }
        match &self.workspace {
            Some(_) => {
                out.append("\n[workspace]\n");
            },
            None => {},
        }
        let ghost s5 = s4 + workspace_section(self.workspace is Some);
        proof {
            assert(out@ =~= s5);
        }
        if self.patch.len() > 0 {
            out.append("\n[patch]\n");
            self.patch.render_into(&mut out);
        }
        let ghost s6 = s5 + patch_section(self.patch@);
        proof {
            assert(out@ =~= s6);
        }
        if self.replace.len() > 0 {
            out.append("\n[replace]\n");
            self.replace.render_into(&mut out);
        }
        proof {
            assert(out@ =~= manifest_toml(*self));
        }
        out
    }
}

impl Config {
    /// Serializes the companion configuration: the build table with its
    /// flag array.
    pub fn to_toml(&self) -> (r: String)
        ensures
            r@ == config_toml(self.build.rustflags.deep_view()),
    {
        let mut out = String::new();
        out.append("[build]\nrustflags = ");
        push_bracketed_list(&mut out, &self.build.rustflags);
        out.append("\n");
        proof {
            assert(out@ =~= config_toml(self.build.rustflags.deep_view()));
        }
        out
    }
}

/// Empty feature, patch and replace tables are omitted entirely: the
/// descriptor renders as just its package, dependency, library and
/// workspace parts.
pub proof fn lemma_empty_tables_omitted(m: Manifest)
    requires
        m.features@.len() == 0,
        m.patch@.len() == 0,
        m.replace@.len() == 0,
    ensures
        manifest_toml(m) == package_section(
            m.package.name@,
            m.package.version@,
            m.package.edition@,
            m.package.publish,
        ) + dependencies_section(m.dependencies@) + lib_section(m.lib.path@) + workspace_section(
            m.workspace is Some,
        ),
{
    assert(manifest_toml(m) =~= package_section(
        m.package.name@,
        m.package.version@,
        m.package.edition@,
        m.package.publish,
    ) + dependencies_section(m.dependencies@) + lib_section(m.lib.path@) + workspace_section(
        m.workspace is Some,
    ));
}

/// A well-formed dependency table renders its keys in strictly ascending
/// lexicographic order: entry lines follow storage order, and storage
/// order is sorted.
pub proof fn lemma_dependency_keys_sorted(m: Manifest, i: int, j: int)
    requires
        m.dependencies.wf(),
        0 <= i < j < m.dependencies@.len(),
    ensures
        lex_lt(key_bytes(m.dependencies@[i].0), key_bytes(m.dependencies@[j].0)),
{
}

/// Serialization is deterministic: two descriptors with equal contents
/// render to identical text, byte for byte.
pub proof fn lemma_serialization_deterministic(a: Manifest, b: Manifest)
    requires
        a.package.name@ == b.package.name@,
        a.package.version@ == b.package.version@,
        a.package.edition@ == b.package.edition@,
        a.package.publish == b.package.publish,
        a.features@ == b.features@,
        a.dependencies@ == b.dependencies@,
        a.lib.path@ == b.lib.path@,
        a.workspace is Some <==> b.workspace is Some,
        a.patch@ == b.patch@,
        a.replace@ == b.replace@,
    ensures
        manifest_toml(a) == manifest_toml(b),
{
}

} // verus!
