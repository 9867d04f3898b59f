//! A TOML document as a tree of tables, its parse by the `toml` crate, and
//! the two edits the settings tools make to it: writing a value at a dotted
//! path (creating tables on the way) and removing a leaf. Printing the tree
//! as text is the caller's part (it needs the floats' values).
use crate::text::str_eq;
use vstd::prelude::*;

verus! {

broadcast use vstd::string::group_string_axioms;

/// A TOML value. Floats are carried as the bit pattern of their `f64`,
/// date-times as their TOML text.
#[derive(Debug, PartialEq)]
pub enum TomlValue {
    String(String),
    Integer(i64),
    Float(u64),
    Boolean(bool),
    Datetime(String),
    Array(Vec<TomlValue>),
    Table(Vec<TomlEntry>),
}

/// One key of a table.
#[derive(Debug, PartialEq)]
pub struct TomlEntry {
    pub key: String,
    pub value: TomlValue,
}

/// The position of the first entry with this key.
pub open spec fn find_key(entries: Seq<TomlEntry>, key: Seq<char>) -> Option<int>
    decreases entries.len(),
{
    if entries.len() == 0 {
        None
    } else if entries[0].key@ == key {
        Some(0)
    } else {
        match find_key(entries.drop_first(), key) {
            Some(i) => Some(i + 1),
            None => None,
        }
    }
}

pub proof fn lemma_find_key(entries: Seq<TomlEntry>, key: Seq<char>)
    ensures
        match find_key(entries, key) {
            Some(i) => 0 <= i < entries.len() && entries[i].key@ == key && forall|j: int|
                0 <= j < i ==> (#[trigger] entries[j]).key@ != key,
            None => forall|j: int| 0 <= j < entries.len() ==> (#[trigger] entries[j]).key@ != key,
        },
    decreases entries.len(),
{
    if entries.len() > 0 && entries[0].key@ != key {
        lemma_find_key(entries.drop_first(), key);
        assert forall|j: int| 1 <= j < entries.len() implies entries[j] == entries.drop_first()[j - 1] by {}
    }
}

/// Two tables whose keys agree position by position find the same position.
proof fn lemma_find_key_same_keys(a: Seq<TomlEntry>, b: Seq<TomlEntry>, key: Seq<char>)
    requires
        a.len() == b.len(),
        forall|j: int| 0 <= j < a.len() ==> (#[trigger] a[j]).key@ == b[j].key@,
    ensures
        find_key(a, key) == find_key(b, key),
    decreases a.len(),
{
    if a.len() > 0 {
        lemma_find_key_same_keys(a.drop_first(), b.drop_first(), key);
    }
}

/// The value at `path` (the root itself for the empty path).
pub open spec fn get_path(v: TomlValue, path: Seq<Seq<char>>) -> Option<TomlValue>
    decreases path.len(),
{
    if path.len() == 0 {
        Some(v)
    } else {
        match v {
            TomlValue::Table(entries) => match find_key(entries@, path[0]) {
                Some(i) => get_path(entries@[i].value, path.drop_first()),
                None => None,
            },
            _ => None,
        }
    }
}

/// The two paths part somewhere: neither is a prefix of the other.
pub open spec fn diverge(p: Seq<Seq<char>>, q: Seq<Seq<char>>) -> bool {
    exists|k: int| 0 <= k < p.len() && k < q.len() && #[trigger] p[k] != q[k]
}

pub open spec fn keys(path: &Vec<String>) -> Seq<Seq<char>> {
    path@.map_values(|s: String| s@)
}

/// Appending an entry leaves every earlier key where it was found.
proof fn lemma_find_key_push(entries: Seq<TomlEntry>, e: TomlEntry, key: Seq<char>)
    ensures
        find_key(entries.push(e), key) == (match find_key(entries, key) {
            Some(i) => Some(i),
            None => if e.key@ == key {
                Some(entries.len() as int)
            } else {
                None
            },
        }),
    decreases entries.len(),
{
    if entries.len() > 0 {
        assert(entries.push(e)[0] == entries[0]);
        assert(entries.push(e).drop_first() =~= entries.drop_first().push(e));
        lemma_find_key_push(entries.drop_first(), e, key);
        if entries[0].key@ != key {
            assert(find_key(entries.push(e), key) == match find_key(entries.drop_first().push(e), key) {
                Some(i) => Some(i + 1),
                None => None,
            });
            assert(find_key(entries, key) == match find_key(entries.drop_first(), key) {
                Some(i) => Some(i + 1),
                None => None,
            });
        }
    } else {
        assert(entries.push(e)[0] == e);
        assert(entries.push(e).drop_first() =~= Seq::<TomlEntry>::empty());
        assert(find_key(Seq::<TomlEntry>::empty(), key) is None);
    }
}

proof fn lemma_diverge_tail(p: Seq<Seq<char>>, q: Seq<Seq<char>>)
    requires
        diverge(p, q),
        p.len() > 0,
        q.len() > 0,
        p[0] == q[0],
    ensures
        diverge(p.drop_first(), q.drop_first()),
        q.drop_first().len() > 0,
{
    let k = choose|k: int| 0 <= k < p.len() && k < q.len() && #[trigger] p[k] != q[k];
    assert(k >= 1);
    assert(p.drop_first()[k - 1] != q.drop_first()[k - 1]);
}

/// The suffix of `keys` from position `k`.
pub open spec fn suffix(keys: Seq<Seq<char>>, k: int) -> Seq<Seq<char>> {
    keys.subrange(k, keys.len() as int)
}

pub(crate) fn find_entry(entries: &Vec<TomlEntry>, key: &str) -> (r: Option<usize>)
    ensures
        r is None <==> find_key(entries@, key@) is None,
        r matches Some(i) ==> find_key(entries@, key@) == Some(i as int) && i < entries@.len()
            && entries@[i as int].key@ == key@,
{
    proof {
        lemma_find_key(entries@, key@);
    }
    let mut i: usize = 0;
    while i < entries.len()
        invariant
            i <= entries@.len(),
            forall|j: int| 0 <= j < i ==> (#[trigger] entries@[j]).key@ != key@,
        decreases entries@.len() - i,
    {
        if str_eq(entries[i].key.as_str(), key) {
            proof {
                lemma_find_key(entries@, key@);
                assert(entries@[i as int].key@ == key@);
                if find_key(entries@, key@) is None {
                    assert(entries@[i as int].key@ != key@);
                } else {
                    let f = find_key(entries@, key@)->Some_0;
                    if f < i {
                        assert(entries@[f].key@ != key@);
                    }
                    if f > i {
                        assert(entries@[i as int].key@ != key@);
                    }
                    assert(f == i);
                }
            }
            return Some(i);
        }
        i = i + 1;
    }
    None
}

/// `v` with `new` written at the keys of `path` from position `k` on.
fn set_at(v: TomlValue, path: &Vec<String>, k: usize, new: TomlValue) -> (r: TomlValue)
    requires
        k <= path@.len(),
    ensures
        get_path(r, suffix(keys(path), k as int)) == Some(new),
        forall|q: Seq<Seq<char>>|
            diverge(suffix(keys(path), k as int), q) ==> #[trigger] get_path(r, q) == get_path(v, q),
    decreases path@.len() - k,
{
    let ghost p = suffix(keys(path), k as int);
    if k == path.len() {
        proof {
            assert(p =~= Seq::<Seq<char>>::empty());
        }
        return new;
    }
    let ghost old_v = v;
    let mut entries = match v {
        TomlValue::Table(e) => e,
        _ => Vec::new(),
    };
    let ghost old_entries = entries@;
    proof {
        assert(forall|q: Seq<Seq<char>>| q.len() > 0 ==> #[trigger] get_path(old_v, q) == match find_key(old_entries, q[0]) {
            Some(j) => get_path(old_entries[j].value, q.drop_first()),
            None => None,
        });
        assert(p[0] == path@[k as int]@);
        assert(p.drop_first() =~= suffix(keys(path), k + 1));
    }
    let key = path[k].as_str();
    proof {
        lemma_find_key(old_entries, key@);
    }
    match find_entry(&entries, key) {
        Some(i) => {
            assert(find_key(old_entries, key@) == Some(i as int));
            assert(old_entries[i as int].key@ == key@);
            assert(key@ == p[0]);
            let e = entries.remove(i);
            let ghost ek = e.key@;
            let child = set_at(e.value, path, k + 1, new);
            entries.insert(i, TomlEntry { key: e.key, value: child });
            proof {
                lemma_find_key(old_entries, key@);
                assert(entries@ =~= old_entries.update(i as int, entries@[i as int]));
                lemma_find_key_same_keys(entries@, old_entries, key@);
                assert forall|q: Seq<Seq<char>>| diverge(p, q) implies #[trigger] get_path(
                    TomlValue::Table(entries),
                    q,
                ) == get_path(old_v, q) by {
                    let kk = choose|kk: int| 0 <= kk < p.len() && kk < q.len() && #[trigger] p[kk] != q[kk];
                    assert(q.len() > 0);
                    lemma_find_key_same_keys(entries@, old_entries, q[0]);
                    lemma_find_key(old_entries, q[0]);
                    assert(old_entries[i as int].key@ == p[0]);
                    assert(get_path(old_v, q) == match find_key(old_entries, q[0]) {
                        Some(j) => get_path(old_entries[j].value, q.drop_first()),
                        None => None,
                    });
                    if q[0] == p[0] {
                        lemma_diverge_tail(p, q);
                        assert(p.drop_first() =~= suffix(keys(path), k + 1));
                        assert(find_key(entries@, q[0]) == Some(i as int));
                        assert(entries@[i as int].value == child);
                        assert(get_path(child, q.drop_first()) == get_path(old_entries[i as int].value, q.drop_first()));
                    } else {
                        match find_key(old_entries, q[0]) {
                            Some(j) => {
                                assert(old_entries[j].key@ == q[0]);
                                assert(j != i);
                                assert(entries@[j] == old_entries[j]);
                            },
                            None => {},
                        }
                    }
                }
            }
        },
        None => {
            let fresh = TomlValue::Table(Vec::new());
            let ghost fresh_g = fresh;
            assert(fresh_g matches TomlValue::Table(t) && t@.len() == 0);
            let child = set_at(fresh, path, k + 1, new);
            entries.push(TomlEntry { key: path[k].clone(), value: child });
            proof {
                assert(key@ == p[0]);
                assert(entries@.last().key@ == key@);
                assert(entries@.last().value == child);
                lemma_find_key(old_entries, key@);
                lemma_find_key_push(old_entries, entries@.last(), key@);
                assert(entries@ =~= old_entries.push(entries@.last()));
                assert forall|q: Seq<Seq<char>>| diverge(p, q) implies #[trigger] get_path(
                    TomlValue::Table(entries),
                    q,
                ) == get_path(old_v, q) by {
                    let kk = choose|kk: int| 0 <= kk < p.len() && kk < q.len() && #[trigger] p[kk] != q[kk];
                    assert(q.len() > 0);
                    lemma_find_key_push(old_entries, entries@.last(), q[0]);
                    lemma_find_key(old_entries, q[0]);
                    assert(get_path(old_v, q) == match find_key(old_entries, q[0]) {
                        Some(j) => get_path(old_entries[j].value, q.drop_first()),
                        None => None,
                    });
                    if q[0] == p[0] {
                        lemma_diverge_tail(p, q);
                        assert(p.drop_first() =~= suffix(keys(path), k + 1));
                        assert(get_path(fresh_g, q.drop_first()) is None);
                        assert(find_key(entries@, q[0]) == Some(old_entries.len() as int));
                        assert(entries@[old_entries.len() as int].value == child);
                        assert(get_path(child, q.drop_first()) == get_path(fresh_g, q.drop_first()));
                        assert(get_path(TomlValue::Table(entries), q) == get_path(child, q.drop_first()));
                        assert(get_path(old_v, q) is None);
                    } else {
                        match find_key(old_entries, q[0]) {
                            Some(j) => {
                                assert(entries@[j] == old_entries[j]);
                            },
                            None => {},
                        }
                        assert(get_path(TomlValue::Table(entries), q) == get_path(old_v, q));
                    }
                }
            }
        },
    }
    TomlValue::Table(entries)
}

/// The value of the first entry with this key.
pub open spec fn lookup_key(entries: Seq<TomlEntry>, key: Seq<char>) -> Option<TomlValue> {
    match find_key(entries, key) {
        Some(i) => Some(entries[i].value),
        None => None,
    }
}

/// Writes `value` at the path of keys, replacing what was there and turning
/// any value on the way that is not a table into an empty table; paths that
/// part from this one keep their values.
pub fn set_value(root: &mut TomlValue, path: &Vec<String>, value: TomlValue)
    ensures
        get_path(*final(root), keys(path)) == Some(value),
        forall|q: Seq<Seq<char>>|
            diverge(keys(path), q) ==> #[trigger] get_path(*final(root), q) == get_path(*old(root), q),
{
    let mut current = TomlValue::Boolean(false);
    std::mem::swap(&mut current, root);
    proof {
        assert(suffix(keys(path), 0) =~= keys(path));
    }
    *root = set_at(current, path, 0, value);
}

/// The entries whose key is not `key`, in their order.
fn without_key(entries: Vec<TomlEntry>, key: &str) -> (r: Vec<TomlEntry>)
    ensures
        find_key(r@, key@) is None,
        forall|k: Seq<char>| k != key@ ==> #[trigger] lookup_key(r@, k) == lookup_key(entries@, k),
{
    let ghost orig = entries@;
    let mut rest = entries;
    let mut kept: Vec<TomlEntry> = Vec::new();
    let ghost mut seen: Seq<TomlEntry> = Seq::empty();
    while rest.len() > 0
        invariant
            seen + rest@ == orig,
            forall|j: int| 0 <= j < kept@.len() ==> (#[trigger] kept@[j]).key@ != key@,
            forall|k: Seq<char>| k != key@ ==> #[trigger] lookup_key(kept@, k) == lookup_key(seen, k),
        decreases rest@.len(),
    {
        let e = rest.remove(0);
        let ghost eg = e;
        proof {
            assert(seen.push(eg) + rest@ =~= orig);
        }
        if !str_eq(e.key.as_str(), key) {
            let ghost before = kept@;
            kept.push(e);
            proof {
                assert(kept@ =~= before.push(eg));
                assert forall|k: Seq<char>| k != key@ implies #[trigger] lookup_key(kept@, k) == lookup_key(
                    seen.push(eg),
                    k,
                ) by {
                    lemma_find_key_push(before, eg, k);
                    lemma_find_key_push(seen, eg, k);
                    lemma_find_key(before, k);
                    lemma_find_key(seen, k);
                    if find_key(before, k) is Some {
                        assert(kept@[find_key(before, k)->Some_0] == before[find_key(before, k)->Some_0]);
                    }
                    if find_key(seen, k) is Some {
                        assert(seen.push(eg)[find_key(seen, k)->Some_0] == seen[find_key(seen, k)->Some_0]);
                    }
                    if find_key(before, k) is None {
                        assert(lookup_key(before, k) is None);
                        assert(find_key(seen, k) is None);
                    }
                }
            }
        } else {
            proof {
                assert forall|k: Seq<char>| k != key@ implies #[trigger] lookup_key(kept@, k) == lookup_key(
                    seen.push(eg),
                    k,
                ) by {
                    lemma_find_key_push(seen, eg, k);
                    lemma_find_key(seen, k);
                    if find_key(seen, k) is Some {
                        assert(seen.push(eg)[find_key(seen, k)->Some_0] == seen[find_key(seen, k)->Some_0]);
                    }
                }
            }
        }
        proof {
            seen = seen.push(eg);
        }
    }
    proof {
        assert(seen =~= orig);
        lemma_find_key(kept@, key@);
    }
    kept
}

/// `v` without the leaf at the keys of `path` from position `k` on.
fn remove_at(v: TomlValue, path: &Vec<String>, k: usize) -> (r: TomlValue)
    requires
        k < path@.len(),
    ensures
        get_path(r, suffix(keys(path), k as int)) is None,
        forall|q: Seq<Seq<char>>|
            diverge(suffix(keys(path), k as int), q) ==> #[trigger] get_path(r, q) == get_path(v, q),
    decreases path@.len() - k,
{
    let ghost p = suffix(keys(path), k as int);
    let ghost old_v = v;
    let entries = match v {
        TomlValue::Table(e) => e,
        other => {
            return other;
        },
    };
    let ghost old_entries = entries@;
    proof {
        assert(old_v == TomlValue::Table(entries));
        assert(p[0] == path@[k as int]@);
        assert(p.drop_first() =~= suffix(keys(path), k + 1));
    }
    let key = path[k].as_str();
    if k == path.len() - 1 {
        let kept = without_key(entries, key);
        proof {
            assert(p.drop_first() =~= Seq::<Seq<char>>::empty());
            assert forall|q: Seq<Seq<char>>| diverge(p, q) implies #[trigger] get_path(
                TomlValue::Table(kept),
                q,
            ) == get_path(old_v, q) by {
                let kk = choose|kk: int| 0 <= kk < p.len() && kk < q.len() && #[trigger] p[kk] != q[kk];
                assert(kk == 0);
                assert(lookup_key(kept@, q[0]) == lookup_key(old_entries, q[0]));
            }
        }
        return TomlValue::Table(kept);
    }
    let mut entries = entries;
    proof {
        lemma_find_key(old_entries, key@);
    }
    match find_entry(&entries, key) {
        Some(i) => {
            let e = entries.remove(i);
            let child = remove_at(e.value, path, k + 1);
            entries.insert(i, TomlEntry { key: e.key, value: child });
            proof {
                assert(key@ == p[0]);
                assert(entries@ =~= old_entries.update(i as int, entries@[i as int]));
                lemma_find_key_same_keys(entries@, old_entries, key@);
                assert forall|q: Seq<Seq<char>>| diverge(p, q) implies #[trigger] get_path(
                    TomlValue::Table(entries),
                    q,
                ) == get_path(old_v, q) by {
                    let kk = choose|kk: int| 0 <= kk < p.len() && kk < q.len() && #[trigger] p[kk] != q[kk];
                    assert(q.len() > 0);
                    lemma_find_key_same_keys(entries@, old_entries, q[0]);
                    lemma_find_key(old_entries, q[0]);
                    if q[0] == p[0] {
                        lemma_diverge_tail(p, q);
                        assert(find_key(entries@, q[0]) == Some(i as int));
                        assert(entries@[i as int].value == child);
                        assert(get_path(child, q.drop_first()) == get_path(old_entries[i as int].value, q.drop_first()));
                    } else {
                        match find_key(old_entries, q[0]) {
                            Some(j) => {
                                assert(old_entries[j].key@ == q[0]);
                                assert(entries@[j] == old_entries[j]);
                            },
                            None => {},
                        }
                    }
                }
                assert(find_key(entries@, p[0]) == Some(i as int));
            }
            TomlValue::Table(entries)
        },
        None => {
            proof {
                assert(key@ == p[0]);
            }
            TomlValue::Table(entries)
        },
    }
}

/// Removes the leaf at the path of keys, where there is one; paths that part
/// from this one keep their values.
pub fn remove_value(root: &mut TomlValue, path: &Vec<String>)
    requires
        path@.len() > 0,
    ensures
        get_path(*final(root), keys(path)) is None,
        forall|q: Seq<Seq<char>>|
            diverge(keys(path), q) ==> #[trigger] get_path(*final(root), q) == get_path(*old(root), q),
{
    let mut current = TomlValue::Boolean(false);
    std::mem::swap(&mut current, root);
    proof {
        assert(suffix(keys(path), 0) =~= keys(path));
    }
    *root = remove_at(current, path, 0);
}

/// The value at the path of keys.
pub fn get_value<'a>(root: &'a TomlValue, path: &Vec<String>) -> (r: Option<&'a TomlValue>)
    ensures
        match get_path(*root, keys(path)) {
            Some(v) => r == Some(&v),
            None => r is None,
        },
{
    let mut cur = root;
    let mut k: usize = 0;
    proof {
        assert(suffix(keys(path), 0) =~= keys(path));
    }
    while k < path.len()
        invariant
            k <= path@.len(),
            get_path(*root, keys(path)) == get_path(*cur, suffix(keys(path), k as int)),
        decreases path@.len() - k,
    {
        proof {
            assert(suffix(keys(path), k as int)[0] == path@[k as int]@);
            assert(suffix(keys(path), k as int).drop_first() =~= suffix(keys(path), k + 1));
        }
        match cur {
            TomlValue::Table(entries) => {
                proof {
                    lemma_find_key(entries@, path@[k as int]@);
                }
                match find_entry(entries, path[k].as_str()) {
                    Some(i) => {
                        cur = &entries[i].value;
                    },
                    None => {
                        return None;
                    },
                }
            },
            _ => {
                return None;
            },
        }
        k = k + 1;
    }
    proof {
        assert(suffix(keys(path), k as int) =~= Seq::<Seq<char>>::empty());
    }
    Some(cur)
}


// ---- parsing ----

/// A value of the `toml` crate.
#[verifier::external_type_specification]
#[verifier::external_body]
pub struct ExTomlValue(toml::Value);

/// What `toml::from_str::<toml::Value>` makes of `source`, node for node in
/// this library's tree; `None` where the crate rejects the text.
pub uninterp spec fn toml_parse(source: Seq<char>) -> Option<TomlValue>;

/// A `toml::Value` as this library's tree, node for node: floats by their
/// bit pattern, date-times by their TOML text, tables in the crate's order.
#[verifier::external_body]
fn tree_of(v: toml::Value) -> TomlValue {
    match v {
        toml::Value::String(s) => TomlValue::String(s),
        toml::Value::Integer(i) => TomlValue::Integer(i),
        toml::Value::Float(x) => TomlValue::Float(x.to_bits()),
        toml::Value::Boolean(b) => TomlValue::Boolean(b),
        toml::Value::Datetime(d) => TomlValue::Datetime(d.to_string()),
        toml::Value::Array(items) => TomlValue::Array(items.into_iter().map(tree_of).collect()),
        toml::Value::Table(t) => TomlValue::Table(
            t.into_iter().map(|(key, value)| TomlEntry { key, value: tree_of(value) }).collect(),
        ),
    }
}

/// Calls `toml::from_str::<toml::Value>` on `source`: the parsed value where
/// the crate accepts the text, converted node for node, else `None`. Its
/// result is named `toml_parse`: it depends on the text alone.
#[verifier::external_body]
pub(crate) fn parse_toml(source: &str) -> (r: Option<TomlValue>)
    ensures
        r == toml_parse(source@),
{
    toml::from_str::<toml::Value>(source).ok().map(tree_of)
}

#[derive(Clone, Copy, Debug, PartialEq, Eq, Structural)]
pub enum DocumentError {
    /// The text is no TOML document the `toml` crate accepts.
    Unparsable,
}

/// The settings document: an empty table where there is no file, otherwise
/// the parsed text.
pub fn read_document(source: Option<&str>) -> (r: Result<TomlValue, DocumentError>)
    ensures
        source is None ==> (r matches Ok(TomlValue::Table(entries)) && entries@.len() == 0),
        source matches Some(text) ==> r == (match toml_parse(text@) {
            Some(v) => Ok::<TomlValue, DocumentError>(v),
            None => Err(DocumentError::Unparsable),
        }),
{
    match source {
        None => Ok(TomlValue::Table(Vec::new())),
        Some(text) => match parse_toml(text) {
            Some(v) => Ok(v),
            None => Err(DocumentError::Unparsable),
        },
    }
}

} // verus!
