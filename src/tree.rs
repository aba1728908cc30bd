//! The configuration tree: nested tables of named entries with integer leaves,
//! addressed by dotted paths such as `defaults.ticket-price`.
use vstd::prelude::*;
use vstd::string::StrSliceExecFns;

verus! {

/// A node of the configuration tree: an integer leaf or a table of named children.
#[derive(PartialEq, Eq, Debug)]
pub enum ConfigValue {
    Int(u64),
    Table(Vec<Entry>),
}

/// Why a value could not be stored in the tree.
#[derive(PartialEq, Eq, Structural, Debug, Clone, Copy)]
pub enum TreeError {
    /// An integer stands where the path needs a table.
    NotATable,
}

/// One named child of a table.
#[derive(PartialEq, Eq, Debug)]
pub struct Entry {
    pub key: String,
    pub value: ConfigValue,
}

/// The value stored under key `k` in a table: the first entry with that key.
pub open spec fn lookup(es: Seq<Entry>, k: Seq<char>) -> Option<ConfigValue>
    decreases es.len(),
{
    if es.len() == 0 {
        None
    } else if es[0].key@ == k {
        Some(es[0].value)
    } else {
        lookup(es.drop_first(), k)
    }
}

/// The node reached from `v` by following the keys of `p` one table at a time.
pub open spec fn get_spec(v: ConfigValue, p: Seq<Seq<char>>) -> Option<ConfigValue>
    decreases p.len(),
{
    if p.len() == 0 {
        Some(v)
    } else {
        match v {
            ConfigValue::Int(_) => None,
            ConfigValue::Table(es) => match lookup(es@, p[0]) {
                Some(c) => get_spec(c, p.drop_first()),
                None => None,
            },
        }
    }
}

/// Whether a value can be stored at `p` below `v`: every node met on the way to
/// the parent of the last key is a table, or is still missing and will be created.
pub open spec fn settable(v: ConfigValue, p: Seq<Seq<char>>) -> bool
    decreases p.len(),
{
    match v {
        ConfigValue::Int(_) => false,
        ConfigValue::Table(es) => p.len() <= 1 || match lookup(es@, p[0]) {
            Some(c) => settable(c, p.drop_first()),
            None => true,
        },
    }
}

/// Two paths part ways: at some position both have a key, and the keys differ.
/// A change at one of them leaves what lies at the other untouched.
pub open spec fn diverges(p: Seq<Seq<char>>, q: Seq<Seq<char>>) -> bool
    decreases p.len(),
{
    p.len() > 0 && q.len() > 0 && (p[0] != q[0] || diverges(p.drop_first(), q.drop_first()))
}

/// The character sequences of a list of strings.
pub open spec fn string_views(segs: Seq<String>) -> Seq<Seq<char>> {
    segs.map_values(|s: String| s@)
}

/// The pieces of `s` between the dots, in order; a text without dots is one piece.
pub open spec fn split_dots(s: Seq<char>) -> Seq<Seq<char>>
    decreases s.len(),
{
    if s.len() == 0 {
        seq![Seq::<char>::empty()]
    } else {
        let rest = split_dots(s.drop_first());
        if s[0] == '.' {
            seq![Seq::<char>::empty()] + rest
        } else {
            rest.update(0, seq![s[0]] + rest[0])
        }
    }
}

proof fn lemma_split_dots_nonempty(s: Seq<char>)
    ensures
        split_dots(s).len() >= 1,
    decreases s.len(),
{
    if s.len() > 0 {
        lemma_split_dots_nonempty(s.drop_first());
    }
}

proof fn lemma_split_before_dot(t: Seq<char>, k: int)
    requires
        0 <= k < t.len(),
        t[k] == '.',
        forall|j: int| 0 <= j < k ==> t[j] != '.',
    ensures
        split_dots(t) == seq![t.subrange(0, k)] + split_dots(t.subrange(k + 1, t.len() as int)),
    decreases k,
{
    if k == 0 {
        assert(t.drop_first() =~= t.subrange(1, t.len() as int));
        assert(t.subrange(0, 0) =~= Seq::<char>::empty());
    } else {
        let t1 = t.drop_first();
        lemma_split_before_dot(t1, k - 1);
        assert(t1.subrange(k, t1.len() as int) =~= t.subrange(k + 1, t.len() as int));
        assert(seq![t[0]] + t1.subrange(0, k - 1) =~= t.subrange(0, k));
        assert(split_dots(t) =~= seq![t.subrange(0, k)] + split_dots(
            t.subrange(k + 1, t.len() as int),
        ));
    }
}

proof fn lemma_split_no_dot(t: Seq<char>)
    requires
        forall|j: int| 0 <= j < t.len() ==> t[j] != '.',
    ensures
        split_dots(t) == seq![t],
    decreases t.len(),
{
    if t.len() > 0 {
        lemma_split_no_dot(t.drop_first());
        assert(seq![t[0]] + t.drop_first() =~= t);
        assert(split_dots(t) =~= seq![t]);
    } else {
        assert(t =~= Seq::<char>::empty());
    }
}

/// The pieces of a text between its dots, in order.
fn split_on_dots(s: &str) -> (r: Vec<String>)
    ensures
        string_views(r@) == split_dots(s@),
{
    let n = s.unicode_len();
    let mut pieces: Vec<String> = Vec::new();
    let mut start: usize = 0;
    let mut i: usize = 0;
    proof {
        assert(s@.subrange(0, n as int) =~= s@);
        assert(string_views(pieces@) =~= Seq::<Seq<char>>::empty());
    }
    while i < n
        invariant
            n == s@.len(),
            start <= i <= n,
            forall|j: int| start <= j < i ==> s@[j] != '.',
            string_views(pieces@) + split_dots(s@.subrange(start as int, n as int)) == split_dots(
                s@,
            ),
        decreases n - i,
    {
        if s.get_char(i) == '.' {
            let piece = s.substring_char(start, i).to_owned();
            let ghost before = pieces@;
            proof {
                let t = s@.subrange(start as int, n as int);
                lemma_split_before_dot(t, i - start);
                assert(t.subrange(0, i - start) =~= s@.subrange(start as int, i as int));
                assert(t.subrange(i - start + 1, t.len() as int) =~= s@.subrange(
                    i + 1,
                    n as int,
                ));
            }
            pieces.push(piece);
            proof {
                assert(string_views(pieces@) =~= string_views(before).push(piece@));
                assert(string_views(pieces@) + split_dots(s@.subrange(i + 1, n as int))
                    =~= string_views(before) + (seq![piece@] + split_dots(
                    s@.subrange(i + 1, n as int),
                )));
            }
            start = i + 1;
        }
        i += 1;
    }
    let piece = s.substring_char(start, n).to_owned();
    let ghost before = pieces@;
    proof {
        lemma_split_no_dot(s@.subrange(start as int, n as int));
    }
    pieces.push(piece);
    proof {
        assert(string_views(pieces@) =~= string_views(before).push(piece@));
        assert(string_views(before) + seq![piece@] =~= string_views(pieces@));
    }
    pieces
}

/// The keys of a dotted path; there is always at least one.
pub fn path_keys(path: &str) -> (r: Vec<String>)
    ensures
        string_views(r@) == split_dots(path@),
        r.len() >= 1,
{
    let r = split_on_dots(path);
    proof {
        lemma_split_dots_nonempty(path@);
        assert(string_views(r@).len() == r@.len());
    }
    r
}

proof fn lemma_lookup_first(es: Seq<Entry>, k: Seq<char>, j: int)
    requires
        0 <= j < es.len(),
        es[j].key@ == k,
        forall|i: int| 0 <= i < j ==> es[i].key@ != k,
    ensures
        lookup(es, k) == Some(es[j].value),
    decreases j,
{
    if j > 0 {
        lemma_lookup_first(es.drop_first(), k, j - 1);
    }
}

proof fn lemma_lookup_absent(es: Seq<Entry>, k: Seq<char>)
    requires
        forall|i: int| 0 <= i < es.len() ==> es[i].key@ != k,
    ensures
        lookup(es, k) is None,
    decreases es.len(),
{
    if es.len() > 0 {
        lemma_lookup_absent(es.drop_first(), k);
    }
}

proof fn lemma_lookup_update(es: Seq<Entry>, j: int, e: Entry, k: Seq<char>)
    requires
        0 <= j < es.len(),
        e.key@ == es[j].key@,
        k != es[j].key@,
    ensures
        lookup(es.update(j, e), k) == lookup(es, k),
    decreases j,
{
    if j > 0 {
        assert(es.update(j, e).drop_first() =~= es.drop_first().update(j - 1, e));
        lemma_lookup_update(es.drop_first(), j - 1, e, k);
    } else {
        assert(es.update(0, e).drop_first() =~= es.drop_first());
    }
}

proof fn lemma_lookup_remove(es: Seq<Entry>, j: int, k: Seq<char>)
    requires
        0 <= j < es.len(),
        k != es[j].key@,
    ensures
        lookup(es.remove(j), k) == lookup(es, k),
    decreases j,
{
    if j > 0 {
        assert(es.remove(j).drop_first() =~= es.drop_first().remove(j - 1));
        lemma_lookup_remove(es.drop_first(), j - 1, k);
    } else {
        assert(es.remove(0) =~= es.drop_first());
    }
}

proof fn lemma_lookup_push(es: Seq<Entry>, e: Entry, k: Seq<char>)
    requires
        k != e.key@ || lookup(es, k) is None,
    ensures
        k == e.key@ ==> lookup(es.push(e), k) == Some(e.value),
        k != e.key@ ==> lookup(es.push(e), k) == lookup(es, k),
    decreases es.len(),
{
    if es.len() > 0 {
        if es[0].key@ == k {
            assert(lookup(es, k) is Some);
        }
        assert(es.push(e).drop_first() =~= es.drop_first().push(e));
        assert(es.push(e)[0] == es[0]);
        lemma_lookup_push(es.drop_first(), e, k);
    } else {
        assert(es.push(e).drop_first() =~= Seq::<Entry>::empty());
        assert(lookup(es.push(e).drop_first(), k) is None);
        assert(es.push(e)[0] == e);
    }
}

/// The index of the first entry with key `k`, if any.
fn find_key(es: &Vec<Entry>, k: &String) -> (r: Option<usize>)
    ensures
        match r {
            Some(j) => j < es.len() && es@[j as int].key@ == k@ && lookup(es@, k@) == Some(
                es@[j as int].value,
            ) && forall|i: int| 0 <= i < j ==> es@[i].key@ != k@,
            None => lookup(es@, k@) is None,
        },
{
    let mut j: usize = 0;
    while j < es.len()
        invariant
            j <= es.len(),
            forall|i: int| 0 <= i < j ==> es@[i].key@ != k@,
        decreases es.len() - j,
    {
        if es[j].key == *k {
            proof {
                lemma_lookup_first(es@, k@, j as int);
            }
            return Some(j);
        }
        j += 1;
    }
    proof {
        lemma_lookup_absent(es@, k@);
    }
    None
}


/// No two entries of a table share a key.
pub open spec fn unique_keys(es: Seq<Entry>) -> bool {
    forall|a: int, b: int| 0 <= a < b < es.len() ==> es[a].key@ != es[b].key@
}

/// Where `o` is a table, its keys are unique.
pub open spec fn table_keys_unique(o: Option<ConfigValue>) -> bool {
    match o {
        Some(ConfigValue::Table(es)) => unique_keys(es@),
        _ => true,
    }
}

/// A well-formed tree is a mapping at every level: every table reachable
/// from it has unique keys.
pub open spec fn well_formed(v: ConfigValue) -> bool {
    forall|q: Seq<Seq<char>>| #[trigger] table_keys_unique(get_spec(v, q))
}

proof fn lemma_lookup_none_all(es: Seq<Entry>, k: Seq<char>)
    requires
        lookup(es, k) is None,
    ensures
        forall|i: int| 0 <= i < es.len() ==> es[i].key@ != k,
    decreases es.len(),
{
    if es.len() > 0 {
        lemma_lookup_none_all(es.drop_first(), k);
        assert forall|i: int| 0 <= i < es.len() implies es[i].key@ != k by {
            if i > 0 {
                assert(es[i] == es.drop_first()[i - 1]);
            }
        }
    }
}

proof fn lemma_child_well_formed(v: ConfigValue, k: Seq<char>)
    requires
        well_formed(v),
        v matches ConfigValue::Table(es) && lookup(es@, k) is Some,
    ensures
        match v {
            ConfigValue::Table(es) => well_formed(lookup(es@, k)->0),
            _ => true,
        },
{
    if let ConfigValue::Table(es) = v {
        let c = lookup(es@, k)->0;
        assert forall|q: Seq<Seq<char>>| #[trigger] table_keys_unique(get_spec(c, q)) by {
            let kq = seq![k] + q;
            assert(kq[0] == k);
            assert(kq.drop_first() =~= q);
            assert(table_keys_unique(get_spec(v, kq)));
        }
    }
}

proof fn lemma_leaf_well_formed(n: u64)
    ensures
        well_formed(ConfigValue::Int(n)),
{
    assert forall|q: Seq<Seq<char>>| #[trigger] table_keys_unique(get_spec(ConfigValue::Int(n), q)) by {
    }
}

proof fn lemma_empty_well_formed(v: ConfigValue)
    requires
        v matches ConfigValue::Table(es) && es@.len() == 0,
    ensures
        well_formed(v),
{
    assert forall|q: Seq<Seq<char>>| #[trigger] table_keys_unique(get_spec(v, q)) by {
        if q.len() > 0 {
            if let ConfigValue::Table(es) = v {
                assert(lookup(es@, q[0]) is None);
            }
        }
    }
}

/// Every proper prefix of `p` leads from `v` to a table.
pub open spec fn tables_along(v: ConfigValue, p: Seq<Seq<char>>) -> bool {
    forall|k: int|
        0 <= k < p.len() ==> (#[trigger] get_spec(v, p.subrange(0, k)) matches Some(
            ConfigValue::Table(_),
        ))
}

/// The keys of `path` from position `i` on.
pub open spec fn keys_from(path: Seq<String>, i: int) -> Seq<Seq<char>> {
    string_views(path).subrange(i, path.len() as int)
}

proof fn lemma_keys_from_step(path: Seq<String>, i: int)
    requires
        0 <= i < path.len(),
    ensures
        keys_from(path, i).len() == path.len() - i,
        keys_from(path, i)[0] == path[i]@,
        keys_from(path, i).drop_first() == keys_from(path, i + 1),
{
    assert(keys_from(path, i).drop_first() =~= keys_from(path, i + 1));
}

fn get_in<'a>(node: &'a ConfigValue, path: &Vec<String>, i: usize) -> (r: Option<&'a ConfigValue>)
    requires
        i <= path.len(),
    ensures
        match r {
            Some(x) => get_spec(*node, keys_from(path@, i as int)) == Some(*x),
            None => get_spec(*node, keys_from(path@, i as int)) is None,
        },
    decreases path.len() - i,
{
    if i == path.len() {
        proof {
            assert(keys_from(path@, i as int).len() == 0);
        }
        return Some(node);
    }
    proof {
        lemma_keys_from_step(path@, i as int);
    }
    match node {
        ConfigValue::Int(_) => None,
        ConfigValue::Table(es) => match find_key(es, &path[i]) {
            Some(j) => get_in(&es[j].value, path, i + 1),
            None => None,
        },
    }
}

fn can_set(node: &ConfigValue, path: &Vec<String>, i: usize) -> (r: bool)
    requires
        i < path.len(),
    ensures
        r == settable(*node, keys_from(path@, i as int)),
    decreases path.len() - i,
{
    proof {
        lemma_keys_from_step(path@, i as int);
    }
    match node {
        ConfigValue::Int(_) => false,
        ConfigValue::Table(es) => {
            if i + 1 == path.len() {
                true
            } else {
                match find_key(es, &path[i]) {
                    Some(j) => can_set(&es[j].value, path, i + 1),
                    None => true,
                }
            }
        },
    }
}

fn set_in(node: ConfigValue, path: &Vec<String>, i: usize, n: u64) -> (r: ConfigValue)
    requires
        i < path.len(),
        settable(node, keys_from(path@, i as int)),
    ensures
        get_spec(r, keys_from(path@, i as int)) == Some(ConfigValue::Int(n)),
        forall|q: Seq<Seq<char>>|
            diverges(keys_from(path@, i as int), q) ==> get_spec(r, q) == get_spec(node, q),
        well_formed(node) ==> well_formed(r),
    decreases path.len() - i,
{
    proof {
        lemma_keys_from_step(path@, i as int);
    }
    let ghost p = keys_from(path@, i as int);
    match node {
        ConfigValue::Int(_) => {
            proof {
                assert(false);
            }
            node
        },
        ConfigValue::Table(mut es) => {
            let ghost old_es = es@;
            let found = find_key(&es, &path[i]);
            let last = i + 1 == path.len();
            let mut child = match found {
                Some(j) => es.remove(j).value,
                None => ConfigValue::empty(),
            };
            let ghost old_child = child;
            proof {
                match found {
                    Some(j) => {
                        if well_formed(node) {
                            lemma_lookup_first(old_es, p[0], j as int);
                            lemma_child_well_formed(node, p[0]);
                        }
                    },
                    None => lemma_empty_well_formed(old_child),
                }
            }
            if last {
                child = ConfigValue::Int(n);
                proof {
                    lemma_leaf_well_formed(n);
                }
            } else {
                proof {
                    assert(settable(child, keys_from(path@, i + 1)));
                }
                child = set_in(child, path, i + 1, n);
            }
            let ghost new_child = child;
            let e = Entry { key: path[i].clone(), value: child };
            match found {
                Some(j) => {
                    es.insert(j, e);
                    proof {
                        assert(es@ =~= old_es.update(j as int, e));
                        lemma_lookup_first(es@, p[0], j as int);
                    }
                },
                None => {
                    es.push(e);
                    proof {
                        lemma_lookup_push(old_es, e, p[0]);
                    }
                },
            }
            let r = ConfigValue::Table(es);
            proof {
                assert(lookup(es@, p[0]) == Some(new_child));
                if last {
                    assert(p.drop_first().len() == 0);
                }
                assert forall|q: Seq<Seq<char>>| diverges(p, q) implies get_spec(r, q) == get_spec(
                    node,
                    q,
                ) by {
                    if q[0] != p[0] {
                        match found {
                            Some(j) => lemma_lookup_update(old_es, j as int, e, q[0]),
                            None => lemma_lookup_push(old_es, e, q[0]),
                        }
                    } else {
                        assert(diverges(p.drop_first(), q.drop_first()));
                        if last {
                            assert(false);
                        }
                        assert(get_spec(r, q) == get_spec(new_child, q.drop_first()));
                        assert(get_spec(new_child, q.drop_first()) == get_spec(
                            old_child,
                            q.drop_first(),
                        ));
                        match found {
                            Some(j) => {
                                assert(lookup(old_es, p[0]) == Some(old_child));
                            },
                            None => {
                                assert(q.drop_first().len() > 0);
                                assert(get_spec(old_child, q.drop_first()) is None);
                            },
                        }
                    }
                }
                if well_formed(node) {
                    assert(table_keys_unique(get_spec(node, Seq::<Seq<char>>::empty())));
                    assert(unique_keys(old_es));
                    if found is None {
                        lemma_lookup_none_all(old_es, p[0]);
                    }
                    assert(unique_keys(es@));
                    assert forall|q: Seq<Seq<char>>| #[trigger] table_keys_unique(get_spec(r, q)) by {
                        if q.len() > 0 {
                            if q[0] != p[0] {
                                assert(diverges(p, q));
                                assert(table_keys_unique(get_spec(node, q)));
                            } else {
                                assert(get_spec(r, q) == get_spec(new_child, q.drop_first()));
                                assert(table_keys_unique(get_spec(new_child, q.drop_first())));
                            }
                        }
                    }
                }
            }
            r
        },
    }
}

/// Drops every entry with key `k`; lookups of other keys are unchanged.
fn remove_key(es: &mut Vec<Entry>, k: &String)
    ensures
        lookup(final(es)@, k@) is None,
        forall|k2: Seq<char>| k2 != k@ ==> lookup(final(es)@, k2) == lookup(old(es)@, k2),
        unique_keys(old(es)@) ==> unique_keys(final(es)@),
{
    loop
        invariant
            forall|k2: Seq<char>| k2 != k@ ==> lookup(es@, k2) == lookup(old(es)@, k2),
            unique_keys(old(es)@) ==> unique_keys(es@),
        decreases es.len(),
    {
        match find_key(es, k) {
            Some(j) => {
                proof {
                    assert forall|a: int, b: int|
                        0 <= a < b < es@.remove(j as int).len() && unique_keys(es@) implies es@.remove(
                        j as int,
                    )[a].key@ != es@.remove(j as int)[b].key@ by {
                        let a2 = if a < j { a } else { a + 1 };
                        let b2 = if b < j { b } else { b + 1 };
                        assert(es@.remove(j as int)[a] == es@[a2]);
                        assert(es@.remove(j as int)[b] == es@[b2]);
                    }
                    assert forall|k2: Seq<char>| k2 != k@ implies lookup(es@.remove(j as int), k2)
                        == lookup(es@, k2) by {
                        lemma_lookup_remove(es@, j as int, k2);
                    }
                }
                es.remove(j);
            },
            None => {
                return ;
            },
        }
    }
}

fn remove_in(node: ConfigValue, path: &Vec<String>, i: usize) -> (r: ConfigValue)
    requires
        i < path.len(),
        get_spec(node, keys_from(path@, i as int)) is Some,
    ensures
        get_spec(r, keys_from(path@, i as int)) is None,
        tables_along(r, keys_from(path@, i as int)),
        well_formed(node) ==> well_formed(r),
        forall|q: Seq<Seq<char>>|
            diverges(keys_from(path@, i as int), q) ==> get_spec(r, q) == get_spec(node, q),
    decreases path.len() - i,
{
    proof {
        lemma_keys_from_step(path@, i as int);
    }
    let ghost p = keys_from(path@, i as int);
    match node {
        ConfigValue::Int(_) => {
            proof {
                assert(false);
            }
            node
        },
        ConfigValue::Table(mut es) => {
            let ghost old_es = es@;
            if i + 1 == path.len() {
                remove_key(&mut es, &path[i]);
                let r = ConfigValue::Table(es);
                proof {
                    assert forall|k: int| 0 <= k < p.len() implies (#[trigger] get_spec(
                        r,
                        p.subrange(0, k),
                    ) matches Some(ConfigValue::Table(_))) by {
                        assert(p.subrange(0, k).len() == 0);
                    }
                    assert forall|q: Seq<Seq<char>>| diverges(p, q) implies get_spec(r, q)
                        == get_spec(node, q) by {
                        if q[0] == p[0] {
                            assert(diverges(p.drop_first(), q.drop_first()));
                            assert(false);
                        }
                    }
                    if well_formed(node) {
                        assert(table_keys_unique(get_spec(node, Seq::<Seq<char>>::empty())));
                        assert forall|q: Seq<Seq<char>>| #[trigger] table_keys_unique(get_spec(r, q)) by {
                            if q.len() > 0 {
                                if q[0] != p[0] {
                                    assert(diverges(p, q));
                                    assert(table_keys_unique(get_spec(node, q)));
                                }
                            }
                        }
                    }
                }
                return r;
            }
            let j = match find_key(&es, &path[i]) {
                Some(j) => j,
                None => {
                    proof {
                        assert(false);
                    }
                    0
                },
            };
            let old_entry = es.remove(j);
            let ghost old_child = old_entry.value;
            proof {
                if well_formed(node) {
                    lemma_child_well_formed(node, p[0]);
                }
            }
            let child = remove_in(old_entry.value, path, i + 1);
            let ghost new_child = child;
            let e = Entry { key: old_entry.key, value: child };
            es.insert(j, e);
            proof {
                assert(es@ =~= old_es.update(j as int, e));
                lemma_lookup_first(es@, p[0], j as int);
            }
            let r = ConfigValue::Table(es);
            proof {
                assert(lookup(es@, p[0]) == Some(new_child));
                assert forall|k: int| 0 <= k < p.len() implies (#[trigger] get_spec(
                    r,
                    p.subrange(0, k),
                ) matches Some(ConfigValue::Table(_))) by {
                    if k > 0 {
                        let pk = p.subrange(0, k);
                        assert(pk[0] == p[0]);
                        assert(pk.drop_first() =~= p.drop_first().subrange(0, k - 1));
                        assert(get_spec(r, pk) == get_spec(new_child, pk.drop_first()));
                        assert(get_spec(new_child, p.drop_first().subrange(0, k - 1)) matches Some(
                            ConfigValue::Table(_),
                        ));
                    } else {
                        assert(p.subrange(0, k).len() == 0);
                    }
                }
                assert forall|q: Seq<Seq<char>>| diverges(p, q) implies get_spec(r, q) == get_spec(
                    node,
                    q,
                ) by {
                    if q[0] != p[0] {
                        lemma_lookup_update(old_es, j as int, e, q[0]);
                    } else {
                        assert(diverges(p.drop_first(), q.drop_first()));
                        assert(get_spec(r, q) == get_spec(new_child, q.drop_first()));
                        assert(lookup(old_es, p[0]) == Some(old_child));
                    }
                }
                if well_formed(node) {
                    assert(table_keys_unique(get_spec(node, Seq::<Seq<char>>::empty())));
                    assert(unique_keys(es@));
                    assert forall|q: Seq<Seq<char>>| #[trigger] table_keys_unique(get_spec(r, q)) by {
                        if q.len() > 0 {
                            if q[0] != p[0] {
                                assert(diverges(p, q));
                                assert(table_keys_unique(get_spec(node, q)));
                            } else {
                                assert(get_spec(r, q) == get_spec(new_child, q.drop_first()));
                                assert(table_keys_unique(get_spec(new_child, q.drop_first())));
                            }
                        }
                    }
                }
            }
            r
        },
    }
}

/// The node at a dotted path, if every key along it exists.
pub fn get<'a>(tree: &'a ConfigValue, path: &str) -> (r: Option<&'a ConfigValue>)
    ensures
        match r {
            Some(x) => get_spec(*tree, split_dots(path@)) == Some(*x),
            None => get_spec(*tree, split_dots(path@)) is None,
        },
{
    let keys = path_keys(path);
    proof {
        assert(keys_from(keys@, 0) =~= split_dots(path@));
    }
    get_in(tree, &keys, 0)
}

/// The integer stored at a dotted path, if there is one.
pub fn get_int(tree: &ConfigValue, path: &str) -> (r: Option<u64>)
    ensures
        match get_spec(*tree, split_dots(path@)) {
            Some(ConfigValue::Int(n)) => r == Some(n),
            _ => r is None,
        },
{
    match get(tree, path) {
        Some(ConfigValue::Int(n)) => Some(*n),
        _ => None,
    }
}

/// Stores `n` at a dotted path, creating the missing tables on the way and
/// replacing whatever the last key held. Fails, leaving the tree as it was,
/// where an integer stands on the way.
pub fn set_value(tree: &mut ConfigValue, path: &str, n: u64) -> (r: Result<(), TreeError>)
    ensures
        r is Ok <==> settable(*old(tree), split_dots(path@)),
        r is Err ==> *final(tree) == *old(tree),
        r is Ok ==> get_spec(*final(tree), split_dots(path@)) == Some(ConfigValue::Int(n)),
        well_formed(*old(tree)) ==> well_formed(*final(tree)),
        r is Ok ==> forall|q: Seq<Seq<char>>|
            diverges(split_dots(path@), q) ==> get_spec(*final(tree), q) == get_spec(
                *old(tree),
                q,
            ),
{
    let keys = path_keys(path);
    proof {
        assert(keys_from(keys@, 0) =~= split_dots(path@));
    }
    if !can_set(tree, &keys, 0) {
        return Err(TreeError::NotATable);
    }
    let mut node = ConfigValue::empty();
    std::mem::swap(tree, &mut node);
    *tree = set_in(node, &keys, 0, n);
    Ok(())
}

/// Deletes the entry at a path given as its keys. Returns whether there was
/// one; where there was none (or no key at all) the tree is left as it was.
/// Tables emptied on the way stay.
pub fn remove_config_value(tree: &mut ConfigValue, path: &Vec<String>) -> (r: bool)
    ensures
        r == (path.len() > 0 && get_spec(*old(tree), string_views(path@)) is Some),
        !r ==> *final(tree) == *old(tree),
        r ==> get_spec(*final(tree), string_views(path@)) is None,
        r ==> tables_along(*final(tree), string_views(path@)),
        well_formed(*old(tree)) ==> well_formed(*final(tree)),
        r ==> forall|q: Seq<Seq<char>>|
            diverges(string_views(path@), q) ==> get_spec(*final(tree), q) == get_spec(
                *old(tree),
                q,
            ),
{
    if path.len() == 0 {
        return false;
    }
    proof {
        assert(keys_from(path@, 0) =~= string_views(path@));
    }
    if get_in(tree, path, 0).is_none() {
        return false;
    }
    let mut node = ConfigValue::empty();
    std::mem::swap(tree, &mut node);
    *tree = remove_in(node, path, 0);
    true
}

/// Deletes the entry at a dotted path. Returns whether there was one; where
/// there was none the tree is left as it was. Tables emptied on the way stay.
pub fn remove(tree: &mut ConfigValue, path: &str) -> (r: bool)
    ensures
        r == get_spec(*old(tree), split_dots(path@)) is Some,
        !r ==> *final(tree) == *old(tree),
        r ==> get_spec(*final(tree), split_dots(path@)) is None,
        r ==> tables_along(*final(tree), split_dots(path@)),
        well_formed(*old(tree)) ==> well_formed(*final(tree)),
        r ==> forall|q: Seq<Seq<char>>|
            diverges(split_dots(path@), q) ==> get_spec(*final(tree), q) == get_spec(
                *old(tree),
                q,
            ),
{
    let keys = path_keys(path);
    remove_config_value(tree, &keys)
}

impl ConfigValue {
    /// An empty table.
    pub fn empty() -> (r: ConfigValue)
        ensures
            r matches ConfigValue::Table(es) && es@.len() == 0,
            well_formed(r),
    {
        let r = ConfigValue::Table(Vec::new());
        proof {
            lemma_empty_well_formed(r);
        }
        r
    }
}

} // verus!
