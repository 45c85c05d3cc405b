//! Association lists keyed by strings: the library's stand-in for a
//! `HashMap<String, V>`, in insertion order.

use vstd::prelude::*;

use crate::text::str_eq;

verus! {

/// The keys of an association list, as character sequences.
pub open spec fn keys_of<V>(s: Seq<(String, V)>) -> Seq<Seq<char>> {
    s.map_values(|p: (String, V)| p.0@)
}

/// Position of the first entry whose key is `name`, if any.
pub open spec fn key_index<V>(s: Seq<(String, V)>, name: Seq<char>) -> Option<int> {
    keys_of(s).index_of_first(name)
}

/// Whether some entry has key `name`.
pub open spec fn has_key<V>(s: Seq<(String, V)>, name: Seq<char>) -> bool {
    exists|i: int| 0 <= i < s.len() && (#[trigger] s[i]).0@ == name
}

/// The value of the first entry with key `name`, if any.
pub open spec fn lookup<V>(s: Seq<(String, V)>, name: Seq<char>) -> Option<V> {
    match key_index(s, name) {
        Some(i) => Some(s[i].1),
        None => None,
    }
}

/// What `key_index` means: the first position whose key is `name`.
pub proof fn lemma_key_index<V>(s: Seq<(String, V)>, name: Seq<char>)
    ensures
        match key_index(s, name) {
            Some(i) => 0 <= i < s.len() && s[i].0@ == name && forall|j: int|
                0 <= j < i ==> (#[trigger] s[j]).0@ != name,
            None => forall|j: int| 0 <= j < s.len() ==> (#[trigger] s[j]).0@ != name,
        },
        key_index(s, name) is Some <==> has_key(s, name),
{
    let keys = keys_of(s);
    keys.index_of_first_ensures(name);
    match key_index(s, name) {
        Some(i) => {
            assert forall|j: int| 0 <= j < i implies (#[trigger] s[j]).0@ != name by {
                assert(keys[j] == s[j].0@);
            }
            assert(keys[i] == s[i].0@);
        },
        None => {
            assert forall|j: int| 0 <= j < s.len() implies (#[trigger] s[j]).0@ != name by {
                assert(keys[j] == s[j].0@);
                if s[j].0@ == name {
                    assert(keys.contains(name));
                }
            }
        },
    }
    if has_key(s, name) {
        let j = choose|j: int| 0 <= j < s.len() && (#[trigger] s[j]).0@ == name;
        assert(keys[j] == name);
    }
}

/// The first position of key `name` in `v`.
pub fn find_key<V>(v: &Vec<(String, V)>, name: &str) -> (r: Option<usize>)
    ensures
        match r {
            Some(i) => i < v.len() && key_index(v@, name@) == Some(i as int),
            None => key_index(v@, name@) is None,
        },
{
    let mut i: usize = 0;
    while i < v.len()
        invariant
            i <= v.len(),
            forall|j: int| 0 <= j < i ==> (#[trigger] v@[j]).0@ != name@,
        decreases v.len() - i,
    {
        if str_eq(v[i].0.as_str(), name) {
            proof {
                lemma_key_index(v@, name@);
                match key_index(v@, name@) {
                    Some(k) => {
                        if k < i {
                        } else if k > i {
                            assert(v@[i as int].0@ == name@);
                        }
                    },
                    None => {
                        assert(v@[i as int].0@ == name@);
                    },
                }
            }
            return Some(i);
        }
        i = i + 1;
    }
    proof {
        lemma_key_index(v@, name@);
        match key_index(v@, name@) {
            Some(k) => {
                assert(v@[k].0@ != name@);
            },
            None => {},
        }
    }
    None
}

/// No two entries share a key.
pub open spec fn keys_unique<V>(s: Seq<(String, V)>) -> bool {
    forall|i: int, j: int| 0 <= i < j < s.len() ==> (#[trigger] s[i]).0@ != (#[trigger] s[j]).0@
}

/// The association list as a map from key to value.
pub open spec fn as_map<V>(s: Seq<(String, V)>) -> Map<Seq<char>, V> {
    Map::new(|k: Seq<char>| has_key(s, k), |k: Seq<char>| lookup(s, k)->0)
}

/// A list of strings as character sequences.
pub open spec fn strs(v: Seq<String>) -> Seq<Seq<char>> {
    v.map_values(|x: String| x@)
}

/// A list-valued association list as a map from key to the list's view.
pub open spec fn as_list_map(s: Seq<(String, Vec<String>)>) -> Map<Seq<char>, Seq<Seq<char>>> {
    Map::new(
        |k: Seq<char>| has_key(s, k),
        |k: Seq<char>| (lookup(s, k)->0)@.map_values(|x: String| x@),
    )
}

/// A key of the list looks up what the map view holds for it.
pub proof fn lemma_lookup_as_map<V>(s: Seq<(String, V)>, k: Seq<char>)
    requires
        has_key(s, k),
    ensures
        lookup(s, k) == Some(as_map(s)[k]),
        as_map(s).dom().contains(k),
{
    lemma_key_index(s, k);
}

/// With unique keys, the entry at `i` is what its key looks up.
pub proof fn lemma_lookup_unique<V>(s: Seq<(String, V)>, i: int)
    requires
        keys_unique(s),
        0 <= i < s.len(),
    ensures
        lookup(s, s[i].0@) == Some(s[i].1),
        has_key(s, s[i].0@),
{
    lemma_key_index(s, s[i].0@);
    match key_index(s, s[i].0@) {
        Some(j) => {
            if j < i {
                assert(s[j].0@ != s[i].0@);
            } else if j > i {
            }
        },
        None => {},
    }
}

/// Sets the value of key `k` to `val`, adding the key at the end when it is
/// new.
pub fn assoc_insert<V>(v: &mut Vec<(String, V)>, k: String, val: V)
    requires
        keys_unique(old(v)@),
    ensures
        keys_unique(final(v)@),
        as_map(final(v)@) == as_map(old(v)@).insert(k@, val),
        keys_of(final(v)@) == if has_key(old(v)@, k@) {
            keys_of(old(v)@)
        } else {
            keys_of(old(v)@).push(k@)
        },
{
    let ghost s0 = v@;
    match find_key(v, k.as_str()) {
        Some(i) => {
            let ghost kk = k@;
            let _ = v.remove(i);
            v.insert(i, (k, val));
            proof {
                lemma_key_index(s0, kk);
                let s1 = v@;
                assert(s1 == s0.update(i as int, s1[i as int]));
                assert forall|a: int, b: int| 0 <= a < b < s1.len() implies (#[trigger] s1[a]).0@
                    != (#[trigger] s1[b]).0@ by {
                    if a != i && b != i {
                        assert(s1[a] == s0[a] && s1[b] == s0[b]);
                    } else if a == i {
                        assert(s1[b] == s0[b]);
                        assert(s0[i as int].0@ == kk);
                    } else {
                        assert(s1[a] == s0[a]);
                        assert(s0[i as int].0@ == kk);
                    }
                }
                assert forall|x: Seq<char>| #[trigger] has_key(s1, x) == (x == kk || has_key(s0, x))
                    by {
                    if has_key(s1, x) {
                        let j = choose|j: int| 0 <= j < s1.len() && (#[trigger] s1[j]).0@ == x;
                        if j != i {
                            assert(s0[j].0@ == x);
                        }
                    }
                    if has_key(s0, x) {
                        let j = choose|j: int| 0 <= j < s0.len() && (#[trigger] s0[j]).0@ == x;
                        assert(s1[j].0@ == x);
                    }
                    if x == kk {
                        assert(s1[i as int].0@ == x);
                    }
                }
                assert forall|x: Seq<char>| has_key(s1, x) implies #[trigger] lookup(s1, x) == (if x
                    == kk {
                    Some(val)
                } else {
                    lookup(s0, x)
                }) by {
                    let j = choose|j: int| 0 <= j < s1.len() && (#[trigger] s1[j]).0@ == x;
                    lemma_lookup_unique(s1, j);
                    if j != i {
                        assert(s1[j] == s0[j]);
                        lemma_lookup_unique(s0, j);
                    }
                }
                assert(as_map(s1) =~= as_map(s0).insert(kk, val));
                assert(has_key(s0, kk));
                assert(keys_of(s1) =~= keys_of(s0));
            }
        },
        None => {
            let ghost kk = k@;
            v.push((k, val));
            proof {
                lemma_key_index(s0, kk);
                let s1 = v@;
                assert forall|a: int, b: int| 0 <= a < b < s1.len() implies (#[trigger] s1[a]).0@
                    != (#[trigger] s1[b]).0@ by {
                    assert(s1[a] == s0[a]);
                    if b < s0.len() {
                        assert(s1[b] == s0[b]);
                    }
                }
                assert forall|x: Seq<char>| #[trigger] has_key(s1, x) == (x == kk || has_key(s0, x))
                    by {
                    if has_key(s1, x) {
                        let j = choose|j: int| 0 <= j < s1.len() && (#[trigger] s1[j]).0@ == x;
                        if j < s0.len() {
                            assert(s0[j].0@ == x);
                        }
                    }
                    if has_key(s0, x) {
                        let j = choose|j: int| 0 <= j < s0.len() && (#[trigger] s0[j]).0@ == x;
                        assert(s1[j].0@ == x);
                    }
                    if x == kk {
                        assert(s1[s0.len() as int].0@ == x);
                    }
                }
                assert forall|x: Seq<char>| has_key(s1, x) implies #[trigger] lookup(s1, x) == (if x
                    == kk {
                    Some(val)
                } else {
                    lookup(s0, x)
                }) by {
                    let j = choose|j: int| 0 <= j < s1.len() && (#[trigger] s1[j]).0@ == x;
                    lemma_lookup_unique(s1, j);
                    if j < s0.len() {
                        assert(s1[j] == s0[j]);
                        lemma_lookup_unique(s0, j);
                    }
                }
                assert(as_map(s1) =~= as_map(s0).insert(kk, val));
                assert(!has_key(s0, kk));
                assert(keys_of(s1) =~= keys_of(s0).push(kk));
            }
        },
    }
}

/// A copy of a list of strings.
pub fn copy_strings(v: &Vec<String>) -> (r: Vec<String>)
    ensures
        r@ == v@,
{
    let mut out: Vec<String> = Vec::new();
    let mut i: usize = 0;
    while i < v.len()
        invariant
            i <= v.len(),
            out@ == v@.subrange(0, i as int),
        decreases v.len() - i,
    {
        out.push(v[i].clone());
        i = i + 1;
    }
    assert(v@.subrange(0, v@.len() as int) =~= v@);
    out
}

/// Appends `item` to the list under key `k`, starting a new list when the
/// key is new.
pub fn assoc_append(v: &mut Vec<(String, Vec<String>)>, k: &String, item: String)
    requires
        keys_unique(old(v)@),
    ensures
        keys_unique(final(v)@),
        as_list_map(final(v)@) == as_list_map(old(v)@).insert(
            k@,
            (if as_list_map(old(v)@).dom().contains(k@) {
                as_list_map(old(v)@)[k@]
            } else {
                Seq::empty()
            }).push(item@),
        ),
{
    let ghost s0 = v@;
    let ghost m0 = as_map(s0);
    let mut list: Vec<String> = match find_key(v, k.as_str()) {
        Some(i) => {
            proof {
                lemma_key_index(s0, k@);
                lemma_lookup_unique(s0, i as int);
            }
            copy_strings(&v[i].1)
        },
        None => {
            proof {
                lemma_key_index(s0, k@);
            }
            Vec::new()
        },
    };
    let ghost prev = list@;
    list.push(item);
    let ghost list_v = list;
    assoc_insert(v, k.clone(), list);
    proof {
        let s1 = v@;
        let m1 = as_map(s1);
        assert(m1 == m0.insert(k@, list_v));
        assert forall|x: Seq<char>| #[trigger] has_key(s1, x) == (x == k@ || has_key(s0, x)) by {
            assert(m1.dom().contains(x) == has_key(s1, x));
            assert(m0.dom().contains(x) == has_key(s0, x));
        }
        assert forall|x: Seq<char>| has_key(s1, x) implies (#[trigger] lookup(s1, x))->0 == (if x
            == k@ {
            list_v
        } else {
            lookup(s0, x)->0
        }) by {
            assert(m1[x] == lookup(s1, x)->0);
            if x != k@ {
                assert(m0[x] == lookup(s0, x)->0);
            }
        }
        let want = (if as_list_map(s0).dom().contains(k@) {
            as_list_map(s0)[k@]
        } else {
            Seq::empty()
        }).push(item@);
        assert(list_v@.map_values(|x: String| x@) =~= want);
        assert(as_list_map(s1) =~= as_list_map(s0).insert(k@, want));
    }
}

/// Setting a list-valued key, seen through the list views.
pub proof fn lemma_list_map_insert(
    s0: Seq<(String, Vec<String>)>,
    s1: Seq<(String, Vec<String>)>,
    k: Seq<char>,
    v: Vec<String>,
)
    requires
        as_map(s1) == as_map(s0).insert(k, v),
    ensures
        as_list_map(s1) == as_list_map(s0).insert(k, strs(v@)),
{
    let m0 = as_map(s0);
    let m1 = as_map(s1);
    assert forall|x: Seq<char>| #[trigger] has_key(s1, x) == (x == k || has_key(s0, x)) by {
        assert(m1.dom().contains(x) == has_key(s1, x));
        assert(m0.dom().contains(x) == has_key(s0, x));
    }
    assert forall|x: Seq<char>| has_key(s1, x) implies (#[trigger] lookup(s1, x))->0 == (if x
        == k {
        v
    } else {
        lookup(s0, x)->0
    }) by {
        assert(m1[x] == lookup(s1, x)->0);
        if x != k {
            assert(m0[x] == lookup(s0, x)->0);
        }
    }
    assert(as_list_map(s1) =~= as_list_map(s0).insert(k, strs(v@)));
}

} // verus!
