//! Association lists kept sorted by key: the representation behind states
//! and goals. Keeping the keys strictly sorted makes the representation
//! canonical, so two lists with the same mapping hold the same entries.
use crate::keys::{compare_keys, key_lt, lemma_key_lt_irreflexive, lemma_key_lt_transitive, KeyOrder};
use vstd::prelude::*;

verus! {

/// The entries of an association list, with each key seen as characters.
pub open spec fn entries_model<V>(v: Seq<(String, V)>) -> Seq<(Seq<char>, V)> {
    v.map_values(|p: (String, V)| (p.0@, p.1))
}

pub proof fn lemma_entries_model_push<V>(v: Seq<(String, V)>, x: (String, V))
    ensures
        entries_model(v.push(x)) == entries_model(v).push((x.0@, x.1)),
{
    assert(entries_model(v.push(x)) =~= entries_model(v).push((x.0@, x.1)));
}

/// Keys strictly increase along the list.
pub open spec fn sorted_keys<V>(s: Seq<(Seq<char>, V)>) -> bool {
    forall|i: int, j: int| 0 <= i < j < s.len() ==> key_lt(#[trigger] s[i].0, #[trigger] s[j].0)
}

/// Whether some entry of the list has key `k`.
pub open spec fn assoc_has<V>(s: Seq<(Seq<char>, V)>, k: Seq<char>) -> bool {
    exists|i: int| 0 <= i < s.len() && s[i].0 == k
}

/// The position of an entry with key `k`, where there is one.
pub open spec fn assoc_index<V>(s: Seq<(Seq<char>, V)>, k: Seq<char>) -> int {
    choose|i: int| 0 <= i < s.len() && s[i].0 == k
}

/// The mapping that an association list stands for.
pub open spec fn assoc_map<V>(s: Seq<(Seq<char>, V)>) -> Map<Seq<char>, V> {
    Map::new(|k: Seq<char>| assoc_has(s, k), |k: Seq<char>| s[assoc_index(s, k)].1)
}

/// In a sorted list, the entry at `i` is what the mapping holds for its key.
pub proof fn lemma_assoc_at<V>(s: Seq<(Seq<char>, V)>, i: int)
    requires
        sorted_keys(s),
        0 <= i < s.len(),
    ensures
        assoc_map(s).contains_key(s[i].0),
        assoc_map(s)[s[i].0] == s[i].1,
{
    let k = s[i].0;
    assert(assoc_has(s, k));
    assert(assoc_map(s).contains_key(k));
    let j = assoc_index(s, k);
    assert(assoc_map(s)[k] == s[j].1);
    if j != i {
        lemma_key_lt_irreflexive(k);
        if j < i {
            assert(key_lt(s[j].0, s[i].0));
        } else {
            assert(key_lt(s[i].0, s[j].0));
        }
    }
}

/// Two sorted lists with the same mapping hold the same entries.
pub proof fn lemma_assoc_canonical<V>(a: Seq<(Seq<char>, V)>, b: Seq<(Seq<char>, V)>)
    requires
        sorted_keys(a),
        sorted_keys(b),
        assoc_map(a) == assoc_map(b),
    ensures
        a == b,
    decreases a.len() + b.len(),
{
    if a.len() > 0 && b.len() > 0 {
        lemma_assoc_at(a, 0);
        lemma_assoc_at(b, 0);
        // the first key of each list is the least key of the mapping
        assert(assoc_map(b).contains_key(a[0].0));
        let jb = assoc_index(b, a[0].0);
        assert(assoc_map(a).contains_key(b[0].0));
        let ja = assoc_index(a, b[0].0);
        if jb > 0 {
            assert(key_lt(b[0].0, b[jb].0));
            if ja > 0 {
                assert(key_lt(a[0].0, a[ja].0));
                lemma_key_lt_transitive(a[0].0, b[0].0, a[0].0);
                lemma_key_lt_irreflexive(a[0].0);
            } else {
                lemma_key_lt_irreflexive(a[0].0);
            }
        }
        assert(a[0].0 == b[0].0);
        let ta = a.drop_first();
        let tb = b.drop_first();
        assert forall|k: Seq<char>| #[trigger] assoc_map(ta).contains_key(k) implies assoc_map(
            tb,
        ).contains_key(k) && assoc_map(ta)[k] == assoc_map(tb)[k] by {
            let i = assoc_index(ta, k);
            lemma_assoc_at(a, i + 1);
            assert(key_lt(a[0].0, k));
            let j = assoc_index(b, k);
            lemma_assoc_at(b, j);
            if j == 0 {
                lemma_key_lt_irreflexive(k);
            }
            lemma_assoc_at(ta, i);
            lemma_assoc_at(tb, j - 1);
        }
        assert forall|k: Seq<char>| #[trigger] assoc_map(tb).contains_key(k) implies assoc_map(
            ta,
        ).contains_key(k) by {
            let j = assoc_index(tb, k);
            lemma_assoc_at(b, j + 1);
            assert(key_lt(b[0].0, k));
            let i = assoc_index(a, k);
            if i == 0 {
                lemma_key_lt_irreflexive(k);
            }
            assert(ta[i - 1].0 == k);
        }
        assert(assoc_map(ta) =~= assoc_map(tb));
        lemma_assoc_canonical(ta, tb);
        assert(a =~= seq![a[0]] + ta);
        assert(b =~= seq![b[0]] + tb);
    } else if a.len() > 0 {
        lemma_assoc_at(a, 0);
    } else if b.len() > 0 {
        lemma_assoc_at(b, 0);
    } else {
        assert(a =~= b);
    }
}

/// Looks a key up in a sorted list.
pub fn assoc_get<V: Copy>(entries: &Vec<(String, V)>, key: &str) -> (r: Option<V>)
    requires
        sorted_keys(entries_model(entries@)),
    ensures
        r == (if assoc_map(entries_model(entries@)).contains_key(key@) {
            Some(assoc_map(entries_model(entries@))[key@])
        } else {
            None
        }),
{
    let ghost s = entries_model(entries@);
    let mut i: usize = 0;
    while i < entries.len()
        invariant
            s == entries_model(entries@),
            sorted_keys(s),
            i <= entries.len(),
            forall|j: int| 0 <= j < i ==> s[j].0 != key@,
        decreases entries.len() - i,
    {
        match compare_keys(entries[i].0.as_str(), key) {
            KeyOrder::Equal => {
                proof {
                    lemma_assoc_at(s, i as int);
                }
                return Some(entries[i].1);
            },
            _ => {},
        }
        i = i + 1;
    }
    assert(!assoc_map(s).contains_key(key@));
    None
}

/// Sets `key` to `value`, keeping the list sorted.
pub fn assoc_insert<V: Copy>(entries: &mut Vec<(String, V)>, key: &str, value: V)
    requires
        sorted_keys(entries_model(old(entries)@)),
    ensures
        sorted_keys(entries_model(final(entries)@)),
        assoc_map(entries_model(final(entries)@)) == assoc_map(entries_model(old(entries)@)).insert(
            key@,
            value,
        ),
{
    let ghost s0 = entries_model(entries@);
    let mut i: usize = 0;
    while i < entries.len()
        invariant
            entries_model(entries@) == s0,
            s0 == entries_model(old(entries)@),
            sorted_keys(s0),
            i <= entries.len(),
            forall|j: int| 0 <= j < i ==> key_lt(#[trigger] s0[j].0, key@),
        decreases entries.len() - i,
    {
        match compare_keys(entries[i].0.as_str(), key) {
            KeyOrder::Less => {},
            KeyOrder::Equal => {
                let k = entries[i].0.clone();
                entries.set(i, (k, value));
                let ghost s1 = entries_model(entries@);
                assert(s1 =~= s0.update(i as int, (key@, value)));
                proof {
                    assert forall|a: int, b: int| 0 <= a < b < s1.len() implies key_lt(
                        #[trigger] s1[a].0,
                        #[trigger] s1[b].0,
                    ) by {
                        assert(s1[a].0 == s0[a].0);
                        assert(s1[b].0 == s0[b].0);
                    }
                    lemma_map_after_update(s0, s1, i as int, key@, value);
                }
                return;
            },
            KeyOrder::Greater => {
                entries.insert(i, (key.to_owned(), value));
                let ghost s1 = entries_model(entries@);
                assert(s1 =~= s0.insert(i as int, (key@, value)));
                proof {
                    lemma_sorted_after_insert(s0, s1, i as int, key@, value);
                    lemma_map_after_insert(s0, s1, i as int, key@, value);
                }
                return;
            },
        }
        i = i + 1;
    }
    entries.push((key.to_owned(), value));
    let ghost s1 = entries_model(entries@);
    assert(s1 =~= s0.insert(i as int, (key@, value)));
    proof {
        lemma_sorted_after_insert(s0, s1, i as int, key@, value);
        lemma_map_after_insert(s0, s1, i as int, key@, value);
    }
}

proof fn lemma_sorted_after_insert<V>(
    s0: Seq<(Seq<char>, V)>,
    s1: Seq<(Seq<char>, V)>,
    i: int,
    key: Seq<char>,
    value: V,
)
    requires
        sorted_keys(s0),
        0 <= i <= s0.len(),
        s1 == s0.insert(i, (key, value)),
        forall|j: int| 0 <= j < i ==> key_lt(#[trigger] s0[j].0, key),
        i < s0.len() ==> key_lt(key, s0[i].0),
    ensures
        sorted_keys(s1),
{
    assert forall|a: int, b: int| 0 <= a < b < s1.len() implies key_lt(
        #[trigger] s1[a].0,
        #[trigger] s1[b].0,
    ) by {
        if b < i {
        } else if b == i {
        } else if a < i {
            assert(key_lt(s0[a].0, key));
            if b - 1 > i {
                assert(key_lt(s0[i].0, s0[b - 1].0));
                lemma_key_lt_transitive(key, s0[i].0, s0[b - 1].0);
            }
            lemma_key_lt_transitive(s0[a].0, key, s0[b - 1].0);
        } else if a == i {
            if b - 1 > i {
                assert(key_lt(s0[i].0, s0[b - 1].0));
                lemma_key_lt_transitive(key, s0[i].0, s0[b - 1].0);
            }
        } else {
            assert(s1[a].0 == s0[a - 1].0);
            assert(s1[b].0 == s0[b - 1].0);
        }
    }
}

proof fn lemma_map_after_insert<V>(
    s0: Seq<(Seq<char>, V)>,
    s1: Seq<(Seq<char>, V)>,
    i: int,
    key: Seq<char>,
    value: V,
)
    requires
        sorted_keys(s0),
        sorted_keys(s1),
        0 <= i <= s0.len(),
        s1 == s0.insert(i, (key, value)),
    ensures
        assoc_map(s1) == assoc_map(s0).insert(key, value),
{
    let m0 = assoc_map(s0);
    let m1 = assoc_map(s1);
    lemma_assoc_at(s1, i);
    assert forall|k: Seq<char>| #[trigger] m1.contains_key(k) implies m0.insert(key, value).contains_key(
        k,
    ) && m1[k] == m0.insert(key, value)[k] by {
        let j = assoc_index(s1, k);
        lemma_assoc_at(s1, j);
        if j < i {
            assert(s0[j] == s1[j]);
            lemma_assoc_at(s0, j);
        } else if j > i {
            assert(s0[j - 1] == s1[j]);
            lemma_assoc_at(s0, j - 1);
        }
    }
    assert forall|k: Seq<char>| #[trigger] m0.contains_key(k) implies m1.contains_key(k) by {
        let j = assoc_index(s0, k);
        if j < i {
            assert(s1[j] == s0[j]);
        } else {
            assert(s1[j + 1] == s0[j]);
        }
    }
    assert(m1 =~= m0.insert(key, value));
}

proof fn lemma_map_after_update<V>(
    s0: Seq<(Seq<char>, V)>,
    s1: Seq<(Seq<char>, V)>,
    i: int,
    key: Seq<char>,
    value: V,
)
    requires
        sorted_keys(s0),
        sorted_keys(s1),
        0 <= i < s0.len(),
        s0[i].0 == key,
        s1 == s0.update(i, (key, value)),
    ensures
        assoc_map(s1) == assoc_map(s0).insert(key, value),
{
    let m0 = assoc_map(s0);
    let m1 = assoc_map(s1);
    lemma_assoc_at(s1, i);
    assert forall|k: Seq<char>| #[trigger] m1.contains_key(k) implies m0.insert(key, value).contains_key(
        k,
    ) && m1[k] == m0.insert(key, value)[k] by {
        let j = assoc_index(s1, k);
        lemma_assoc_at(s1, j);
        if j != i {
            assert(s0[j] == s1[j]);
            lemma_assoc_at(s0, j);
        }
    }
    assert forall|k: Seq<char>| #[trigger] m0.contains_key(k) implies m1.contains_key(k) by {
        let j = assoc_index(s0, k);
        assert(s1[j].0 == s0[j].0);
    }
    assert(m1 =~= m0.insert(key, value));
}

} // verus!
