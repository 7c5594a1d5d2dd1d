//! The lexicographic order on string keys that keeps states and goals sorted.
use vstd::prelude::*;

verus! {

/// Strict lexicographic order on sequences of characters, by code point.
pub open spec fn key_lt(a: Seq<char>, b: Seq<char>) -> bool
    decreases a.len(),
{
    if a.len() == 0 {
        b.len() > 0
    } else if b.len() == 0 {
        false
    } else if a[0] != b[0] {
        (a[0] as int) < (b[0] as int)
    } else {
        key_lt(a.drop_first(), b.drop_first())
    }
}

pub proof fn lemma_key_lt_irreflexive(a: Seq<char>)
    ensures
        !key_lt(a, a),
    decreases a.len(),
{
    if a.len() > 0 {
        lemma_key_lt_irreflexive(a.drop_first());
    }
}

pub proof fn lemma_key_lt_transitive(a: Seq<char>, b: Seq<char>, c: Seq<char>)
    requires
        key_lt(a, b),
        key_lt(b, c),
    ensures
        key_lt(a, c),
    decreases a.len(),
{
    if a.len() > 0 && b.len() > 0 && c.len() > 0 {
        if a[0] == b[0] && b[0] == c[0] {
            lemma_key_lt_transitive(a.drop_first(), b.drop_first(), c.drop_first());
        }
    }
}

pub proof fn lemma_key_lt_total(a: Seq<char>, b: Seq<char>)
    ensures
        a == b || key_lt(a, b) || key_lt(b, a),
    decreases a.len(),
{
    if a.len() > 0 && b.len() > 0 && a[0] == b[0] {
        lemma_key_lt_total(a.drop_first(), b.drop_first());
        if a.drop_first() == b.drop_first() {
            assert(a =~= seq![a[0]] + a.drop_first());
            assert(b =~= seq![b[0]] + b.drop_first());
        }
    } else if a.len() > 0 && b.len() > 0 {
        assert((a[0] as int) != (b[0] as int));
    } else if a.len() == 0 && b.len() == 0 {
        assert(a =~= b);
    }
}

pub proof fn lemma_key_lt_asymmetric(a: Seq<char>, b: Seq<char>)
    requires
        key_lt(a, b),
    ensures
        !key_lt(b, a),
{
    if key_lt(b, a) {
        lemma_key_lt_transitive(a, b, a);
        lemma_key_lt_irreflexive(a);
    }
}

/// The outcome of comparing two keys.
pub enum KeyOrder {
    Less,
    Equal,
    Greater,
}

/// Compares two keys in the order `key_lt`.
pub fn compare_keys(a: &str, b: &str) -> (r: KeyOrder)
    ensures
        r is Less <==> key_lt(a@, b@),
        r is Equal <==> a@ == b@,
        r is Greater <==> key_lt(b@, a@),
{
    proof {
        lemma_key_lt_total(a@, b@);
        lemma_key_lt_irreflexive(a@);
        if key_lt(a@, b@) {
            lemma_key_lt_asymmetric(a@, b@);
        }
    }
    let la = a.unicode_len();
    let lb = b.unicode_len();
    let mut i: usize = 0;
    assert(a@.skip(0) =~= a@);
    assert(b@.skip(0) =~= b@);
    while i < la && i < lb
        invariant
            la == a@.len(),
            lb == b@.len(),
            i <= la,
            i <= lb,
            a@.subrange(0, i as int) == b@.subrange(0, i as int),
            key_lt(a@, b@) == key_lt(a@.skip(i as int), b@.skip(i as int)),
            key_lt(b@, a@) == key_lt(b@.skip(i as int), a@.skip(i as int)),
        decreases la - i,
    {
        let ca = a.get_char(i);
        let cb = b.get_char(i);
        assert(a@.skip(i as int)[0] == ca);
        assert(b@.skip(i as int)[0] == cb);
        if ca != cb {
            if ca < cb {
                return KeyOrder::Less;
            } else {
                return KeyOrder::Greater;
            }
        }
        assert(a@.skip(i as int).drop_first() =~= a@.skip(i + 1));
        assert(b@.skip(i as int).drop_first() =~= b@.skip(i + 1));
        assert(a@.subrange(0, i + 1) =~= a@.subrange(0, i as int).push(ca));
        assert(b@.subrange(0, i + 1) =~= b@.subrange(0, i as int).push(cb));
        i = i + 1;
    }
    if la == lb {
        assert(a@ =~= a@.subrange(0, i as int));
        assert(b@ =~= b@.subrange(0, i as int));
        KeyOrder::Equal
    } else if la < lb {
        KeyOrder::Less
    } else {
        KeyOrder::Greater
    }
}

} // verus!
