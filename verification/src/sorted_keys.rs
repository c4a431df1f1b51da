//! Text-keyed entries kept in the byte-wise lexicographic order of their keys
//! (the order of `String`'s `Ord`).
use vstd::prelude::*;
use vstd::string::StringSliceAdditionalSpecFns;

use crate::text::utf8;

verus! {

broadcast use vstd::string::group_string_axioms;

/// Byte-wise lexicographic "less than".
pub open spec fn lex_lt(a: Seq<u8>, b: Seq<u8>) -> bool
    decreases a.len(),
{
    if b.len() == 0 {
        false
    } else if a.len() == 0 {
        true
    } else if a[0] < b[0] {
        true
    } else if a[0] > b[0] {
        false
    } else {
        lex_lt(a.drop_first(), b.drop_first())
    }
}

/// No byte string comes before itself.
pub proof fn lemma_lex_irreflexive(a: Seq<u8>)
    ensures
        !lex_lt(a, a),
    decreases a.len(),
{
    if a.len() > 0 {
        lemma_lex_irreflexive(a.drop_first());
    }
}

/// Byte order is transitive.
pub proof fn lemma_lex_transitive(a: Seq<u8>, b: Seq<u8>, c: Seq<u8>)
    requires
        lex_lt(a, b),
        lex_lt(b, c),
    ensures
        lex_lt(a, c),
    decreases a.len(),
{
    if a.len() > 0 && b.len() > 0 && c.len() > 0 {
        if a[0] == b[0] && b[0] == c[0] {
            lemma_lex_transitive(a.drop_first(), b.drop_first(), c.drop_first());
        }
    }
}

/// Of two byte strings, one comes first unless they are equal.
pub proof fn lemma_lex_total(a: Seq<u8>, b: Seq<u8>)
    ensures
        a == b || lex_lt(a, b) || lex_lt(b, a),
    decreases a.len(),
{
    if a.len() > 0 && b.len() > 0 && a[0] == b[0] {
        lemma_lex_total(a.drop_first(), b.drop_first());
        if a.drop_first() == b.drop_first() {
            assert(a =~= seq![a[0]] + a.drop_first());
            assert(b =~= seq![b[0]] + b.drop_first());
        }
    } else if a.len() == 0 && b.len() == 0 {
        assert(a =~= b);
    }
}

/// Byte order is asymmetric.
pub proof fn lemma_lex_asymmetric(a: Seq<u8>, b: Seq<u8>)
    requires
        lex_lt(a, b),
    ensures
        !lex_lt(b, a),
        a != b,
    decreases a.len(),
{
    if a.len() > 0 && b.len() > 0 && a[0] == b[0] {
        lemma_lex_asymmetric(a.drop_first(), b.drop_first());
    }
    if a == b {
        lemma_lex_irreflexive(a);
    }
}

/// Whether `a` orders before `b`.
pub fn bytes_lt(a: &[u8], b: &[u8]) -> (r: bool)
    ensures
        r == lex_lt(a@, b@),
{
    let n = a.len();
    let m = b.len();
    let mut i: usize = 0;
    assert(a@.skip(0) =~= a@);
    assert(b@.skip(0) =~= b@);
    while i < n && i < m
        invariant
            n == a@.len(),
            m == b@.len(),
            i <= n,
            i <= m,
            lex_lt(a@, b@) == lex_lt(a@.skip(i as int), b@.skip(i as int)),
        decreases n - i,
    {
        let ghost x = a@.skip(i as int);
        let ghost y = b@.skip(i as int);
        if a[i] < b[i] {
            return true;
        }
        if a[i] > b[i] {
            return false;
        }
        assert(x.drop_first() =~= a@.skip(i + 1));
        assert(y.drop_first() =~= b@.skip(i + 1));
        i = i + 1;
    }
    i == n && i < m
}

/// The key bytes of an entry.
pub open spec fn key_of<V>(e: (String, V)) -> Seq<u8> {
    utf8(e.0@)
}

/// Keys strictly increase.
pub open spec fn sorted_keys<V>(es: Seq<(String, V)>) -> bool {
    forall|i: int, j: int|
        0 <= i < j < es.len() ==> #[trigger] lex_lt(key_of(es[i]), key_of(es[j]))
}

/// `i` is where `key` is or belongs in sorted entries.
pub open spec fn is_position<V>(es: Seq<(String, V)>, key: Seq<u8>, i: int) -> bool {
    &&& 0 <= i <= es.len()
    &&& forall|j: int| 0 <= j < i ==> #[trigger] lex_lt(key_of(es[j]), key)
    &&& forall|j: int| i < j < es.len() ==> #[trigger] lex_lt(key, key_of(es[j]))
    &&& i < es.len() ==> key == key_of(es[i]) || lex_lt(key, key_of(es[i]))
}

/// Finds where `key` is or belongs: the index, and whether the entry there
/// has the key.
pub fn locate<V>(es: &Vec<(String, V)>, key: &str) -> (r: (bool, usize))
    requires
        sorted_keys(es@),
    ensures
        is_position(es@, key.spec_bytes(), r.1 as int),
        r.0 == (r.1 < es@.len() && key_of(es@[r.1 as int]) == key.spec_bytes()),
{
    let n = es.len();
    let kb = key.as_bytes();
    let mut i: usize = 0;
    while i < n
        invariant
            n == es@.len(),
            i <= n,
            kb@ == key.spec_bytes(),
            sorted_keys(es@),
            forall|j: int| 0 <= j < i ==> #[trigger] lex_lt(key_of(es@[j]), kb@),
        decreases n - i,
    {
        let entry_key = es[i].0.as_str().as_bytes();
        if !bytes_lt(entry_key, kb) {
            proof {
                lemma_lex_total(kb@, entry_key@);
                assert forall|j: int| i < j < n implies #[trigger] lex_lt(kb@, key_of(es@[j])) by {
                    assert(lex_lt(key_of(es@[i as int]), key_of(es@[j])));
                    if kb@ != entry_key@ {
                        lemma_lex_transitive(kb@, key_of(es@[i as int]), key_of(es@[j]));
                    }
                }
            }
            let found = bytes_lt(kb, entry_key) == false;
            proof {
                if !found {
                    lemma_lex_asymmetric(kb@, entry_key@);
                }
            }
            return (found, i);
        }
        i = i + 1;
    }
    (false, n)
}

/// Adds one to the count of `key`, or inserts it with count one at its
/// sorted place.
/// Returns the index of the entry.
pub fn increment(es: &mut Vec<(String, u64)>, key: &str) -> (i: usize)
    requires
        sorted_keys(old(es)@),
        forall|j: int| 0 <= j < old(es)@.len() ==> (#[trigger] old(es)@[j]).1 < u64::MAX,
    ensures
        sorted_keys(final(es)@),
        ({
            let i = i as int;
            is_position(old(es)@, key.spec_bytes(), i) && if i < old(es)@.len() && key_of(old(es)@[i]) == key.spec_bytes() {
                final(es)@ == old(es)@.update(i, (old(es)@[i].0, (old(es)@[i].1 + 1) as u64))
            } else {
                &&& final(es)@.len() == old(es)@.len() + 1
                &&& final(es)@[i].0@ == key@
                &&& final(es)@[i].1 == 1
                &&& final(es)@.remove(i) == old(es)@
            }
        }),
{
    let (found, i) = locate(es, key);
    let ghost before = es@;
    if found {
        let name = es[i].0.clone();
        let count = es[i].1;
        es.set(i, (name, count + 1));
        proof {
            assert(es@ =~= before.update(i as int, (before[i as int].0, (before[i as int].1 + 1) as u64)));
            assert forall|a: int, b: int| 0 <= a < b < es@.len() implies #[trigger] lex_lt(
                key_of(es@[a]),
                key_of(es@[b]),
            ) by {
                assert(key_of(es@[a]) == key_of(before[a]));
                assert(key_of(es@[b]) == key_of(before[b]));
            }
        }
    } else {
        es.insert(i, (key.to_owned(), 1));
        proof {
            assert(es@.remove(i as int) =~= before);
            assert(!(i < before.len() && key_of(before[i as int]) == key.spec_bytes()));
            assert forall|a: int, b: int| 0 <= a < b < es@.len() implies #[trigger] lex_lt(
                key_of(es@[a]),
                key_of(es@[b]),
            ) by {
                if a < i && b < i {
                    assert(es@[a] == before[a] && es@[b] == before[b]);
                } else if a < i && b == i {
                } else if a < i && b > i {
                    assert(es@[a] == before[a] && es@[b] == before[b - 1]);
                    if i < before.len() {
                        lemma_lex_transitive(key_of(before[a]), key.spec_bytes(), key_of(before[b - 1]));
                    }
                } else if a == i {
                    assert(es@[b] == before[b - 1]);
                } else {
                    assert(es@[a] == before[a - 1] && es@[b] == before[b - 1]);
                }
            }
        }
    }
    i
}

} // verus!
