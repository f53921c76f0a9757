//! The order of strings, and sorting keyed lists by it.
//!
//! Strings order lexicographically by code point. UTF-8 preserves that
//! order byte for byte, so it is the order of `str` and of the URLs whose
//! serializations they are.

use vstd::prelude::*;
use vstd::std_specs::iter::IteratorSpec;

verus! {

broadcast use vstd::string::group_string_axioms;

/// Whether `a` comes strictly before `b`: at the first differing position
/// the smaller code point wins, and a proper prefix comes first.
pub open spec fn seq_less(a: Seq<char>, b: Seq<char>) -> bool
    decreases a.len(),
{
    if a.len() == 0 {
        b.len() > 0
    } else if b.len() == 0 {
        false
    } else if a[0] != b[0] {
        (a[0] as u32) < (b[0] as u32)
    } else {
        seq_less(a.drop_first(), b.drop_first())
    }
}

/// No sequence comes before itself, and two sequences never come before
/// each other.
pub proof fn lemma_less_asymmetric(a: Seq<char>, b: Seq<char>)
    ensures
        !(seq_less(a, b) && seq_less(b, a)),
        !seq_less(a, a),
    decreases a.len(),
{
    if a.len() > 0 && b.len() > 0 && a[0] == b[0] {
        lemma_less_asymmetric(a.drop_first(), b.drop_first());
    }
    if a.len() > 0 {
        lemma_less_asymmetric(a.drop_first(), a.drop_first());
    }
}

/// Two distinct sequences are ordered one way or the other.
pub proof fn lemma_less_total(a: Seq<char>, b: Seq<char>)
    ensures
        a != b ==> seq_less(a, b) || seq_less(b, a),
    decreases a.len(),
{
    if a.len() > 0 && b.len() > 0 && a[0] == b[0] {
        lemma_less_total(a.drop_first(), b.drop_first());
        if a.drop_first() == b.drop_first() {
            assert(a =~= seq![a[0]] + a.drop_first());
            assert(b =~= seq![b[0]] + b.drop_first());
        }
    }
    if a.len() > 0 && b.len() > 0 && a[0] != b[0] {
        vstd::utf8::char_u32_cast(a[0], a[0] as u32);
        vstd::utf8::char_u32_cast(b[0], b[0] as u32);
        assert((a[0] as u32) != (b[0] as u32));
    }
    if a.len() == 0 && b.len() == 0 {
        assert(a =~= b);
    }
}

/// The order is transitive.
pub proof fn lemma_less_transitive(a: Seq<char>, b: Seq<char>, c: Seq<char>)
    requires
        seq_less(a, b),
        seq_less(b, c),
    ensures
        seq_less(a, c),
    decreases a.len(),
{
    if a.len() > 0 && b.len() > 0 && c.len() > 0 && a[0] == b[0] && b[0] == c[0] {
        lemma_less_transitive(a.drop_first(), b.drop_first(), c.drop_first());
    }
}

/// Whether `a` comes strictly before `b`.
pub fn str_less(a: &str, b: &str) -> (r: bool)
    ensures
        r == seq_less(a@, b@),
{
    let a_bytes = super::text_model::text_len(a);
    let mut x = a.chars();
    let mut y = b.chars();
    let mut k: usize = 0;
    proof {
        assert(a@.skip(0) =~= a@);
        assert(b@.skip(0) =~= b@);
    }
    loop
        invariant
            a@.len() <= a_bytes,
            0 <= k <= a@.len(),
            k <= b@.len(),
            x.remaining() == a@.skip(k as int),
            y.remaining() == b@.skip(k as int),
            seq_less(a@, b@) == seq_less(a@.skip(k as int), b@.skip(k as int)),
        decreases a@.len() - k,
    {
        let ghost (rest_a, rest_b) = (a@.skip(k as int), b@.skip(k as int));
        match (x.next(), y.next()) {
            (None, None) => {
                return false;
            },
            (None, Some(_)) => {
                return true;
            },
            (Some(_), None) => {
                return false;
            },
            (Some(c), Some(d)) => {
                proof {
                    assert(rest_a.len() > 0 && rest_b.len() > 0);
                    assert(c == rest_a[0] && d == rest_b[0]);
                }
                if c != d {
                    return (c as u32) < (d as u32);
                }
                proof {
                    assert(rest_a.drop_first() =~= a@.skip(k + 1));
                    assert(rest_b.drop_first() =~= b@.skip(k + 1));
                }
                k = k + 1;
            },
        }
    }
}

/// The keys of a keyed list, by view.
pub open spec fn keys_of<V>(entries: Seq<(String, V)>) -> Seq<Seq<char>> {
    entries.map_values(|e: (String, V)| e.0@)
}

/// No key occurs twice.
pub open spec fn keys_unique(keys: Seq<Seq<char>>) -> bool {
    forall|i: int, j: int| 0 <= i < keys.len() && 0 <= j < keys.len() && i != j ==> keys[i] != keys[j]
}

/// Keys strictly increase along the list.
pub open spec fn keys_increasing(keys: Seq<Seq<char>>) -> bool {
    forall|i: int, j: int| 0 <= i < j < keys.len() ==> seq_less(#[trigger] keys[i], #[trigger] keys[j])
}

/// Sorts a list whose keys are distinct by its keys: the result holds the
/// same entries, keys strictly increasing.
pub fn sort_by_key<V>(entries: Vec<(String, V)>) -> (r: Vec<(String, V)>)
    requires
        keys_unique(keys_of(entries@)),
    ensures
        r@.len() == entries@.len(),
        keys_increasing(keys_of(r@)),
        forall|e: (String, V)| r@.contains(e) <==> entries@.contains(e),
{
    let ghost all = entries@;
    let mut input = entries;
    let mut out: Vec<(String, V)> = Vec::new();
    while input.len() > 0
        invariant
            keys_unique(keys_of(all)),
            input@ == all.take(input@.len() as int),
            input@.len() <= all.len(),
            out@.len() + input@.len() == all.len(),
            keys_increasing(keys_of(out@)),
            forall|e: (String, V)| out@.contains(e) <==> all.skip(input@.len() as int).contains(e),
        decreases input@.len(),
    {
        let ghost n = input@.len() as int;
        let e = input.pop().unwrap();
        proof {
            assert(e == all[n - 1]);
            assert(input@ =~= all.take(n - 1));
        }
        let ghost key = e.0@;
        proof {
            assert forall|idx: int| 0 <= idx < out@.len() implies #[trigger] out@[idx].0@ != key by {
                assert(out@.contains(out@[idx]));
                assert(all.skip(n).contains(out@[idx]));
                let p = choose|p: int| 0 <= p < all.skip(n).len() && all.skip(n)[p] == out@[idx];
                assert(all[n + p] == out@[idx]);
                assert(keys_of(all)[n + p] == out@[idx].0@);
                assert(keys_of(all)[n - 1] == key);
            }
        }
        let mut j: usize = 0;
        while j < out.len() && !str_less(e.0.as_str(), out[j].0.as_str())
            invariant
                0 <= j <= out@.len(),
                key == e.0@,
                forall|idx: int| 0 <= idx < out@.len() ==> #[trigger] out@[idx].0@ != key,
                forall|idx: int| 0 <= idx < j ==> seq_less(#[trigger] out@[idx].0@, key),
            decreases out@.len() - j,
        {
            proof {
                lemma_less_total(key, out@[j as int].0@);
            }
            j = j + 1;
        }
        let ghost before = out@;
        proof {
            assert forall|idx: int| j <= idx < before.len() implies seq_less(
                key,
                #[trigger] before[idx].0@,
            ) by {
                if idx > j {
                    assert(keys_of(before)[j as int] == before[j as int].0@);
                    assert(keys_of(before)[idx] == before[idx].0@);
                    lemma_less_transitive(key, before[j as int].0@, before[idx].0@);
                }
            }
        }
        out.insert(j, e);
        proof {
            let after = out@;
            assert(after =~= before.take(j as int).push(e) + before.skip(j as int));
            assert forall|a: int, b: int| 0 <= a < b < after.len() implies seq_less(
                #[trigger] keys_of(after)[a],
                #[trigger] keys_of(after)[b],
            ) by {
                assert(keys_of(after)[a] == after[a].0@);
                assert(keys_of(after)[b] == after[b].0@);
                if b < j {
                    assert(keys_of(before)[a] == before[a].0@);
                    assert(keys_of(before)[b] == before[b].0@);
                } else if b == j {
                } else if a < j {
                    assert(after[b] == before[b - 1]);
                    lemma_less_transitive(before[a].0@, key, before[b - 1].0@);
                } else if a == j {
                    assert(after[b] == before[b - 1]);
                } else {
                    assert(keys_of(before)[a - 1] == before[a - 1].0@);
                    assert(keys_of(before)[b - 1] == before[b - 1].0@);
                }
            }
            let rest = all.skip(n - 1);
            assert(rest =~= seq![e] + all.skip(n));
            assert forall|x: (String, V)| after.contains(x) implies rest.contains(x) by {
                let p = choose|p: int| 0 <= p < after.len() && after[p] == x;
                if p < j {
                    assert(before.contains(before[p]));
                    assert(all.skip(n).contains(x));
                    let q = choose|q: int| 0 <= q < all.skip(n).len() && all.skip(n)[q] == x;
                    assert(rest[q + 1] == x);
                } else if p > j {
                    assert(before.contains(before[p - 1]));
                    assert(all.skip(n).contains(x));
                    let q = choose|q: int| 0 <= q < all.skip(n).len() && all.skip(n)[q] == x;
                    assert(rest[q + 1] == x);
                } else {
                    assert(rest[0] == x);
                }
            }
            assert forall|x: (String, V)| rest.contains(x) implies after.contains(x) by {
                let p = choose|p: int| 0 <= p < rest.len() && rest[p] == x;
                if p == 0 {
                    assert(after[j as int] == x);
                } else {
                    assert(all.skip(n)[p - 1] == x);
                    assert(all.skip(n).contains(x));
                    assert(before.contains(x));
                    let q = choose|q: int| 0 <= q < before.len() && before[q] == x;
                    if q < j {
                        assert(after[q] == x);
                    } else {
                        assert(after[q + 1] == x);
                    }
                }
            }
        }
    }
    proof {
        assert(all.skip(0) =~= all);
    }
    out
}

} // verus!
