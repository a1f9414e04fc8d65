use vstd::prelude::*;

verus! {

/// A list of `(key, value)` pairs read as a finite map from the key's
/// characters to the value. The stores of this crate keep their keys
/// distinct, so the list and the map hold the same entries.
pub open spec fn keys_distinct<V>(s: Seq<(String, V)>) -> bool {
    forall|i: int, j: int| 0 <= i < s.len() && 0 <= j < s.len() && i != j ==> s[i].0@ != s[j].0@
}

/// Whether some entry of `s` has key `k`.
pub open spec fn has_key<V>(s: Seq<(String, V)>, k: Seq<char>) -> bool {
    exists|i: int| 0 <= i < s.len() && s[i].0@ == k
}

/// An index of an entry with key `k` (the only one, when keys are distinct).
pub open spec fn key_index<V>(s: Seq<(String, V)>, k: Seq<char>) -> int {
    choose|i: int| 0 <= i < s.len() && s[i].0@ == k
}

/// The map that an association list stands for.
pub open spec fn assoc_map<V>(s: Seq<(String, V)>) -> Map<Seq<char>, V> {
    Map::new(|k: Seq<char>| has_key(s, k), |k: Seq<char>| s[key_index(s, k)].1)
}

/// Entry `i` is what the map holds under its key.
pub proof fn lemma_assoc_lookup<V>(s: Seq<(String, V)>, i: int)
    requires
        keys_distinct(s),
        0 <= i < s.len(),
    ensures
        assoc_map(s).contains_key(s[i].0@),
        assoc_map(s)[s[i].0@] == s[i].1,
        key_index(s, s[i].0@) == i,
{
    assert(has_key(s, s[i].0@));
    let j = key_index(s, s[i].0@);
    assert(0 <= j < s.len() && s[j].0@ == s[i].0@);
}

/// Appending an entry with a new key inserts it into the map.
pub proof fn lemma_assoc_push<V>(s: Seq<(String, V)>, x: (String, V))
    requires
        keys_distinct(s),
        !has_key(s, x.0@),
    ensures
        keys_distinct(s.push(x)),
        assoc_map(s.push(x)) =~= assoc_map(s).insert(x.0@, x.1),
{
    let t = s.push(x);
    assert forall|i: int, j: int| 0 <= i < t.len() && 0 <= j < t.len() && i != j implies t[i].0@
        != t[j].0@ by {
        if i < s.len() && j < s.len() {
            assert(t[i] == s[i] && t[j] == s[j]);
        } else if i < s.len() {
            assert(t[i] == s[i]);
        } else {
            assert(t[j] == s[j]);
        }
    }
    assert forall|k: Seq<char>| #[trigger] assoc_map(t).contains_key(k) == assoc_map(s).insert(
        x.0@,
        x.1,
    ).contains_key(k) by {
        if has_key(s, k) {
            let i = key_index(s, k);
            assert(t[i] == s[i]);
        }
        if has_key(t, k) && k != x.0@ {
            let i = key_index(t, k);
            assert(i < s.len());
            assert(s[i] == t[i]);
        }
        if k == x.0@ {
            assert(t[s.len() as int] == x);
        }
    }
    assert forall|k: Seq<char>| #[trigger] assoc_map(t).contains_key(k) implies assoc_map(t)[k]
        == assoc_map(s).insert(x.0@, x.1)[k] by {
        let i = key_index(t, k);
        lemma_assoc_lookup(t, i);
        if i < s.len() {
            assert(s[i] == t[i]);
            lemma_assoc_lookup(s, i);
        }
    }
}

/// Removing entry `i` removes its key from the map.
pub proof fn lemma_assoc_remove<V>(s: Seq<(String, V)>, i: int)
    requires
        keys_distinct(s),
        0 <= i < s.len(),
    ensures
        keys_distinct(s.remove(i)),
        assoc_map(s.remove(i)) =~= assoc_map(s).remove(s[i].0@),
{
    let t = s.remove(i);
    assert forall|a: int, b: int| 0 <= a < t.len() && 0 <= b < t.len() && a != b implies t[a].0@
        != t[b].0@ by {
        let a2 = if a < i { a } else { a + 1 };
        let b2 = if b < i { b } else { b + 1 };
        assert(t[a] == s[a2] && t[b] == s[b2]);
    }
    assert forall|k: Seq<char>| #[trigger] assoc_map(t).contains_key(k) == assoc_map(s).remove(
        s[i].0@,
    ).contains_key(k) by {
        if has_key(t, k) {
            let a = key_index(t, k);
            let a2 = if a < i { a } else { a + 1 };
            assert(t[a] == s[a2]);
        }
        if has_key(s, k) && k != s[i].0@ {
            let a = key_index(s, k);
            assert(a != i);
            let a2 = if a < i { a } else { a - 1 };
            assert(t[a2] == s[a]);
        }
    }
    assert forall|k: Seq<char>| #[trigger] assoc_map(t).contains_key(k) implies assoc_map(t)[k]
        == assoc_map(s).remove(s[i].0@)[k] by {
        let a = key_index(t, k);
        lemma_assoc_lookup(t, a);
        let a2 = if a < i { a } else { a + 1 };
        assert(t[a] == s[a2]);
        lemma_assoc_lookup(s, a2);
    }
}

/// Replacing the value of entry `i` (keeping its key) updates the map there.
pub proof fn lemma_assoc_update<V>(s: Seq<(String, V)>, i: int, x: (String, V))
    requires
        keys_distinct(s),
        0 <= i < s.len(),
        x.0@ == s[i].0@,
    ensures
        keys_distinct(s.update(i, x)),
        assoc_map(s.update(i, x)) =~= assoc_map(s).insert(x.0@, x.1),
{
    let t = s.update(i, x);
    assert forall|a: int, b: int| 0 <= a < t.len() && 0 <= b < t.len() && a != b implies t[a].0@
        != t[b].0@ by {
        assert(t[a].0@ == s[a].0@ && t[b].0@ == s[b].0@);
    }
    assert forall|k: Seq<char>| #[trigger] assoc_map(t).contains_key(k) == assoc_map(s).insert(
        x.0@,
        x.1,
    ).contains_key(k) by {
        if has_key(t, k) {
            let a = key_index(t, k);
            assert(t[a].0@ == s[a].0@);
        }
        if has_key(s, k) {
            let a = key_index(s, k);
            assert(t[a].0@ == s[a].0@);
        }
        if k == x.0@ {
            assert(t[i] == x);
        }
    }
    assert forall|k: Seq<char>| #[trigger] assoc_map(t).contains_key(k) implies assoc_map(t)[k]
        == assoc_map(s).insert(x.0@, x.1)[k] by {
        let a = key_index(t, k);
        lemma_assoc_lookup(t, a);
        if a != i {
            assert(t[a] == s[a]);
            lemma_assoc_lookup(s, a);
        }
    }
}

/// A list with distinct keys stands for a finite map with as many keys as
/// the list has entries.
pub proof fn lemma_assoc_len<V>(s: Seq<(String, V)>)
    requires
        keys_distinct(s),
    ensures
        assoc_map(s).dom().finite(),
        assoc_map(s).dom().len() == s.len(),
    decreases s.len(),
{
    if s.len() == 0 {
        assert(assoc_map(s).dom() =~= Set::empty());
    } else {
        let p = s.drop_last();
        let x = s.last();
        assert(keys_distinct(p)) by {
            assert forall|a: int, b: int| 0 <= a < p.len() && 0 <= b < p.len() && a != b implies p[a].0@
                != p[b].0@ by {
                assert(p[a] == s[a] && p[b] == s[b]);
            }
        }
        assert(!has_key(p, x.0@)) by {
            if has_key(p, x.0@) {
                let a = key_index(p, x.0@);
                assert(p[a] == s[a]);
                assert(s[s.len() - 1] == x);
            }
        }
        lemma_assoc_len(p);
        lemma_assoc_push(p, x);
        assert(p.push(x) =~= s);
    }
}

/// Finds the entry whose key equals `k`.
pub fn find_key<V>(v: &Vec<(String, V)>, k: &String) -> (r: Option<usize>)
    ensures
        match r {
            Some(i) => i < v@.len() && v@[i as int].0@ == k@,
            None => !has_key(v@, k@),
        },
{
    let mut i: usize = 0;
    while i < v.len()
        invariant
            i <= v@.len(),
            forall|j: int| 0 <= j < i ==> v@[j].0@ != k@,
        decreases v@.len() - i,
    {
        if v[i].0 == *k {
            return Some(i);
        }
        i = i + 1;
    }
    None
}

} // verus!

verus! {

/// `m` without the keys that map to `v`.
pub open spec fn without_value(m: Map<Seq<char>, Seq<char>>, v: Seq<char>) -> Map<
    Seq<char>,
    Seq<char>,
> {
    Map::new(|k: Seq<char>| m.contains_key(k) && m[k] != v, |k: Seq<char>| m[k])
}

/// The map of string pairs, read as characters on both sides.
pub open spec fn string_map(s: Seq<(String, String)>) -> Map<Seq<char>, Seq<char>> {
    assoc_map(s).map_values(|v: String| v@)
}

/// Keeps the entries whose value differs from `value`, in their order.
pub fn retain_value_ne(v: &Vec<(String, String)>, value: &String) -> (r: Vec<(String, String)>)
    requires
        keys_distinct(v@),
    ensures
        keys_distinct(r@),
        string_map(r@) =~= without_value(string_map(v@), value@),
{
    let mut kept: Vec<(String, String)> = Vec::new();
    let ghost mut src: Seq<int> = Seq::empty();
    let mut i: usize = 0;
    while i < v.len()
        invariant
            i <= v@.len(),
            keys_distinct(v@),
            keys_distinct(kept@),
            src.len() == kept@.len(),
            forall|t: int|
                0 <= t < kept@.len() ==> 0 <= #[trigger] src[t] < i && kept@[t] == v@[src[t]]
                    && v@[src[t]].1@ != value@,
            forall|j: int|
                0 <= j < i && v@[j].1@ != value@ ==> has_key(kept@, #[trigger] v@[j].0@),
        decreases v@.len() - i,
    {
        if !(v[i].1 == *value) {
            let entry = (v[i].0.clone(), v[i].1.clone());
            proof {
                assert(entry == v@[i as int]);
                if has_key(kept@, entry.0@) {
                    let t = key_index(kept@, entry.0@);
                    assert(src[t] < i);
                    assert(v@[src[t]].0@ == v@[i as int].0@);
                }
                lemma_assoc_push(kept@, entry);
            }
            let ghost old_kept = kept@;
            kept.push(entry);
            proof {
                src = src.push(i as int);
                assert forall|j: int|
                    0 <= j < i + 1 && v@[j].1@ != value@ implies has_key(
                    kept@,
                    #[trigger] v@[j].0@,
                ) by {
                    if j < i {
                        let t = key_index(old_kept, v@[j].0@);
                        assert(kept@[t] == old_kept[t]);
                    } else {
                        assert(kept@[kept@.len() - 1] == entry);
                    }
                }
            }
        }
        i = i + 1;
    }
    proof {
        let m = string_map(v@);
        let w = without_value(m, value@);
        let km = string_map(kept@);
        assert forall|k: Seq<char>| #[trigger] km.contains_key(k) == w.contains_key(k) by {
            if has_key(kept@, k) {
                let t = key_index(kept@, k);
                assert(0 <= src[t] < v@.len());
                lemma_assoc_lookup(v@, src[t]);
            }
            if m.contains_key(k) && m[k] != value@ {
                let j = key_index(v@, k);
                lemma_assoc_lookup(v@, j);
            }
        }
        assert forall|k: Seq<char>| #[trigger] km.contains_key(k) implies km[k] == w[k] by {
            let t = key_index(kept@, k);
            lemma_assoc_lookup(kept@, t);
            assert(0 <= src[t] < v@.len());
            lemma_assoc_lookup(v@, src[t]);
        }
    }
    kept
}

/// `m` with every value `from` replaced by `to`; the keys stay.
pub open spec fn with_value_renamed(m: Map<Seq<char>, Seq<char>>, from: Seq<char>, to: Seq<char>) -> Map<
    Seq<char>,
    Seq<char>,
> {
    Map::new(
        |k: Seq<char>| m.contains_key(k),
        |k: Seq<char>|
            if m[k] == from {
                to
            } else {
                m[k]
            },
    )
}

/// The same entries, in the same order, with every value equal to `from`
/// replaced by `to`.
pub fn rename_value(v: &Vec<(String, String)>, from: &String, to: &String) -> (r: Vec<(String, String)>)
    requires
        keys_distinct(v@),
    ensures
        keys_distinct(r@),
        string_map(r@) =~= with_value_renamed(string_map(v@), from@, to@),
{
    let mut out: Vec<(String, String)> = Vec::new();
    let mut i: usize = 0;
    while i < v.len()
        invariant
            i <= v@.len(),
            out@.len() == i,
            forall|t: int|
                0 <= t < i ==> (#[trigger] out@[t]).0@ == v@[t].0@ && out@[t].1@ == (if v@[t].1@
                    == from@ {
                    to@
                } else {
                    v@[t].1@
                }),
        decreases v@.len() - i,
    {
        let value = if v[i].1 == *from {
            to.clone()
        } else {
            v[i].1.clone()
        };
        out.push((v[i].0.clone(), value));
        i = i + 1;
    }
    proof {
        assert forall|a: int, b: int|
            0 <= a < out@.len() && 0 <= b < out@.len() && a != b implies out@[a].0@ != out@[b].0@ by {
            assert(out@[a].0@ == v@[a].0@ && out@[b].0@ == v@[b].0@);
        }
        let m = string_map(v@);
        let w = with_value_renamed(m, from@, to@);
        let om = string_map(out@);
        assert forall|k: Seq<char>| #[trigger] om.contains_key(k) == w.contains_key(k) by {
            if has_key(out@, k) {
                let t = key_index(out@, k);
                assert(out@[t].0@ == v@[t].0@);
            }
            if has_key(v@, k) {
                let t = key_index(v@, k);
                assert(out@[t].0@ == v@[t].0@);
            }
        }
        assert forall|k: Seq<char>| #[trigger] om.contains_key(k) implies om[k] == w[k] by {
            let t = key_index(out@, k);
            lemma_assoc_lookup(out@, t);
            assert(out@[t].0@ == v@[t].0@);
            lemma_assoc_lookup(v@, t);
        }
    }
    out
}

} // verus!
