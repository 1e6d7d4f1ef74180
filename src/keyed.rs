//! Lists of (key, value) entries read as maps from the key's characters to
//! the value, and the facts about them that the keyed stores rely on.
use vstd::prelude::*;

verus! {

/// The map that a list of entries stands for: a later entry wins.
pub open spec fn keyed_map<V>(s: Seq<(String, V)>) -> Map<Seq<char>, V>
    decreases s.len(),
{
    if s.len() == 0 {
        Map::empty()
    } else {
        keyed_map(s.drop_last()).insert(s.last().0@, s.last().1)
    }
}

/// No key occurs twice in the list.
pub open spec fn unique_keys<V>(s: Seq<(String, V)>) -> bool {
    forall|a: int, b: int| 0 <= a < b < s.len() ==> s[a].0@ != s[b].0@
}

pub proof fn lemma_keyed_map_keys<V>(s: Seq<(String, V)>, k: Seq<char>)
    ensures
        keyed_map(s).contains_key(k) <==> exists|i: int| 0 <= i < s.len() && s[i].0@ == k,
    decreases s.len(),
{
    if s.len() > 0 {
        lemma_keyed_map_keys(s.drop_last(), k);
        if keyed_map(s.drop_last()).contains_key(k) {
            let i = choose|i: int| 0 <= i < s.drop_last().len() && s.drop_last()[i].0@ == k;
            assert(s[i].0@ == k);
        }
        if exists|i: int| 0 <= i < s.len() && s[i].0@ == k {
            let i = choose|i: int| 0 <= i < s.len() && s[i].0@ == k;
            if i < s.len() - 1 {
                assert(s.drop_last()[i].0@ == k);
            }
        }
    }
}

pub proof fn lemma_keyed_map_value<V>(s: Seq<(String, V)>, i: int)
    requires
        0 <= i < s.len(),
        unique_keys(s),
    ensures
        keyed_map(s).contains_key(s[i].0@),
        keyed_map(s)[s[i].0@] == s[i].1,
    decreases s.len(),
{
    if i < s.len() - 1 {
        lemma_keyed_map_value(s.drop_last(), i);
        assert(s[i].0@ != s.last().0@);
    }
}

/// The map's value at a key is the value of some entry with that key.
pub proof fn lemma_keyed_map_value_from<V>(s: Seq<(String, V)>, k: Seq<char>)
    requires
        keyed_map(s).contains_key(k),
    ensures
        exists|j: int| 0 <= j < s.len() && s[j].0@ == k && keyed_map(s)[k] == s[j].1,
    decreases s.len(),
{
    if s.last().0@ != k {
        lemma_keyed_map_value_from(s.drop_last(), k);
        let j = choose|j: int|
            0 <= j < s.drop_last().len() && s.drop_last()[j].0@ == k && keyed_map(s.drop_last())[k]
                == s.drop_last()[j].1;
        assert(s[j] == s.drop_last()[j]);
    } else {
        assert(s[s.len() - 1].0@ == k);
    }
}

/// The last entry that has key `k` decides the map's value at `k`.
pub proof fn lemma_keyed_map_last<V>(s: Seq<(String, V)>, i: int)
    requires
        0 <= i < s.len(),
        forall|j: int| i < j < s.len() ==> #[trigger] s[j].0@ != s[i].0@,
    ensures
        keyed_map(s).contains_key(s[i].0@),
        keyed_map(s)[s[i].0@] == s[i].1,
    decreases s.len(),
{
    if i < s.len() - 1 {
        lemma_keyed_map_last(s.drop_last(), i);
        assert(s.last().0@ != s[i].0@);
    }
}

/// Replacing the value of an entry in place.
pub proof fn lemma_keyed_map_update<V>(s: Seq<(String, V)>, i: int, e: (String, V))
    requires
        0 <= i < s.len(),
        e.0@ == s[i].0@,
        unique_keys(s),
    ensures
        keyed_map(s.update(i, e)) == keyed_map(s).insert(e.0@, e.1),
        unique_keys(s.update(i, e)),
    decreases s.len(),
{
    let t = s.update(i, e);
    if i == s.len() - 1 {
        assert(t.drop_last() =~= s.drop_last());
        assert(keyed_map(t) =~= keyed_map(s).insert(e.0@, e.1));
    } else {
        assert(t.drop_last() =~= s.drop_last().update(i, e));
        lemma_keyed_map_update(s.drop_last(), i, e);
        assert(s.last().0@ != s[i].0@);
        assert(keyed_map(t) =~= keyed_map(s).insert(e.0@, e.1));
    }
    assert forall|a: int, b: int| 0 <= a < b < t.len() implies t[a].0@ != t[b].0@ by {
        assert(s[a].0@ != s[b].0@);
    }
}

/// Appending an entry with a fresh key.
pub proof fn lemma_keyed_map_push<V>(s: Seq<(String, V)>, e: (String, V))
    requires
        unique_keys(s),
        !keyed_map(s).contains_key(e.0@),
    ensures
        keyed_map(s.push(e)) == keyed_map(s).insert(e.0@, e.1),
        unique_keys(s.push(e)),
{
    let t = s.push(e);
    assert(t.drop_last() =~= s);
    lemma_keyed_map_keys(s, e.0@);
    assert forall|a: int, b: int| 0 <= a < b < t.len() implies t[a].0@ != t[b].0@ by {
        if b == s.len() {
            assert(t[a] == s[a]);
        } else {
            assert(s[a].0@ != s[b].0@);
        }
    }
}

/// `out` holds the entries of `src` whose value `keep` accepts, unchanged.
pub open spec fn filtered<V>(
    src: Map<Seq<char>, V>,
    out: Map<Seq<char>, V>,
    keep: spec_fn(V) -> bool,
) -> bool {
    &&& forall|k: Seq<char>| #[trigger]
        out.contains_key(k) <==> src.contains_key(k) && keep(src[k])
    &&& forall|k: Seq<char>| #[trigger] out.contains_key(k) ==> out[k] == src[k]
}

/// One step of filtering a list with unique keys: entry `i` of `src` is
/// either appended to `out` (as `e`, a copy of it) or left out.
pub proof fn lemma_filter_step<V>(
    src: Seq<(String, V)>,
    i: int,
    out: Seq<(String, V)>,
    e: (String, V),
    keep: spec_fn(V) -> bool,
)
    requires
        unique_keys(src),
        0 <= i < src.len(),
        e.0@ == src[i].0@,
        e.1 == src[i].1,
        unique_keys(out),
        filtered(keyed_map(src.subrange(0, i)), keyed_map(out), keep),
    ensures
        keep(e.1) ==> unique_keys(out.push(e)) && filtered(
            keyed_map(src.subrange(0, i + 1)),
            keyed_map(out.push(e)),
            keep,
        ),
        !keep(e.1) ==> filtered(keyed_map(src.subrange(0, i + 1)), keyed_map(out), keep),
{
    let prev = src.subrange(0, i);
    let next = src.subrange(0, i + 1);
    assert(next.drop_last() =~= prev);
    lemma_keyed_map_keys(prev, e.0@);
    if keyed_map(prev).contains_key(e.0@) {
        let m = choose|m: int| 0 <= m < prev.len() && prev[m].0@ == e.0@;
        assert(src[m].0@ != src[i].0@);
    }
    if keep(e.1) {
        lemma_keyed_map_push(out, e);
    }
}

} // verus!
