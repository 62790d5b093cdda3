//! String-keyed index entries.
//!
//! The registry keeps its slug and account indices as vectors of
//! `(key, listing id)` entries with pairwise distinct keys.  Lookup is a
//! first-match scan; the lemmas here describe how lookup behaves under the
//! operations the registry performs: appending a fresh entry and removing the
//! entry of a key.
use vstd::prelude::*;
use crate::text::str_eq;
use crate::AppId;

verus! {

/// First-match lookup of a key among the entries.
pub open spec fn spec_lookup(es: Seq<(String, AppId)>, key: Seq<char>) -> Option<AppId>
    decreases es.len(),
{
    if es.len() == 0 {
        None
    } else if es[0].0@ == key {
        Some(es[0].1)
    } else {
        spec_lookup(es.drop_first(), key)
    }
}

/// The position of the first entry with the key; meaningful only when present.
pub open spec fn spec_key_index(es: Seq<(String, AppId)>, key: Seq<char>) -> int
    decreases es.len(),
{
    if es.len() == 0 {
        0
    } else if es[0].0@ == key {
        0
    } else {
        1 + spec_key_index(es.drop_first(), key)
    }
}

/// No two entries share a key.
pub open spec fn keys_distinct(es: Seq<(String, AppId)>) -> bool {
    forall|i: int, j: int| 0 <= i < j < es.len() ==> es[i].0@ != es[j].0@
}

/// Lookup finds a key exactly when some entry holds it, and then reports that
/// entry's id and position.
pub proof fn lemma_lookup_characterize(es: Seq<(String, AppId)>, key: Seq<char>)
    ensures
        match spec_lookup(es, key) {
            Some(v) => {
                let p = spec_key_index(es, key);
                &&& 0 <= p < es.len()
                &&& es[p].0@ == key
                &&& es[p].1 == v
                &&& forall|j: int| 0 <= j < p ==> es[j].0@ != key
            },
            None => forall|j: int| 0 <= j < es.len() ==> es[j].0@ != key,
        },
    decreases es.len(),
{
    if es.len() > 0 && es[0].0@ != key {
        lemma_lookup_characterize(es.drop_first(), key);
        assert forall|j: int| 1 <= j < es.len() implies es.drop_first()[j - 1] == es[j] by {}
    }
}

/// A key held by no entry is not found.
pub proof fn lemma_lookup_absent(es: Seq<(String, AppId)>, key: Seq<char>)
    requires
        forall|j: int| 0 <= j < es.len() ==> es[j].0@ != key,
    ensures
        spec_lookup(es, key) is None,
{
    lemma_lookup_characterize(es, key);
    if spec_lookup(es, key) is Some {
        assert(es[spec_key_index(es, key)].0@ == key);
    }
}

/// How lookup behaves after appending an entry.
pub proof fn lemma_lookup_push(es: Seq<(String, AppId)>, e: (String, AppId), key: Seq<char>)
    ensures
        spec_lookup(es.push(e), key) == if spec_lookup(es, key) is Some {
            spec_lookup(es, key)
        } else if e.0@ == key {
            Some(e.1)
        } else {
            None
        },
    decreases es.len(),
{
    let t = es.push(e);
    if es.len() == 0 {
        assert(t[0] == e);
        assert(t.drop_first() =~= Seq::<(String, AppId)>::empty());
        assert(spec_lookup(Seq::<(String, AppId)>::empty(), key) is None);
        assert(spec_lookup(es, key) is None);
    } else {
        assert(t[0] == es[0]);
        assert(t.drop_first() =~= es.drop_first().push(e));
        lemma_lookup_push(es.drop_first(), e, key);
    }
}

/// How lookup behaves after removing the entry at a position: the removed key
/// is gone, every other key resolves as before.
pub proof fn lemma_lookup_remove(es: Seq<(String, AppId)>, p: int, key: Seq<char>)
    requires
        0 <= p < es.len(),
        keys_distinct(es),
    ensures
        spec_lookup(es.remove(p), key) == if es[p].0@ == key {
            None::<AppId>
        } else {
            spec_lookup(es, key)
        },
    decreases es.len(),
{
    let t = es.remove(p);
    if p == 0 {
        assert(t =~= es.drop_first());
        if es[0].0@ == key {
            assert forall|j: int| 0 <= j < t.len() implies t[j].0@ != key by {
                assert(t[j] == es[j + 1]);
            }
            lemma_lookup_absent(t, key);
        }
    } else {
        assert(t[0] == es[0]);
        assert(t.drop_first() =~= es.drop_first().remove(p - 1));
        assert forall|i: int, j: int| 0 <= i < j < es.drop_first().len() implies es.drop_first()[i].0@
            != es.drop_first()[j].0@ by {
            assert(es.drop_first()[i] == es[i + 1]);
            assert(es.drop_first()[j] == es[j + 1]);
        }
        lemma_lookup_remove(es.drop_first(), p - 1, key);
        assert(es.drop_first()[p - 1] == es[p]);
        if es[0].0@ == key {
            assert(es[p].0@ != key);
        }
    }
}

/// Distinct keys stay distinct when an absent key is appended.
pub proof fn lemma_distinct_push(es: Seq<(String, AppId)>, e: (String, AppId))
    requires
        keys_distinct(es),
        forall|j: int| 0 <= j < es.len() ==> es[j].0@ != e.0@,
    ensures
        keys_distinct(es.push(e)),
{
    let t = es.push(e);
    assert forall|i: int, j: int| 0 <= i < j < t.len() implies t[i].0@ != t[j].0@ by {
        if j < es.len() {
            assert(t[i] == es[i] && t[j] == es[j]);
        } else {
            assert(t[i] == es[i] && t[j] == e);
        }
    }
}

/// Distinct keys stay distinct when an entry is removed.
pub proof fn lemma_distinct_remove(es: Seq<(String, AppId)>, p: int)
    requires
        0 <= p < es.len(),
        keys_distinct(es),
    ensures
        keys_distinct(es.remove(p)),
{
    let t = es.remove(p);
    assert forall|i: int, j: int| 0 <= i < j < t.len() implies t[i].0@ != t[j].0@ by {
        let i0: int = if i < p { i } else { i + 1 };
        let j0: int = if j < p { j } else { j + 1 };
        assert(t[i] == es[i0] && t[j] == es[j0]);
    }
}

/// Scans the entries for a key.
pub fn index_lookup(es: &Vec<(String, AppId)>, key: &str) -> (r: Option<AppId>)
    ensures
        r == spec_lookup(es@, key@),
{
    let n = es.len();
    let mut i: usize = 0;
    proof {
        assert(es@.skip(0) =~= es@);
    }
    while i < n
        invariant
            0 <= i <= n,
            n == es@.len(),
            spec_lookup(es@, key@) == spec_lookup(es@.skip(i as int), key@),
        decreases n - i,
    {
        let hit = str_eq(es[i].0.as_str(), key);
        proof {
            let t = es@.skip(i as int);
            assert(t[0] == es@[i as int]);
            assert(t.drop_first() =~= es@.skip(i as int + 1));
        }
        if hit {
            return Some(es[i].1);
        }
        i = i + 1;
    }
    proof {
        assert(es@.skip(n as int) =~= Seq::<(String, AppId)>::empty());
    }
    None
}

/// Appends an entry for a key that is not yet present.
pub fn index_insert(es: &mut Vec<(String, AppId)>, key: String, id: AppId)
    requires
        spec_lookup(old(es)@, key@) is None,
    ensures
        final(es)@ == old(es)@.push((key, id)),
{
    es.push((key, id));
}

/// Removes the entry of a key, when one exists; other entries keep their order.
pub fn index_remove(es: &mut Vec<(String, AppId)>, key: &str)
    ensures
        match spec_lookup(old(es)@, key@) {
            Some(_) => final(es)@ == old(es)@.remove(spec_key_index(old(es)@, key@)),
            None => final(es)@ == old(es)@,
        },
{
    proof {
        lemma_lookup_characterize(old(es)@, key@);
    }
    let n = es.len();
    let mut i: usize = 0;
    while i < n
        invariant
            0 <= i <= n,
            n == es@.len(),
            es@ == old(es)@,
            forall|j: int| 0 <= j < i ==> es@[j].0@ != key@,
            match spec_lookup(old(es)@, key@) {
                Some(_) => {
                    let p = spec_key_index(old(es)@, key@);
                    0 <= p < es@.len() && es@[p].0@ == key@ && i <= p
                },
                None => true,
            },
        decreases n - i,
    {
        let hit = str_eq(es[i].0.as_str(), key);
        if hit {
            proof {
                lemma_lookup_characterize(old(es)@, key@);
                match spec_lookup(old(es)@, key@) {
                    Some(_) => {
                        assert(i as int >= spec_key_index(old(es)@, key@));
                    }
                    None => {
                        assert(es@[i as int].0@ != key@);
                    }
                }
            }
            es.remove(i);
            return;
        }
        i = i + 1;
    }
    proof {
        if spec_lookup(old(es)@, key@) is Some {
            assert(es@[spec_key_index(old(es)@, key@)].0@ == key@);
        }
    }
}

} // verus!
