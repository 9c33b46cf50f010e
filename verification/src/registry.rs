//! Key lookup over the registries.  Each registry is a vector of
//! `(SourceInstanceId, state)` pairs with pairwise-distinct keys; these
//! helpers give it map-like behaviour with fully verified lookups.

use vstd::prelude::*;

use crate::types::SourceInstanceId;

verus! {

/// Whether some pair in `s` carries the key `id`.
pub open spec fn has_key<T>(s: Seq<(SourceInstanceId, T)>, id: SourceInstanceId) -> bool {
    exists|k: int| 0 <= k < s.len() && (#[trigger] s[k]).0 == id
}

/// The index of the first pair carrying `id`, or `-1` if there is none.
pub open spec fn find_key_index<T>(s: Seq<(SourceInstanceId, T)>, id: SourceInstanceId) -> int
    decreases s.len(),
{
    if s.len() == 0 {
        -1
    } else if s[0].0 == id {
        0
    } else {
        let r = find_key_index(s.drop_first(), id);
        if r == -1 {
            -1
        } else {
            r + 1
        }
    }
}

/// No pair before the first hit carries the key; a miss means no pair
/// does.
pub proof fn lemma_find_key_index_props<T>(s: Seq<(SourceInstanceId, T)>, id: SourceInstanceId)
    ensures
        -1 <= find_key_index(s, id) < s.len(),
        find_key_index(s, id) >= 0 ==> s[find_key_index(s, id)].0 == id,
        find_key_index(s, id) >= 0 ==> forall|k: int|
            0 <= k < find_key_index(s, id) ==> (#[trigger] s[k]).0 != id,
        find_key_index(s, id) == -1 ==> forall|k: int|
            0 <= k < s.len() ==> (#[trigger] s[k]).0 != id,
        (find_key_index(s, id) >= 0) == has_key(s, id),
    decreases s.len(),
{
    if s.len() > 0 && s[0].0 != id {
        lemma_find_key_index_props(s.drop_first(), id);
        assert(forall|k: int|
            1 <= k < s.len() ==> (#[trigger] s[k]) == s.drop_first()[k - 1]);
    }
}

/// Distinct keys: no two pairs carry the same key.
pub open spec fn unique_keys<T>(s: Seq<(SourceInstanceId, T)>) -> bool {
    forall|j: int, k: int|
        0 <= j < k < s.len() ==> (#[trigger] s[j]).0 != (#[trigger] s[k]).0
}

pub fn find_key<T>(v: &Vec<(SourceInstanceId, T)>, id: SourceInstanceId) -> (r: Option<usize>)
    ensures
        match r {
            Some(i) => i < v@.len() && find_key_index(v@, id) == i as int,
            None => find_key_index(v@, id) == -1,
        },
{
    proof {
        lemma_find_key_index_props(v@, id);
    }
    let n = v.len();
    let mut i: usize = 0;
    while i < n
        invariant
            0 <= i <= n,
            n == v@.len(),
            forall|k: int| 0 <= k < i ==> (#[trigger] v@[k]).0 != id,
            -1 <= find_key_index(v@, id) < v@.len(),
            find_key_index(v@, id) >= 0 ==> v@[find_key_index(v@, id)].0 == id,
            find_key_index(v@, id) >= 0 ==> forall|k: int|
                0 <= k < find_key_index(v@, id) ==> (#[trigger] v@[k]).0 != id,
            find_key_index(v@, id) == -1 ==> forall|k: int|
                0 <= k < v@.len() ==> (#[trigger] v@[k]).0 != id,
        decreases n - i,
    {
        if v[i].0 == id {
            proof {
                let r = find_key_index(v@, id);
                assert(r != -1);
                assert(r <= i as int);
                assert(r >= i as int);
            }
            return Some(i);
        }
        i = i + 1;
    }
    None
}

/// Two pair sequences carrying the same keys position by position hold
/// the same key set.
pub proof fn lemma_has_key_same_keys<T>(
    a: Seq<(SourceInstanceId, T)>,
    b: Seq<(SourceInstanceId, T)>,
)
    requires
        a.len() == b.len(),
        forall|k: int| 0 <= k < a.len() ==> (#[trigger] a[k]).0 == (#[trigger] b[k]).0,
    ensures
        forall|x: SourceInstanceId| has_key(a, x) == has_key(b, x),
{
    assert forall|x: SourceInstanceId| has_key(a, x) implies has_key(b, x) by {
        let k = choose|k: int| 0 <= k < a.len() && (#[trigger] a[k]).0 == x;
        assert(b[k].0 == x);
    }
    assert forall|x: SourceInstanceId| has_key(b, x) implies has_key(a, x) by {
        let k = choose|k: int| 0 <= k < b.len() && (#[trigger] b[k]).0 == x;
        assert(a[k].0 == x);
    }
}

/// The sequence with the pair carrying `id` taken out, or the sequence
/// itself when no pair carries it.
pub open spec fn remove_key<T>(s: Seq<(SourceInstanceId, T)>, id: SourceInstanceId) -> Seq<
    (SourceInstanceId, T),
> {
    let i = find_key_index(s, id);
    if i >= 0 {
        s.remove(i)
    } else {
        s
    }
}

/// Mutable access to one element of a vector, for updating a registry
/// entry in place.
pub fn vec_index_mut<T>(v: &mut Vec<T>, i: usize) -> (element: &mut T)
    requires
        i < old(v).len(),
    ensures
        *element == old(v)@[i as int],
        final(v)@ == old(v)@.update(i as int, *final(element)),
{
    &mut v[i]
}

} // verus!
