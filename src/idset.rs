//! Small sets of stream ids kept in a vector.
use vstd::prelude::*;

verus! {

/// The ids that a vector holds, as a set.
pub open spec fn id_set(v: Seq<u32>) -> Set<u32> {
    Set::new(|x: u32| v.contains(x))
}

/// Whether `x` is among the ids.
pub fn has_id(v: &Vec<u32>, x: u32) -> (r: bool)
    ensures
        r == id_set(v@).contains(x),
{
    let mut i: usize = 0;
    while i < v.len()
        invariant
            i <= v@.len(),
            forall|k: int| 0 <= k < i ==> v@[k] != x,
        decreases v@.len() - i,
    {
        if v[i] == x {
            assert(v@.contains(x));
            return true;
        }
        i = i + 1;
    }
    false
}

/// Adds `x` unless it is there already.
pub fn add_id(v: &mut Vec<u32>, x: u32)
    ensures
        id_set(final(v)@) == id_set(old(v)@).insert(x),
{
    if has_id(v, x) {
        assert(id_set(v@) =~= id_set(old(v)@).insert(x));
    } else {
        v.push(x);
        assert forall|y: u32| #[trigger] id_set(v@).contains(y) <==> id_set(old(v)@).insert(x).contains(y) by {
            if old(v)@.contains(y) {
                let k = choose|k: int| 0 <= k < old(v)@.len() && old(v)@[k] == y;
                assert(v@[k] == y);
            }
            if y == x {
                assert(v@[v@.len() - 1] == x);
            }
            if v@.contains(y) && y != x {
                let k = choose|k: int| 0 <= k < v@.len() && v@[k] == y;
                assert(old(v)@[k] == y);
            }
        }
        assert(id_set(v@) =~= id_set(old(v)@).insert(x));
    }
}

/// Removes every occurrence of `x`.
pub fn remove_id(v: &mut Vec<u32>, x: u32)
    ensures
        id_set(final(v)@) == id_set(old(v)@).remove(x),
{
    let mut out: Vec<u32> = Vec::new();
    let mut i: usize = 0;
    while i < v.len()
        invariant
            i <= v@.len(),
            forall|k: int| 0 <= k < out@.len() ==> #[trigger] out@[k] != x && v@.contains(out@[k]),
            forall|k: int| 0 <= k < i && #[trigger] v@[k] != x ==> out@.contains(v@[k]),
        decreases v@.len() - i,
    {
        let y = v[i];
        let ghost before = out@;
        if y != x {
            out.push(y);
            assert(out@[out@.len() - 1] == y);
        }
        assert forall|k: int| 0 <= k < i + 1 && #[trigger] v@[k] != x implies out@.contains(v@[k]) by {
            if k < i {
                let j = choose|j: int| 0 <= j < before.len() && before[j] == v@[k];
                assert(out@[j] == v@[k]);
            }
        }
        i = i + 1;
    }
    assert forall|y: u32| id_set(out@).contains(y) <==> #[trigger] id_set(v@).remove(x).contains(y) by {
        if out@.contains(y) {
            let j = choose|j: int| 0 <= j < out@.len() && out@[j] == y;
            assert(out@[j] != x);
        }
        if v@.contains(y) && y != x {
            let k = choose|k: int| 0 <= k < v@.len() && v@[k] == y;
            assert(v@[k] != x);
        }
    }
    assert(id_set(out@) =~= id_set(v@).remove(x));
    *v = out;
}

} // verus!
