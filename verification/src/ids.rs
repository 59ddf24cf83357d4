//! Lists of string ids used as sets: each id held once.

use vstd::prelude::*;

verus! {

/// The ids held by `v`.
pub open spec fn id_set(v: Seq<String>) -> Set<Seq<char>> {
    Set::new(|s: Seq<char>| exists|i: int| 0 <= i < v.len() && (#[trigger] v[i])@ == s)
}

/// No id occurs twice in `v`.
pub open spec fn distinct_ids(v: Seq<String>) -> bool {
    forall|i: int, j: int| 0 <= i < v.len() && 0 <= j < v.len() && i != j ==> (#[trigger] v[i])@ != (#[trigger] v[j])@
}

/// Position of `key` in `v`, if present.
pub fn find_id(v: &Vec<String>, key: &String) -> (r: Option<usize>)
    ensures
        match r {
            Some(i) => i < v@.len() && v@[i as int]@ == key@,
            None => !id_set(v@).contains(key@),
        },
{
    let mut i: usize = 0;
    while i < v.len()
        invariant
            i <= v.len(),
            forall|j: int| 0 <= j < i ==> (#[trigger] v@[j])@ != key@,
        decreases v.len() - i,
    {
        if v[i] == *key {
            return Some(i);
        }
        i = i + 1;
    }
    None
}

/// Whether `v` holds `key`.
pub fn holds_id(v: &Vec<String>, key: &String) -> (r: bool)
    ensures
        r == id_set(v@).contains(key@),
{
    match find_id(v, key) {
        Some(i) => {
            assert(id_set(v@).contains(v@[i as int]@));
            true
        },
        None => false,
    }
}

/// Drop `key` from `v`; returns whether it was there.
pub fn remove_id(v: &mut Vec<String>, key: &String) -> (r: bool)
    requires
        distinct_ids(old(v)@),
    ensures
        distinct_ids(final(v)@),
        id_set(final(v)@) == id_set(old(v)@).remove(key@),
        r == id_set(old(v)@).contains(key@),
{
    match find_id(v, key) {
        Some(i) => {
            let ghost o = v@;
            v.remove(i);
            proof {
                assert(id_set(o).contains(o[i as int]@));
                assert forall|s: Seq<char>| id_set(v@).contains(s) <==> id_set(o).remove(key@).contains(s) by {
                    if id_set(v@).contains(s) {
                        let k = choose|k: int| 0 <= k < v@.len() && (#[trigger] v@[k])@ == s;
                        let k2 = if k < i { k } else { k + 1 };
                        assert(o[k2] == v@[k]);
                        assert(k2 != i);
                    }
                    if id_set(o).remove(key@).contains(s) {
                        let k = choose|k: int| 0 <= k < o.len() && (#[trigger] o[k])@ == s;
                        assert(k != i);
                        let k2 = if k < i { k } else { k - 1 };
                        assert(v@[k2] == o[k]);
                    }
                }
                assert(id_set(v@) =~= id_set(o).remove(key@));
                assert forall|a: int, b: int| 0 <= a < v@.len() && 0 <= b < v@.len() && a != b implies (#[trigger] v@[a])@
                    != (#[trigger] v@[b])@ by {
                    let a2 = if a < i { a } else { a + 1 };
                    let b2 = if b < i { b } else { b + 1 };
                    assert(o[a2] == v@[a] && o[b2] == v@[b]);
                }
            }
            true
        },
        None => {
            assert(id_set(v@) =~= id_set(v@).remove(key@));
            false
        },
    }
}

/// Add `key` to `v` unless present; returns whether it was newly added.
pub fn insert_id(v: &mut Vec<String>, key: String) -> (r: bool)
    requires
        distinct_ids(old(v)@),
    ensures
        distinct_ids(final(v)@),
        id_set(final(v)@) == id_set(old(v)@).insert(key@),
        r == !id_set(old(v)@).contains(key@),
{
    if holds_id(v, &key) {
        assert(id_set(v@) =~= id_set(v@).insert(key@));
        return false;
    }
    let ghost o = v@;
    let ghost k = key@;
    v.push(key);
    proof {
        assert forall|s: Seq<char>| id_set(v@).contains(s) <==> id_set(o).insert(k).contains(s) by {
            if id_set(v@).contains(s) {
                let j = choose|j: int| 0 <= j < v@.len() && (#[trigger] v@[j])@ == s;
                if j < o.len() {
                    assert(o[j] == v@[j]);
                }
            }
            if id_set(o).contains(s) {
                let j = choose|j: int| 0 <= j < o.len() && (#[trigger] o[j])@ == s;
                assert(v@[j] == o[j]);
            }
            if s == k {
                assert(v@[o.len() as int]@ == k);
            }
        }
        assert(id_set(v@) =~= id_set(o).insert(k));
        assert forall|a: int, b: int| 0 <= a < v@.len() && 0 <= b < v@.len() && a != b implies (#[trigger] v@[a])@
            != (#[trigger] v@[b])@ by {
            if a < o.len() && b < o.len() {
                assert(o[a] == v@[a] && o[b] == v@[b]);
            } else if a < o.len() {
                assert(o[a] == v@[a]);
                assert(id_set(o).contains(o[a]@));
            } else if b < o.len() {
                assert(o[b] == v@[b]);
                assert(id_set(o).contains(o[b]@));
            }
        }
    }
    true
}

/// An element-wise copy of `v`.
pub fn copy_ids(v: &Vec<String>) -> (r: Vec<String>)
    ensures
        r@ == v@,
{
    let r = v.clone();
    proof {
        assert forall|i: int| 0 <= i < v@.len() implies r@[i] == v@[i] by {
            assert(cloned::<String>(v@[i], r@[i]));
        }
        assert(r@ =~= v@);
    }
    r
}

} // verus!
