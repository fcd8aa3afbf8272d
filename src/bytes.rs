//! Byte-string helpers shared by the roles.
use vstd::prelude::*;

verus! {

/// The byte strings that a list of vectors holds.
pub open spec fn views(v: Seq<Vec<u8>>) -> Seq<Seq<u8>> {
    v.map_values(|b: Vec<u8>| b@)
}

/// The byte-string pairs that a list of vector pairs holds.
pub open spec fn pair_views(v: Seq<(Vec<u8>, Vec<u8>)>) -> Seq<(Seq<u8>, Seq<u8>)> {
    v.map_values(|p: (Vec<u8>, Vec<u8>)| (p.0@, p.1@))
}

/// The first components of a list of pairs.
pub open spec fn firsts(v: Seq<(Seq<u8>, Seq<u8>)>) -> Seq<Seq<u8>> {
    v.map_values(|p: (Seq<u8>, Seq<u8>)| p.0)
}

/// `got` names each of `ids` once and nothing else.
pub open spec fn one_each(got: Seq<Seq<u8>>, ids: Seq<Seq<u8>>) -> bool {
    &&& got.len() == ids.len()
    &&& all_distinct(got)
    &&& forall|k: int| 0 <= k < got.len() ==> ids.contains(#[trigger] got[k])
}

/// No byte string occurs twice.
pub open spec fn all_distinct(s: Seq<Seq<u8>>) -> bool {
    forall|i: int, j: int| 0 <= i < s.len() && 0 <= j < s.len() && i != j ==> s[i] != s[j]
}

/// The 32-byte little-endian scalar encoding of a small index.
pub open spec fn index_bytes(i: u16) -> Seq<u8> {
    seq![(i % 256) as u8, (i / 256) as u8] + Seq::new(30, |k: int| 0u8)
}

pub fn bytes_eq(a: &Vec<u8>, b: &Vec<u8>) -> (r: bool)
    ensures
        r == (a@ == b@),
{
    if a.len() != b.len() {
        return false;
    }
    let mut i: usize = 0;
    while i < a.len()
        invariant
            a@.len() == b@.len(),
            i <= a@.len(),
            forall|k: int| 0 <= k < i ==> a@[k] == b@[k],
        decreases a@.len() - i,
    {
        if a[i] != b[i] {
            return false;
        }
        i += 1;
    }
    assert(a@ =~= b@);
    true
}

pub fn contains_bytes(list: &Vec<Vec<u8>>, x: &Vec<u8>) -> (r: bool)
    ensures
        r == views(list@).contains(x@),
{
    let mut i: usize = 0;
    while i < list.len()
        invariant
            i <= list@.len(),
            forall|k: int| 0 <= k < i ==> list@[k]@ != x@,
        decreases list@.len() - i,
    {
        if bytes_eq(&list[i], x) {
            assert(views(list@)[i as int] == x@);
            return true;
        }
        i += 1;
    }
    proof {
        if views(list@).contains(x@) {
            let k = choose|k: int| 0 <= k < views(list@).len() && views(list@)[k] == x@;
            assert(list@[k]@ == x@);
        }
    }
    false
}

pub fn copy_bytes(b: &Vec<u8>) -> (r: Vec<u8>)
    ensures
        r@ == b@,
{
    let mut r: Vec<u8> = Vec::new();
    let mut i: usize = 0;
    while i < b.len()
        invariant
            i <= b@.len(),
            r@ == b@.subrange(0, i as int),
        decreases b@.len() - i,
    {
        r.push(b[i]);
        i += 1;
    }
    assert(r@ =~= b@);
    r
}

/// Whether some byte string occurs twice in the list.
pub fn has_duplicate(list: &Vec<Vec<u8>>) -> (r: bool)
    ensures
        r == !all_distinct(views(list@)),
{
    let mut seen: Vec<Vec<u8>> = Vec::new();
    let mut i: usize = 0;
    while i < list.len()
        invariant
            i <= list@.len(),
            views(seen@) == views(list@).subrange(0, i as int),
            all_distinct(views(seen@)),
        decreases list@.len() - i,
    {
        if contains_bytes(&seen, &list[i]) {
            proof {
                let k = choose|k: int| 0 <= k < views(seen@).len() && views(seen@)[k] == list@[i as int]@;
                assert(views(list@)[k] == views(list@)[i as int]);
            }
            return true;
        }
        seen.push(copy_bytes(&list[i]));
        assert(views(seen@) =~= views(list@).subrange(0, i + 1));
        i += 1;
    }
    assert(views(seen@) =~= views(list@));
    false
}

} // verus!
