//! The multi-valued clause accumulator: append with duplicate suppression,
//! insertion order preserved, all-whitespace entries rejected.

use vstd::prelude::*;

verus! {

/// `items` with `v` appended, unless `v` is empty or already present.
pub open spec fn push_unique_s(items: Seq<Seq<char>>, v: Seq<char>) -> Seq<Seq<char>> {
    if v.len() == 0 || items.contains(v) {
        items
    } else {
        items.push(v)
    }
}

/// Appends `value` to `list` unless it is empty or an exact duplicate of an
/// entry already there; call order of the surviving entries is kept.
pub fn push_unique(list: &mut Vec<String>, value: String)
    ensures
        final (list).deep_view() == push_unique_s(old(list).deep_view(), value@),
{
    proof {
        assert(list.deep_view().len() == list@.len());
        assert(forall|k: int|
            0 <= k < list@.len() ==> list.deep_view()[k] == list@[k]@);
    }
    if value.unicode_len() == 0 {
        return ;
    }
    let n = list.len();
    let mut i: usize = 0;
    while i < n
        invariant
            n == list.len(),
            i <= n,
            *list == *old(list),
            value@.len() > 0,
            forall|k: int| 0 <= k < i ==> list@[k]@ != value@,
        decreases n - i,
    {
        if list[i].eq(&value) {
            proof {
                assert(list.deep_view()[i as int] == value@);
                assert(list.deep_view().contains(value@));
            }
            return ;
        }
        i = i + 1;
    }
    proof {
        if list.deep_view().contains(value@) {
            let k = choose|k: int|
                0 <= k < list.deep_view().len() && list.deep_view()[k] == value@;
            assert(list@[k]@ == value@);
        }
    }
    let ghost dv0 = list.deep_view();
    list.push(value);
    proof {
        assert(list.deep_view() =~= dv0.push(value@));
    }
}

} // verus!
