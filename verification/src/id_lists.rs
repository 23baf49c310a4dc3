use vstd::prelude::*;

use crate::uploads::{sort_chunks, sorted};

verus! {

/// Holds when each item of `s` is smaller than the next.
pub open spec fn strictly_increasing(s: Seq<i32>) -> bool {
    forall|i: int, j: int| 0 <= i < j < s.len() ==> s[i] < s[j]
}

/// `ids` sorted with duplicates removed (`sort_unstable` then `dedup`): the
/// same ids, each once, in increasing order.
pub fn sorted_unique_ids(ids: Vec<i32>) -> (r: Vec<i32>)
    ensures
        strictly_increasing(r@),
        r@.to_set() == ids@.to_set(),
{
    broadcast use vstd::seq_lib::group_to_multiset_ensures;

    let ghost given = ids@;
    let v = sort_chunks(ids);
    proof {
        assert forall|x: i32| v@.contains(x) <==> given.contains(x) by {
            assert(v@.to_multiset().count(x) == given.to_multiset().count(x));
        }
        assert(v@.to_set() =~= given.to_set());
    }
    let mut out: Vec<i32> = Vec::new();
    let mut i: usize = 0;
    while i < v.len()
        invariant
            i <= v@.len(),
            sorted(v@),
            strictly_increasing(out@),
            out@.to_set() == v@.take(i as int).to_set(),
            i > 0 ==> out@.len() > 0 && out@.last() == v@[i - 1],
            i == 0 ==> out@.len() == 0,
        decreases v.len() - i,
    {
        let x = v[i];
        let ghost before = out@;
        proof {
            assert(v@.take(i + 1) =~= v@.take(i as int).push(x));
        }
        if out.len() == 0 || out[out.len() - 1] != x {
            out.push(x);
            proof {
                if before.len() > 0 {
                    assert(v@[i - 1] <= x);
                }
                assert forall|a: int, b: int| 0 <= a < b < out@.len() implies out@[a] < out@[b] by {
                    if b < before.len() {
                        assert(out@[a] == before[a] && out@[b] == before[b]);
                    } else {
                        assert(out@[a] == before[a]);
                        assert(before[a] <= before.last());
                    }
                }
                before.lemma_push_to_set_commute(x);
                v@.take(i as int).lemma_push_to_set_commute(x);
                assert(out@ == before.push(x));
            }
        } else {
            proof {
                assert(before[before.len() - 1] == x);
                assert(before.contains(x));
                v@.take(i as int).lemma_push_to_set_commute(x);
                assert(before.to_set().insert(x) =~= before.to_set());
            }
        }
        i = i + 1;
    }
    proof {
        assert(v@.take(v@.len() as int) =~= v@);
    }
    out
}

/// Law: sorting and deduplicating a list of ids is idempotent: a list that
/// is already increasing is its own result.
pub proof fn law_unique_ids_stable(ids: Seq<i32>, r: Seq<i32>)
    requires
        strictly_increasing(ids),
        strictly_increasing(r),
        r.to_set() == ids.to_set(),
    ensures
        r == ids,
    decreases ids.len() + r.len(),
{
    if ids.len() == 0 {
        if r.len() > 0 {
            assert(r.to_set().contains(r[0]));
        }
    } else if r.len() == 0 {
        assert(ids.to_set().contains(ids[0]));
    } else {
        // The largest items agree, and so do the rest.
        let a = ids.last();
        let b = r.last();
        assert(ids.to_set().contains(a));
        assert(r.to_set().contains(b));
        let ka = choose|k: int| 0 <= k < r.len() && r[k] == a;
        let kb = choose|k: int| 0 <= k < ids.len() && ids[k] == b;
        assert(a <= b) by {
            if ka < r.len() - 1 {
                assert(r[ka] < r[r.len() - 1]);
            }
        }
        assert(b <= a) by {
            if kb < ids.len() - 1 {
                assert(ids[kb] < ids[ids.len() - 1]);
            }
        }
        let ids2 = ids.drop_last();
        let r2 = r.drop_last();
        assert forall|x: i32| ids2.contains(x) <==> r2.contains(x) by {
            if ids2.contains(x) {
                let k = choose|k: int| 0 <= k < ids2.len() && ids2[k] == x;
                assert(ids[k] < a);
                assert(r.to_set().contains(x));
                let m = choose|m: int| 0 <= m < r.len() && r[m] == x;
                assert(m != r.len() - 1);
                assert(r2[m] == x);
            }
            if r2.contains(x) {
                let k = choose|k: int| 0 <= k < r2.len() && r2[k] == x;
                assert(r[k] < b);
                assert(ids.to_set().contains(x));
                let m = choose|m: int| 0 <= m < ids.len() && ids[m] == x;
                assert(m != ids.len() - 1);
                assert(ids2[m] == x);
            }
        }
        assert(r2.to_set() =~= ids2.to_set());
        law_unique_ids_stable(ids2, r2);
        assert(r =~= r2.push(b));
        assert(ids =~= ids2.push(a));
    }
}

} // verus!
