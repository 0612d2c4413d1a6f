//! The ids that a list of realms holds, as an ordered set, and the search
//! for the smallest id that is missing from such a set.

use crate::realm_list::{
    first_free_id, ids_in_use, is_smallest_free, lemma_first_free_id, realm_views, Realm,
};
use std::collections::BTreeSet;
use vstd::prelude::*;

verus! {

broadcast use {vstd::laws_cmp::group_laws_cmp, vstd::std_specs::btree::group_btree_axioms};

/// The set of the ids that the realms of `realms` hold.
pub fn ids_of(realms: &Vec<Realm>) -> (r: BTreeSet<u8>)
    ensures
        r@ == ids_in_use(realm_views(realms@)),
{
    let mut ids: BTreeSet<u8> = BTreeSet::new();
    let mut i: usize = 0;
    while i < realms.len()
        invariant
            i <= realms@.len(),
            forall|id: u8|
                ids@.contains(id) <==> exists|n: int|
                    0 <= n < i && #[trigger] realms@[n].realm_id == id,
        decreases realms@.len() - i,
    {
        let ghost before = ids@;
        let ghost at: int = i + 0;
        let id: u8 = realms[i].realm_id;
        ids.insert(id);
        proof {
            assert(realms@[at].realm_id == id);
            assert forall|other: u8|
                ids@.contains(other) <==> exists|n: int|
                    0 <= n < i + 1 && #[trigger] realms@[n].realm_id == other by {
                if other != id && before.contains(other) {
                    let n = choose|n: int| 0 <= n < i && #[trigger] realms@[n].realm_id == other;
                    assert(0 <= n < i + 1 && realms@[n].realm_id == other);
                }
            }
        }
        i += 1;
    }
    proof {
        let views = realm_views(realms@);
        assert forall|id: u8| ids@.contains(id) <==> ids_in_use(views).contains(id) by {
            if ids@.contains(id) {
                let n = choose|n: int| 0 <= n < i && #[trigger] realms@[n].realm_id == id;
                assert(views[n].realm_id == id);
            }
            if ids_in_use(views).contains(id) {
                let n = choose|n: int| 0 <= n < views.len() && #[trigger] views[n].realm_id == id;
                assert(realms@[n].realm_id == id);
            }
        }
        assert(ids@ =~= ids_in_use(views));
    }
    ids
}

/// The smallest id of `0..=255` that is not in `ids`, found by a scan in
/// rising order; `None` when all 256 are in it.
pub fn first_missing(ids: &BTreeSet<u8>) -> (r: Option<u8>)
    ensures
        r == first_free_id(ids@),
{
    let mut candidate: u8 = 0;
    loop
        invariant
            forall|j: u8| j < candidate ==> ids@.contains(j),
        decreases 256 - candidate,
    {
        match ids.get(&candidate) {
            None => {
                proof {
                    assert(is_smallest_free(ids@, candidate));
                    lemma_first_free_id(ids@, Some(candidate));
                }
                return Some(candidate);
            },
            Some(_) => {},
        }
        assert(ids@.contains(candidate));
        if candidate == 255 {
            proof {
                assert forall|j: u8| ids@.contains(j) by {
                    if j < candidate {
                    }
                }
                lemma_first_free_id(ids@, None);
            }
            return None;
        }
        candidate += 1;
    }
}

} // verus!
