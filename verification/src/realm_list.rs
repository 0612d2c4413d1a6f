//! The registry of advertised realms and the allocation of their small-integer ids.

use crate::realm_ids::{first_missing, ids_of};
use vstd::prelude::*;

verus! {

/// Rule set a realm is run under.
#[derive(Clone, Copy, Debug, PartialEq, Eq, Structural)]
pub enum RealmType {
    PlayerVsEnvironment,
    PlayerVsPlayer,
    Roleplaying,
    RoleplayingPlayerVsPlayer,
}

/// Region tab under which the client lists a realm.
#[derive(Clone, Copy, Debug, PartialEq, Eq, Structural)]
pub enum RealmCategory {
    Default,
    One,
    Two,
    Three,
    Five,
}

/// Load indicator shown next to a realm. `Other` carries the IEEE-754 bit
/// pattern of a single-precision value that is none of the three named levels.
#[derive(Clone, Copy, Debug, PartialEq, Eq, Structural)]
pub enum Population {
    GreenRecommended,
    RedFull,
    BlueRecommended,
    Other(u32),
}

/// One advertised game world.
#[derive(Debug, PartialEq, Eq)]
pub struct Realm {
    pub realm_type: RealmType,
    pub locked: bool,
    pub flag: u8,
    pub name: String,
    pub address: String,
    pub population: Population,
    pub number_of_characters_on_realm: u8,
    pub category: RealmCategory,
    pub realm_id: u8,
}

/// Mathematical value of a [`Realm`].
pub struct RealmView {
    pub realm_type: RealmType,
    pub locked: bool,
    pub flag: u8,
    pub name: Seq<char>,
    pub address: Seq<char>,
    pub population: Population,
    pub number_of_characters_on_realm: u8,
    pub category: RealmCategory,
    pub realm_id: u8,
}

impl View for Realm {
    type V = RealmView;

    open spec fn view(&self) -> RealmView {
        RealmView {
            realm_type: self.realm_type,
            locked: self.locked,
            flag: self.flag,
            name: self.name@,
            address: self.address@,
            population: self.population,
            number_of_characters_on_realm: self.number_of_characters_on_realm,
            category: self.category,
            realm_id: self.realm_id,
        }
    }
}

impl Clone for Realm {
    fn clone(&self) -> (r: Realm)
        ensures
            r@ == self@,
    {
        Realm {
            realm_type: self.realm_type,
            locked: self.locked,
            flag: self.flag,
            name: self.name.clone(),
            address: self.address.clone(),
            population: self.population,
            number_of_characters_on_realm: self.number_of_characters_on_realm,
            category: self.category,
            realm_id: self.realm_id,
        }
    }
}

/// The realm that a registration with `name` and `address` creates under `realm_id`:
/// every other field takes its default.
pub open spec fn registered_realm(name: Seq<char>, address: Seq<char>, realm_id: u8) -> RealmView {
    RealmView {
        realm_type: RealmType::PlayerVsEnvironment,
        locked: false,
        flag: 0,
        name,
        address,
        population: Population::GreenRecommended,
        number_of_characters_on_realm: 0,
        category: RealmCategory::Default,
        realm_id,
    }
}

/// The ids that the realms of `realms` hold.
pub open spec fn ids_in_use(realms: Seq<RealmView>) -> Set<u8> {
    Set::new(|id: u8| exists|i: int| 0 <= i < realms.len() && #[trigger] realms[i].realm_id == id)
}

/// No two realms of `realms` share an id.
pub open spec fn ids_unique(realms: Seq<RealmView>) -> bool {
    forall|i: int, j: int|
        0 <= i < j < realms.len() ==> #[trigger] realms[i].realm_id != #[trigger] realms[j].realm_id
}

/// `id` is free and every smaller id is taken.
pub open spec fn is_smallest_free(used: Set<u8>, id: u8) -> bool {
    &&& !used.contains(id)
    &&& forall|j: u8| j < id ==> used.contains(j)
}

/// The smallest id of `0..=255` that is not in `used`, if there is one.
pub open spec fn first_free_id(used: Set<u8>) -> Option<u8> {
    if exists|id: u8| is_smallest_free(used, id) {
        Some(choose|id: u8| is_smallest_free(used, id))
    } else {
        None
    }
}

/// At most one id is the smallest free one, so `first_free_id` is the only
/// value that fits its description.
pub proof fn lemma_first_free_id(used: Set<u8>, candidate: Option<u8>)
    ensures
        (candidate matches Some(id) && is_smallest_free(used, id)) ==> first_free_id(used)
            == candidate,
        (candidate is None && forall|j: u8| used.contains(j)) ==> first_free_id(used) == candidate,
        first_free_id(used) matches Some(id) ==> is_smallest_free(used, id),
        first_free_id(used) is None ==> forall|j: u8| used.contains(j),
{
    if let Some(id) = candidate {
        if is_smallest_free(used, id) {
            let other = choose|id: u8| is_smallest_free(used, id);
            assert(is_smallest_free(used, other));
            assert(other == id) by {
                if other < id {
                    assert(used.contains(other));
                } else if id < other {
                    assert(used.contains(id));
                }
            }
        }
    }
    if first_free_id(used) is None {
        assert forall|j: u8| used.contains(j) by {
            lemma_free_id_has_smallest(used, j);
        }
    }
}

/// Below any free id there is a smallest free id.
proof fn lemma_free_id_has_smallest(used: Set<u8>, free: u8)
    ensures
        !used.contains(free) ==> exists|id: u8| is_smallest_free(used, id),
    decreases free,
{
    if !used.contains(free) {
        if forall|j: u8| j < free ==> used.contains(j) {
            assert(is_smallest_free(used, free));
        } else {
            let j = choose|j: u8| j < free && !used.contains(j);
            lemma_free_id_has_smallest(used, j);
        }
    }
}


/// The registry after a registration with `name` and `address`: the new realm
/// is appended under the smallest free id; a full registry stays as it is.
pub open spec fn after_add(realms: Seq<RealmView>, name: Seq<char>, address: Seq<char>) -> Seq<
    RealmView,
> {
    match first_free_id(ids_in_use(realms)) {
        Some(id) => realms.push(registered_realm(name, address, id)),
        None => realms,
    }
}

/// The registry without the realms that hold `realm_id`.
pub open spec fn after_remove(realms: Seq<RealmView>, realm_id: u8) -> Seq<RealmView> {
    realms.filter(|r: RealmView| r.realm_id != realm_id)
}

/// The values of a list of realms.
pub open spec fn realm_views(realms: Seq<Realm>) -> Seq<RealmView> {
    Seq::new(realms.len(), |i: int| realms[i]@)
}

/// Removing the one realm that holds `realm_id` is the same as filtering by id.
proof fn lemma_remove_is_filter(realms: Seq<RealmView>, realm_id: u8, at: int)
    requires
        0 <= at < realms.len(),
        realms[at].realm_id == realm_id,
        forall|j: int| 0 <= j < realms.len() && j != at ==> realms[j].realm_id != realm_id,
    ensures
        after_remove(realms, realm_id) == realms.remove(at),
    decreases realms.len(),
{
    reveal(Seq::filter);
    let pred = |r: RealmView| r.realm_id != realm_id;
    let front = realms.drop_last();
    if at == realms.len() - 1 {
        lemma_absent_filter(front, realm_id);
        assert(realms.remove(at) =~= front);
    } else {
        lemma_remove_is_filter(front, realm_id, at);
        assert(pred(realms.last()));
        assert(realms.remove(at) =~= front.remove(at).push(realms.last()));
    }
}

/// Taking the realm at `at` out of a registry with unique ids frees its id and no other.
proof fn lemma_ids_after_remove(realms: Seq<RealmView>, realm_id: u8, at: int)
    requires
        0 <= at < realms.len(),
        realms[at].realm_id == realm_id,
        ids_unique(realms),
    ensures
        ids_unique(realms.remove(at)),
        !ids_in_use(realms.remove(at)).contains(realm_id),
        forall|id: u8|
            id != realm_id ==> (ids_in_use(realms.remove(at)).contains(id) <==> ids_in_use(
                realms,
            ).contains(id)),
        forall|j: int| 0 <= j < realms.len() && j != at ==> realms[j].realm_id != realm_id,
{
    let rest = realms.remove(at);
    assert forall|j: int| 0 <= j < realms.len() && j != at implies realms[j].realm_id
        != realm_id by {
        if j < at {
            assert(realms[j].realm_id != realms[at].realm_id);
        } else {
            assert(realms[at].realm_id != realms[j].realm_id);
        }
    }
    assert forall|i: int, j: int| 0 <= i < j < rest.len() implies #[trigger] rest[i].realm_id
        != #[trigger] rest[j].realm_id by {
        let a = if i < at { i } else { i + 1 };
        let b = if j < at { j } else { j + 1 };
        assert(rest[i] == realms[a] && rest[j] == realms[b]);
        assert(realms[a].realm_id != realms[b].realm_id);
    }
    if ids_in_use(rest).contains(realm_id) {
        let n = choose|n: int| 0 <= n < rest.len() && #[trigger] rest[n].realm_id == realm_id;
        let a = if n < at { n } else { n + 1 };
        assert(rest[n] == realms[a]);
    }
    assert forall|id: u8| id != realm_id implies (ids_in_use(rest).contains(id) <==> ids_in_use(
        realms,
    ).contains(id)) by {
        if ids_in_use(rest).contains(id) {
            let n = choose|n: int| 0 <= n < rest.len() && #[trigger] rest[n].realm_id == id;
            let a = if n < at { n } else { n + 1 };
            assert(rest[n] == realms[a]);
            assert(realms[a].realm_id == id);
        }
        if ids_in_use(realms).contains(id) {
            let a = choose|a: int| 0 <= a < realms.len() && #[trigger] realms[a].realm_id == id;
            let n = if a < at { a } else { a - 1 };
            assert(rest[n] == realms[a]);
            assert(rest[n].realm_id == id);
        }
    }
}

/// A registration takes an id that was free, and changes the ids in use by
/// that id alone.
pub proof fn lemma_ids_after_add(realms: Seq<RealmView>, name: Seq<char>, address: Seq<char>)
    ensures
        first_free_id(ids_in_use(realms)) matches Some(id) ==> !ids_in_use(realms).contains(id),
        forall|id: u8|
            ids_in_use(after_add(realms, name, address)).contains(id) <==> (ids_in_use(
                realms,
            ).contains(id) || first_free_id(ids_in_use(realms)) == Some(id)),
{
    lemma_first_free_id(ids_in_use(realms), None);
    let added = after_add(realms, name, address);
    assert forall|id: u8|
        ids_in_use(added).contains(id) <==> (ids_in_use(realms).contains(id) || first_free_id(
            ids_in_use(realms),
        ) == Some(id)) by {
        if let Some(new_id) = first_free_id(ids_in_use(realms)) {
            assert(added[realms.len() as int].realm_id == new_id);
            if ids_in_use(added).contains(id) {
                let i = choose|i: int| 0 <= i < added.len() && #[trigger] added[i].realm_id == id;
                if i < realms.len() {
                    assert(realms[i].realm_id == id);
                }
            }
            if ids_in_use(realms).contains(id) {
                let i = choose|i: int| 0 <= i < realms.len() && #[trigger] realms[i].realm_id == id;
                assert(added[i].realm_id == id);
            }
        }
    }
}

/// Filtering by an id that no realm holds changes nothing.
pub proof fn lemma_absent_filter(realms: Seq<RealmView>, realm_id: u8)
    requires
        forall|j: int| 0 <= j < realms.len() ==> realms[j].realm_id != realm_id,
    ensures
        after_remove(realms, realm_id) == realms,
    decreases realms.len(),
{
    reveal(Seq::filter);
    let pred = |r: RealmView| r.realm_id != realm_id;
    if realms.len() > 0 {
        lemma_absent_filter(realms.drop_last(), realm_id);
        assert(pred(realms.last()));
        assert(realms.drop_last().push(realms.last()) =~= realms);
    }
}

/// The registry of the realms that are advertised right now.
#[derive(Debug)]
pub struct RealmListImpl {
    realms: Vec<Realm>,
}

impl View for RealmListImpl {
    type V = Seq<RealmView>;

    closed spec fn view(&self) -> Seq<RealmView> {
        Seq::new(self.realms@.len(), |i: int| self.realms@[i]@)
    }
}

impl RealmListImpl {
    /// Realm ids are unique at every instant.
    #[verifier::type_invariant]
    spec fn well_formed(&self) -> bool {
        ids_unique(self@)
    }

    /// An empty registry.
    pub fn new() -> (r: Self)
        ensures
            r@ == Seq::<RealmView>::empty(),
    {
        let r = RealmListImpl { realms: Vec::new() };
        assert(r@ =~= Seq::<RealmView>::empty());
        r
    }

    /// The realms that are advertised right now, in the order of their registration.
    pub fn get_realm_list(&self) -> (r: Vec<Realm>)
        ensures
            realm_views(r@) == self@,
            ids_unique(self@),
    {
        proof {
            use_type_invariant(self);
        }
        let mut out: Vec<Realm> = Vec::new();
        let mut i: usize = 0;
        while i < self.realms.len()
            invariant
                i <= self.realms@.len(),
                out@.len() == i,
                forall|j: int| 0 <= j < i ==> out@[j]@ == self.realms@[j]@,
            decreases self.realms@.len() - i,
        {
            out.push(self.realms[i].clone());
            i += 1;
        }
        assert(realm_views(out@) =~= self@);
        out
    }

    /// Registers a realm under the smallest free id and returns that id, or
    /// leaves the registry as it is and returns `None` when 256 realms are live.
    pub fn add_realm(&mut self, name: String, address: String) -> (r: Option<u8>)
        ensures
            r == first_free_id(ids_in_use(old(self)@)),
            final(self)@ == after_add(old(self)@, name@, address@),
            r matches Some(id) ==> !ids_in_use(old(self)@).contains(id),
            forall|id: u8|
                ids_in_use(final(self)@).contains(id) <==> (ids_in_use(old(self)@).contains(id) || r
                    == Some(id)),
    {
        proof {
            use_type_invariant(&*self);
            lemma_ids_after_add(self@, name@, address@);
        }
        let ghost before = self@;
        match self.first_available_realm_id() {
            Some(realm_id) => {
                proof {
                    lemma_first_free_id(ids_in_use(before), None);
                }
                let mut realms: Vec<Realm> = Vec::new();
                core::mem::swap(&mut self.realms, &mut realms);
                realms.push(
                    Realm {
                        realm_type: RealmType::PlayerVsEnvironment,
                        locked: false,
                        flag: 0,
                        name,
                        address,
                        population: Population::GreenRecommended,
                        number_of_characters_on_realm: 0,
                        category: RealmCategory::Default,
                        realm_id,
                    },
                );
                proof {
                    let after = Seq::new(realms@.len(), |i: int| realms@[i]@);
                    assert(after =~= before.push(registered_realm(name@, address@, realm_id)));
                    assert forall|i: int, j: int| 0 <= i < j < after.len() implies #[trigger] after[i].realm_id
                        != #[trigger] after[j].realm_id by {
                        assert(before[i].realm_id == after[i].realm_id);
                        if j == before.len() {
                            assert(ids_in_use(before).contains(before[i].realm_id));
                        } else {
                            assert(before[j].realm_id == after[j].realm_id);
                        }
                    }
                }
                self.realms = realms;
                proof {
                    assert(self@ =~= before.push(registered_realm(name@, address@, realm_id)));
                }
                Some(realm_id)
            },
            None => None,
        }
    }

    /// Removes the realm that holds `realm_id`; does nothing if there is none.
    pub fn remove_realm(&mut self, realm_id: u8)
        ensures
            final(self)@ == after_remove(old(self)@, realm_id),
            !ids_in_use(final(self)@).contains(realm_id),
            forall|id: u8| id != realm_id ==> (ids_in_use(final(self)@).contains(id) <==> ids_in_use(
                old(self)@,
            ).contains(id)),
    {
        proof {
            use_type_invariant(&*self);
        }
        let ghost before = self@;
        let mut i: usize = 0;
        while i < self.realms.len()
            invariant
                i <= self.realms@.len(),
                self@ == before,
                before == old(self)@,
                ids_unique(before),
                forall|j: int| 0 <= j < i ==> before[j].realm_id != realm_id,
            decreases self.realms@.len() - i,
        {
            if self.realms[i].realm_id == realm_id {
                assert(before[i as int].realm_id == realm_id);
                let mut realms: Vec<Realm> = Vec::new();
                core::mem::swap(&mut self.realms, &mut realms);
                realms.remove(i);
                proof {
                    let after = Seq::new(realms@.len(), |j: int| realms@[j]@);
                    assert(after =~= before.remove(i as int));
                    lemma_ids_after_remove(before, realm_id, i as int);
                    lemma_remove_is_filter(before, realm_id, i as int);
                }
                self.realms = realms;
                assert(self@ =~= before.remove(i as int));
                return ;
            }
            assert(before[i as int].realm_id != realm_id);
            i += 1;
        }
        proof {
            lemma_absent_filter(before, realm_id);
        }
    }

    /// The smallest id of `0..=255` that no live realm holds, found by a scan
    /// in rising order; `None` when all 256 are taken.
    pub fn first_available_realm_id(&self) -> (r: Option<u8>)
        ensures
            r == first_free_id(ids_in_use(self@)),
    {
        let ids_in_use = ids_of(&self.realms);
        assert(self@ =~= realm_views(self.realms@));
        first_missing(&ids_in_use)
    }
}


/// The registry after the registrations `requests` (pairs of name and address),
/// made one after the other with no removal between them.
pub open spec fn after_adds(realms: Seq<RealmView>, requests: Seq<(Seq<char>, Seq<char>)>) -> Seq<
    RealmView,
>
    decreases requests.len(),
{
    if requests.len() == 0 {
        realms
    } else {
        after_add(after_adds(realms, requests.drop_last()), requests.last().0, requests.last().1)
    }
}

/// A registry whose realms hold exactly the ids below its length hands out
/// its length as the next id, and nothing once it holds 256 realms.
proof fn lemma_next_id_of_dense(realms: Seq<RealmView>)
    requires
        realms.len() <= 256,
        forall|i: int| 0 <= i < realms.len() ==> #[trigger] realms[i].realm_id == i,
    ensures
        first_free_id(ids_in_use(realms)) == if realms.len() < 256 {
            Some(realms.len() as u8)
        } else {
            None
        },
{
    let used = ids_in_use(realms);
    assert forall|id: u8| used.contains(id) <==> id < realms.len() by {
        if id < realms.len() {
            assert(realms[id as int].realm_id == id);
        }
    }
    if realms.len() < 256 {
        assert(is_smallest_free(used, realms.len() as u8));
        lemma_first_free_id(used, Some(realms.len() as u8));
    } else {
        lemma_first_free_id(used, None);
    }
}

/// Registrations into an empty registry with no removal between them are
/// given the ids 0, 1, 2, ... in that order; the first 256 succeed, each later
/// one is refused and leaves the registry as it is.
pub proof fn lemma_consecutive_registrations(requests: Seq<(Seq<char>, Seq<char>)>)
    ensures
        forall|i: int|
            0 <= i < requests.len() ==> first_free_id(
                ids_in_use(#[trigger] after_adds(Seq::empty(), requests.take(i))),
            ) == if i < 256 {
                Some(i as u8)
            } else {
                None
            },
        after_adds(Seq::empty(), requests).len() == if requests.len() <= 256 {
            requests.len()
        } else {
            256
        },
        forall|i: int|
            0 <= i < after_adds(Seq::empty(), requests).len() ==> #[trigger] after_adds(
                Seq::empty(),
                requests,
            )[i] == registered_realm(requests[i].0, requests[i].1, i as u8),
        first_free_id(ids_in_use(after_adds(Seq::empty(), requests))) == if requests.len() < 256 {
            Some(requests.len() as u8)
        } else {
            None
        },
        ids_unique(after_adds(Seq::empty(), requests)),
    decreases requests.len(),
{
    let now = after_adds(Seq::empty(), requests);
    if requests.len() > 0 {
        lemma_consecutive_registrations(requests.drop_last());
        let earlier = after_adds(Seq::empty(), requests.drop_last());
        assert(now == after_add(earlier, requests.last().0, requests.last().1));
        assert forall|i: int| 0 <= i < earlier.len() implies requests.drop_last()[i]
            == requests[i] by {}
        assert forall|i: int| 0 <= i < requests.len() implies first_free_id(
            ids_in_use(#[trigger] after_adds(Seq::empty(), requests.take(i))),
        ) == if i < 256 {
            Some(i as u8)
        } else {
            None
        } by {
            if i < requests.len() - 1 {
                assert(requests.take(i) =~= requests.drop_last().take(i));
            } else {
                assert(requests.take(i) =~= requests.drop_last());
            }
        }
    }
    assert forall|i: int| 0 <= i < now.len() implies #[trigger] now[i].realm_id == i by {}
    lemma_next_id_of_dense(now);
}

} // verus!
