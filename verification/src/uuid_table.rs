//! The UUIDs under which the plugins report their metrics: each metric key
//! keeps the UUID it was first given until it is removed.
use vstd::prelude::*;
use crate::ids::{is_v4_uuid, new_uuid};
use crate::text::str_eq;

verus! {

/// What identifies a metric of a plugin: the owner it belongs to (a domain
/// ID, or 0 for the host), a name and an optional sub-name.
#[derive(Debug)]
pub struct MetricKey {
    pub scope: u32,
    pub name: String,
    pub sub: Option<String>,
}

/// The characters of an optional string.
pub open spec fn opt_chars(o: Option<String>) -> Option<Seq<char>> {
    match o {
        Some(s) => Some(s@),
        None => None,
    }
}

/// A metric key as plain values.
pub type KeyView = (u32, Seq<char>, Option<Seq<char>>);

impl MetricKey {
    pub open spec fn key_view(&self) -> KeyView {
        (self.scope, self.name@, opt_chars(self.sub))
    }
}

impl Clone for MetricKey {
    fn clone(&self) -> (r: Self)
        ensures
            r.key_view() == self.key_view(),
    {
        MetricKey {
            scope: self.scope,
            name: self.name.clone(),
            sub: match &self.sub {
                Some(s) => Some(s.clone()),
                None => None,
            },
        }
    }
}

/// One metric key with its UUID.
#[derive(Debug)]
pub struct UuidSlot {
    pub key: MetricKey,
    pub uuid: u128,
}

impl Clone for UuidSlot {
    fn clone(&self) -> (r: Self)
        ensures
            r.key.key_view() == self.key.key_view(),
            r.uuid == self.uuid,
    {
        UuidSlot { key: self.key.clone(), uuid: self.uuid }
    }
}

/// The UUID of each metric key reported so far.
pub struct UuidTable {
    pub slots: Vec<UuidSlot>,
}

/// No key occurs twice among the slots.
pub open spec fn unique_keys(s: Seq<UuidSlot>) -> bool {
    forall|i: int, j: int|
        0 <= i < s.len() && 0 <= j < s.len() && i != j ==> #[trigger] s[i].key.key_view() != #[trigger] s[j].key.key_view()
}

/// Some slot holds the key `k`.
pub open spec fn holds_key(s: Seq<UuidSlot>, k: KeyView) -> bool {
    exists|i: int| 0 <= i < s.len() && #[trigger] s[i].key.key_view() == k
}

/// The UUID of each key that the slots hold.
pub open spec fn slots_map(s: Seq<UuidSlot>) -> Map<KeyView, u128> {
    Map::new(
        |k: KeyView| holds_key(s, k),
        |k: KeyView| s[choose|i: int| 0 <= i < s.len() && #[trigger] s[i].key.key_view() == k].uuid,
    )
}

pub proof fn lemma_slots_map_at(s: Seq<UuidSlot>, i: int)
    requires
        unique_keys(s),
        0 <= i < s.len(),
    ensures
        slots_map(s).contains_key(s[i].key.key_view()),
        slots_map(s)[s[i].key.key_view()] == s[i].uuid,
{
    let k = s[i].key.key_view();
    assert(holds_key(s, k));
    let j = choose|j: int| 0 <= j < s.len() && #[trigger] s[j].key.key_view() == k;
    assert(s[j].key.key_view() == k);
    if j != i {
        assert(s[i].key.key_view() != s[j].key.key_view());
    }
}

/// Two slot lists that hold the same keys with the same UUIDs.
proof fn lemma_slots_map_ext(s: Seq<UuidSlot>, m: Map<KeyView, u128>)
    requires
        unique_keys(s),
        forall|i: int| 0 <= i < s.len() ==> #[trigger] m.contains_key(s[i].key.key_view()) && m[s[i].key.key_view()] == s[i].uuid,
        forall|k: KeyView| #[trigger] m.contains_key(k) ==> holds_key(s, k),
    ensures
        slots_map(s) == m,
{
    assert forall|k: KeyView| #[trigger] slots_map(s).contains_key(k) implies m.contains_key(k) && slots_map(s)[k] == m[k] by {
        let i = choose|i: int| 0 <= i < s.len() && #[trigger] s[i].key.key_view() == k;
        lemma_slots_map_at(s, i);
    }
    assert forall|k: KeyView| #[trigger] m.contains_key(k) implies slots_map(s).contains_key(k) by {
    }
    assert(slots_map(s) =~= m);
}

fn opt_str_eq(a: &Option<String>, b: &Option<String>) -> (r: bool)
    ensures
        r == (opt_chars(*a) == opt_chars(*b)),
{
    match (a, b) {
        (Some(x), Some(y)) => str_eq(x.as_str(), y.as_str()),
        (None, None) => true,
        _ => false,
    }
}

fn key_eq(a: &MetricKey, b: &MetricKey) -> (r: bool)
    ensures
        r == (a.key_view() == b.key_view()),
{
    a.scope == b.scope && str_eq(a.name.as_str(), b.name.as_str()) && opt_str_eq(&a.sub, &b.sub)
}

/// Two slots with the same key and UUID.
pub open spec fn same_slot(a: UuidSlot, b: UuidSlot) -> bool {
    a.key.key_view() == b.key.key_view() && a.uuid == b.uuid
}

/// Tests whether `v` occurs in `l`.
pub fn contains_u32(l: &Vec<u32>, v: u32) -> (r: bool)
    ensures
        r == l@.contains(v),
{
    let mut i: usize = 0;
    while i < l.len()
        invariant
            i <= l@.len(),
            forall|j: int| 0 <= j < i ==> l@[j] != v,
        decreases l@.len() - i,
    {
        if l[i] == v {
            return true;
        }
        i = i + 1;
    }
    false
}

/// A list taken from `s` at increasing indices holds distinct keys.
proof fn lemma_sub_slots(s: Seq<UuidSlot>, t: Seq<UuidSlot>, idx: Seq<int>)
    requires
        unique_keys(s),
        idx.len() == t.len(),
        forall|a: int| 0 <= a < idx.len() ==> 0 <= #[trigger] idx[a] < s.len() && same_slot(t[a], s[idx[a]]),
        forall|a: int, b: int| 0 <= a < b < idx.len() ==> #[trigger] idx[a] < #[trigger] idx[b],
    ensures
        unique_keys(t),
{
    assert forall|a: int, b: int| 0 <= a < t.len() && 0 <= b < t.len() && a != b implies #[trigger] t[a].key.key_view() != #[trigger] t[b].key.key_view() by {
        if a < b {
            assert(idx[a] < idx[b]);
        } else {
            assert(idx[b] < idx[a]);
        }
        assert(same_slot(t[a], s[idx[a]]) && same_slot(t[b], s[idx[b]]));
    }
}

impl UuidTable {
    /// The UUID of each key.
    pub open spec fn view(&self) -> Map<KeyView, u128> {
        slots_map(self.slots@)
    }

    /// No key is held twice.
    pub open spec fn wf(&self) -> bool {
        unique_keys(self.slots@)
    }

    /// An empty table.
    pub fn new() -> (r: Self)
        ensures
            r.wf(),
            r.view() == Map::<KeyView, u128>::empty(),
    {
        let r = UuidTable { slots: Vec::new() };
        assert(r.view() =~= Map::<KeyView, u128>::empty());
        r
    }

    /// The index of the slot that holds `key`.
    fn find(&self, key: &MetricKey) -> (r: Option<usize>)
        requires
            self.wf(),
        ensures
            match r {
                Some(i) => i < self.slots@.len() && self.slots@[i as int].key.key_view() == key.key_view(),
                None => !self.view().contains_key(key.key_view()),
            },
    {
        let mut i: usize = 0;
        while i < self.slots.len()
            invariant
                i <= self.slots@.len(),
                forall|j: int| 0 <= j < i ==> #[trigger] self.slots@[j].key.key_view() != key.key_view(),
            decreases self.slots@.len() - i,
        {
            if key_eq(&self.slots[i].key, key) {
                return Some(i);
            }
            i = i + 1;
        }
        None
    }

    /// The UUID of `key`: the one it already has, or a fresh random one that
    /// is recorded for it.
    pub fn get_or_insert(&mut self, key: MetricKey) -> (r: u128)
        requires
            old(self).wf(),
        ensures
            final(self).wf(),
            old(self).view().contains_key(key.key_view()) ==> {
                &&& r == old(self).view()[key.key_view()]
                &&& final(self).view() == old(self).view()
            },
            !old(self).view().contains_key(key.key_view()) ==> {
                &&& is_v4_uuid(r)
                &&& final(self).view() == old(self).view().insert(key.key_view(), r)
            },
    {
        match self.find(&key) {
            Some(i) => {
                proof {
                    lemma_slots_map_at(self.slots@, i as int);
                }
                self.slots[i].uuid
            },
            None => {
                let uuid = new_uuid();
                let ghost old_slots = self.slots@;
                let ghost k = key.key_view();
                self.slots.push(UuidSlot { key, uuid });
                proof {
                    let s = self.slots@;
                    assert forall|i: int, j: int|
                        0 <= i < s.len() && 0 <= j < s.len() && i != j implies #[trigger] s[i].key.key_view() != #[trigger] s[j].key.key_view() by {
                        if i < old_slots.len() && j < old_slots.len() {
                            assert(old_slots[i] == s[i] && old_slots[j] == s[j]);
                        } else if i < old_slots.len() {
                            assert(old_slots[i] == s[i]);
                            if s[i].key.key_view() == k {
                                assert(holds_key(old_slots, k));
                            }
                        } else {
                            assert(old_slots[j] == s[j]);
                            if s[j].key.key_view() == k {
                                assert(holds_key(old_slots, k));
                            }
                        }
                    }
                    let m = slots_map(old_slots).insert(k, uuid);
                    assert forall|i: int| 0 <= i < s.len() implies #[trigger] m.contains_key(s[i].key.key_view()) && m[s[i].key.key_view()] == s[i].uuid by {
                        if i < old_slots.len() {
                            assert(old_slots[i] == s[i]);
                            lemma_slots_map_at(old_slots, i);
                        }
                    }
                    assert forall|kk: KeyView| #[trigger] m.contains_key(kk) implies holds_key(s, kk) by {
                        if kk == k {
                            assert(s[old_slots.len() as int].key.key_view() == k);
                        } else {
                            let i = choose|i: int| 0 <= i < old_slots.len() && #[trigger] old_slots[i].key.key_view() == kk;
                            assert(s[i] == old_slots[i]);
                        }
                    }
                    lemma_slots_map_ext(s, m);
                }
                uuid
            },
        }
    }

    /// Removes `key`, giving back its UUID when it had one.
    pub fn remove(&mut self, key: &MetricKey) -> (r: Option<u128>)
        requires
            old(self).wf(),
        ensures
            final(self).wf(),
            r == (if old(self).view().contains_key(key.key_view()) {
                Some(old(self).view()[key.key_view()])
            } else {
                None::<u128>
            }),
            final(self).view() == old(self).view().remove(key.key_view()),
    {
        match self.find(key) {
            Some(i) => {
                let ghost old_slots = self.slots@;
                let ghost k = key.key_view();
                proof {
                    lemma_slots_map_at(old_slots, i as int);
                }
                let slot = self.slots.remove(i);
                proof {
                    let s = self.slots@;
                    assert forall|a: int| 0 <= a < s.len() implies #[trigger] s[a] == old_slots[if a < i { a } else { a + 1 }] by {
                    }
                    assert forall|a: int, b: int|
                        0 <= a < s.len() && 0 <= b < s.len() && a != b implies #[trigger] s[a].key.key_view() != #[trigger] s[b].key.key_view() by {
                        let a1 = if a < i { a } else { a + 1 };
                        let b1 = if b < i { b } else { b + 1 };
                        assert(s[a] == old_slots[a1] && s[b] == old_slots[b1]);
                    }
                    let m = slots_map(old_slots).remove(k);
                    assert forall|a: int| 0 <= a < s.len() implies #[trigger] m.contains_key(s[a].key.key_view()) && m[s[a].key.key_view()] == s[a].uuid by {
                        let a1 = if a < i { a } else { a + 1 };
                        assert(s[a] == old_slots[a1]);
                        lemma_slots_map_at(old_slots, a1);
                        assert(old_slots[a1].key.key_view() != old_slots[i as int].key.key_view());
                    }
                    assert forall|kk: KeyView| #[trigger] m.contains_key(kk) implies holds_key(s, kk) by {
                        let b = choose|b: int| 0 <= b < old_slots.len() && #[trigger] old_slots[b].key.key_view() == kk;
                        assert(b != i);
                        let a = if b < i { b } else { b - 1 };
                        assert(s[a] == old_slots[b]);
                    }
                    lemma_slots_map_ext(s, m);
                }
                Some(slot.uuid)
            },
            None => {
                assert(self.view() =~= self.view().remove(key.key_view()));
                None
            },
        }
    }

    /// Removes every key whose scope is in `scopes` (when `listed`) or not
    /// in `scopes` (when `!listed`), giving back the removed slots.
    fn remove_where(&mut self, scopes: &Vec<u32>, listed: bool) -> (removed: Vec<UuidSlot>)
        requires
            old(self).wf(),
        ensures
            final(self).wf(),
            unique_keys(removed@),
            final(self).view() == old(self).view().restrict(
                Set::new(|k: KeyView| scopes@.contains(k.0) != listed),
            ),
            slots_map(removed@) == old(self).view().restrict(
                Set::new(|k: KeyView| scopes@.contains(k.0) == listed),
            ),
    {
        let ghost old_slots = self.slots@;
        let mut old_vec: Vec<UuidSlot> = Vec::new();
        std::mem::swap(&mut old_vec, &mut self.slots);
        let mut kept: Vec<UuidSlot> = Vec::new();
        let mut removed: Vec<UuidSlot> = Vec::new();
        let ghost mut kidx: Seq<int> = Seq::empty();
        let ghost mut ridx: Seq<int> = Seq::empty();
        let mut i: usize = 0;
        while i < old_vec.len()
            invariant
                old_vec@ == old_slots,
                unique_keys(old_slots),
                i <= old_slots.len(),
                kidx.len() == kept@.len(),
                ridx.len() == removed@.len(),
                forall|a: int| 0 <= a < kidx.len() ==> 0 <= #[trigger] kidx[a] < i && same_slot(kept@[a], old_slots[kidx[a]])
                    && scopes@.contains(old_slots[kidx[a]].key.scope) != listed,
                forall|a: int| 0 <= a < ridx.len() ==> 0 <= #[trigger] ridx[a] < i && same_slot(removed@[a], old_slots[ridx[a]])
                    && scopes@.contains(old_slots[ridx[a]].key.scope) == listed,
                forall|a: int, b: int| 0 <= a < b < kidx.len() ==> #[trigger] kidx[a] < #[trigger] kidx[b],
                forall|a: int, b: int| 0 <= a < b < ridx.len() ==> #[trigger] ridx[a] < #[trigger] ridx[b],
                forall|b: int| 0 <= b < i ==> (scopes@.contains(#[trigger] old_slots[b].key.scope) != listed ==> exists|a: int| 0 <= a < kidx.len() && kidx[a] == b),
                forall|b: int| 0 <= b < i ==> (scopes@.contains(#[trigger] old_slots[b].key.scope) == listed ==> exists|a: int| 0 <= a < ridx.len() && ridx[a] == b),
            decreases old_slots.len() - i,
        {
            let slot = old_vec[i].clone();
            let in_list = contains_u32(scopes, slot.key.scope);
            let ghost k0 = kidx;
            let ghost r0 = ridx;
            if in_list == listed {
                proof {
                    ridx = ridx.push(i as int);
                }
                removed.push(slot);
            } else {
                proof {
                    kidx = kidx.push(i as int);
                }
                kept.push(slot);
            }
            proof {
                assert forall|b: int| 0 <= b < i + 1 implies (scopes@.contains(#[trigger] old_slots[b].key.scope) != listed ==> exists|a: int| 0 <= a < kidx.len() && kidx[a] == b) by {
                    if scopes@.contains(old_slots[b].key.scope) != listed {
                        if b == i {
                            assert(kidx[kidx.len() - 1] == b);
                        } else {
                            let a = choose|a: int| 0 <= a < k0.len() && k0[a] == b;
                            assert(kidx[a] == b);
                        }
                    }
                }
                assert forall|b: int| 0 <= b < i + 1 implies (scopes@.contains(#[trigger] old_slots[b].key.scope) == listed ==> exists|a: int| 0 <= a < ridx.len() && ridx[a] == b) by {
                    if scopes@.contains(old_slots[b].key.scope) == listed {
                        if b == i {
                            assert(ridx[ridx.len() - 1] == b);
                        } else {
                            let a = choose|a: int| 0 <= a < r0.len() && r0[a] == b;
                            assert(ridx[a] == b);
                        }
                    }
                }
            }
            i = i + 1;
        }
        proof {
            lemma_sub_slots(old_slots, kept@, kidx);
            lemma_sub_slots(old_slots, removed@, ridx);
            let keep_set = Set::new(|k: KeyView| scopes@.contains(k.0) != listed);
            let rm_set = Set::new(|k: KeyView| scopes@.contains(k.0) == listed);
            let mk = slots_map(old_slots).restrict(keep_set);
            let mr = slots_map(old_slots).restrict(rm_set);
            assert forall|a: int| 0 <= a < kept@.len() implies #[trigger] mk.contains_key(kept@[a].key.key_view()) && mk[kept@[a].key.key_view()] == kept@[a].uuid by {
                lemma_slots_map_at(old_slots, kidx[a]);
            }
            assert forall|k: KeyView| #[trigger] mk.contains_key(k) implies holds_key(kept@, k) by {
                let b = choose|b: int| 0 <= b < old_slots.len() && #[trigger] old_slots[b].key.key_view() == k;
                assert(scopes@.contains(old_slots[b].key.scope) != listed);
                let a = choose|a: int| 0 <= a < kidx.len() && kidx[a] == b;
                assert(kept@[a].key.key_view() == k);
            }
            lemma_slots_map_ext(kept@, mk);
            assert forall|a: int| 0 <= a < removed@.len() implies #[trigger] mr.contains_key(removed@[a].key.key_view()) && mr[removed@[a].key.key_view()] == removed@[a].uuid by {
                lemma_slots_map_at(old_slots, ridx[a]);
            }
            assert forall|k: KeyView| #[trigger] mr.contains_key(k) implies holds_key(removed@, k) by {
                let b = choose|b: int| 0 <= b < old_slots.len() && #[trigger] old_slots[b].key.key_view() == k;
                assert(scopes@.contains(old_slots[b].key.scope) == listed);
                let a = choose|a: int| 0 <= a < ridx.len() && ridx[a] == b;
                assert(removed@[a].key.key_view() == k);
            }
            lemma_slots_map_ext(removed@, mr);
        }
        self.slots = kept;
        removed
    }

    /// Removes every key of `scope`, giving back the removed slots.
    pub fn remove_scope(&mut self, scope: u32) -> (removed: Vec<UuidSlot>)
        requires
            old(self).wf(),
        ensures
            final(self).wf(),
            unique_keys(removed@),
            final(self).view() == old(self).view().restrict(Set::new(|k: KeyView| k.0 != scope)),
            slots_map(removed@) == old(self).view().restrict(Set::new(|k: KeyView| k.0 == scope)),
    {
        let mut scopes = Vec::new();
        scopes.push(scope);
        let removed = self.remove_where(&scopes, true);
        assert(Set::new(|k: KeyView| scopes@.contains(k.0) != true) =~= Set::new(|k: KeyView| k.0 != scope)) by {
            assert forall|k: KeyView| scopes@.contains(k.0) <==> k.0 == scope by {
                if k.0 == scope {
                    assert(scopes@[0] == scope);
                }
            }
        }
        assert(Set::new(|k: KeyView| scopes@.contains(k.0) == true) =~= Set::new(|k: KeyView| k.0 == scope)) by {
            assert forall|k: KeyView| scopes@.contains(k.0) <==> k.0 == scope by {
                if k.0 == scope {
                    assert(scopes@[0] == scope);
                }
            }
        }
        removed
    }

    /// Removes every key whose scope is not in `live`, giving back the
    /// removed slots.
    pub fn remove_scopes_except(&mut self, live: &Vec<u32>) -> (removed: Vec<UuidSlot>)
        requires
            old(self).wf(),
        ensures
            final(self).wf(),
            unique_keys(removed@),
            final(self).view() == old(self).view().restrict(Set::new(|k: KeyView| live@.contains(k.0))),
            slots_map(removed@) == old(self).view().restrict(Set::new(|k: KeyView| !live@.contains(k.0))),
    {
        let removed = self.remove_where(live, false);
        assert(Set::new(|k: KeyView| live@.contains(k.0) != false) =~= Set::new(|k: KeyView| live@.contains(k.0)));
        assert(Set::new(|k: KeyView| live@.contains(k.0) == false) =~= Set::new(|k: KeyView| !live@.contains(k.0)));
        removed
    }
}

/// A metric keeps its UUID while it is in the table: asking for the UUID of
/// any key, known or new, leaves every known key with the UUID it had.
pub proof fn law_uuid_kept(m: Map<KeyView, u128>, known: KeyView, asked: KeyView, fresh: u128)
    requires
        m.contains_key(known),
    ensures
        ({
            let after = if m.contains_key(asked) { m } else { m.insert(asked, fresh) };
            after.contains_key(known) && after[known] == m[known]
        }),
{
}

/// Removing the keys of a scope leaves none of them, and every key of another
/// scope with the UUID it had.
pub proof fn law_scope_removed(m: Map<KeyView, u128>, scope: u32, k: KeyView)
    ensures
        ({
            let after = m.restrict(Set::new(|x: KeyView| x.0 != scope));
            &&& k.0 == scope ==> !after.contains_key(k)
            &&& k.0 != scope && m.contains_key(k) ==> after.contains_key(k) && after[k] == m[k]
        }),
{
}

/// A key that was removed has no UUID any more, so asking for it again records
/// the fresh UUID it is then given.
pub proof fn law_removed_key_renewed(m: Map<KeyView, u128>, k: KeyView, fresh: u128)
    ensures
        ({
            let removed = m.remove(k);
            let after = if removed.contains_key(k) { removed } else { removed.insert(k, fresh) };
            !removed.contains_key(k) && after[k] == fresh
        }),
{
}

/// Every UUID of the table is a random version-4 UUID.
pub open spec fn all_v4(m: Map<KeyView, u128>) -> bool {
    forall|k: KeyView| #[trigger] m.contains_key(k) ==> is_v4_uuid(m[k])
}

/// The UUIDs that a table hands out are random version-4 UUIDs: an empty
/// table has none, and asking for a key (with a fresh version-4 UUID for a
/// new one), removing a key or keeping only some keys keeps the property.
pub proof fn law_uuids_stay_v4(m: Map<KeyView, u128>, k: KeyView, fresh: u128, keep: Set<KeyView>)
    requires
        all_v4(m),
        is_v4_uuid(fresh),
    ensures
        all_v4(Map::<KeyView, u128>::empty()),
        all_v4(if m.contains_key(k) { m } else { m.insert(k, fresh) }),
        all_v4(m.remove(k)),
        all_v4(m.restrict(keep)),
{
}

} // verus!
