//! The listeners of a host, one for each tenant.

use vstd::prelude::*;
use crate::text::same_text;

verus! {

/// No tenant stands twice among the entries.
pub open spec fn tenants_distinct<T>(s: Seq<(Seq<char>, T)>) -> bool {
    forall|i: int, j: int| 0 <= i < j < s.len() ==> (#[trigger] s[i]).0 != (#[trigger] s[j]).0
}

/// Where the tenant stands among the entries; their number if it does not.
pub open spec fn place_of<T>(s: Seq<(Seq<char>, T)>, tenant: Seq<char>) -> int
    decreases s.len(),
{
    if s.len() == 0 {
        0
    } else if s.first().0 == tenant {
        0
    } else {
        1 + place_of(s.drop_first(), tenant)
    }
}

/// The entries as a map from tenant to listener.
pub open spec fn entries_map<T>(s: Seq<(Seq<char>, T)>) -> Map<Seq<char>, T>
    decreases s.len(),
{
    if s.len() == 0 {
        Map::empty()
    } else {
        entries_map(s.drop_last()).insert(s.last().0, s.last().1)
    }
}

/// The listeners of the entries, in order.
pub open spec fn listeners<T>(s: Seq<(Seq<char>, T)>) -> Seq<T> {
    Seq::new(s.len(), |i: int| s[i].1)
}

/// The tenant stands at `i` if it stands there and nowhere before; if it
/// stands nowhere, `i` is the number of entries.
pub proof fn lemma_place_of<T>(s: Seq<(Seq<char>, T)>, tenant: Seq<char>, i: int)
    requires
        0 <= i <= s.len(),
        forall|k: int| 0 <= k < i ==> (#[trigger] s[k]).0 != tenant,
        i < s.len() ==> s[i].0 == tenant,
    ensures
        place_of(s, tenant) == i,
    decreases s.len(),
{
    if i > 0 {
        let t = s.drop_first();
        assert(s[0].0 != tenant);
        assert forall|k: int| 0 <= k < i - 1 implies (#[trigger] t[k]).0 != tenant by {
            assert(t[k] == s[k + 1]);
        }
        if i < s.len() {
            assert(t[i - 1] == s[i]);
        }
        lemma_place_of(t, tenant, i - 1);
    }
}

/// The tenants of the map are those of the entries.
pub proof fn lemma_map_tenants<T>(s: Seq<(Seq<char>, T)>, tenant: Seq<char>)
    ensures
        entries_map(s).dom().contains(tenant) <==> exists|i: int|
            0 <= i < s.len() && (#[trigger] s[i]).0 == tenant,
    decreases s.len(),
{
    if s.len() > 0 {
        let t = s.drop_last();
        lemma_map_tenants(t, tenant);
        if entries_map(s).dom().contains(tenant) {
            if s.last().0 == tenant {
                assert(s[s.len() - 1].0 == tenant);
            } else {
                let i = choose|i: int| 0 <= i < t.len() && (#[trigger] t[i]).0 == tenant;
                assert(s[i] == t[i]);
            }
        }
        if exists|i: int| 0 <= i < s.len() && (#[trigger] s[i]).0 == tenant {
            let i = choose|i: int| 0 <= i < s.len() && (#[trigger] s[i]).0 == tenant;
            if i < t.len() {
                assert(t[i] == s[i]);
            }
        }
    }
}

/// Where no tenant stands twice, the map gives each tenant its listener.
pub proof fn lemma_map_listener<T>(s: Seq<(Seq<char>, T)>, i: int)
    requires
        tenants_distinct(s),
        0 <= i < s.len(),
    ensures
        entries_map(s).dom().contains(s[i].0),
        entries_map(s)[s[i].0] == s[i].1,
    decreases s.len(),
{
    let t = s.drop_last();
    if i < s.len() - 1 {
        assert(s[i].0 != s[s.len() - 1].0);
        assert(t[i] == s[i]);
        assert forall|a: int, b: int| 0 <= a < b < t.len() implies (#[trigger] t[a]).0 != (
        #[trigger] t[b]).0 by {
            assert(t[a] == s[a] && t[b] == s[b]);
        }
        lemma_map_listener(t, i);
    }
}

/// Where no tenant stands twice, taking an entry out takes its tenant out
/// of the map and leaves the rest.
pub proof fn lemma_map_without<T>(s: Seq<(Seq<char>, T)>, i: int)
    requires
        tenants_distinct(s),
        0 <= i < s.len(),
    ensures
        tenants_distinct(s.remove(i)),
        entries_map(s.remove(i)) == entries_map(s).remove(s[i].0),
    decreases s.len(),
{
    let t = s.drop_last();
    let r = s.remove(i);
    assert forall|a: int, b: int| 0 <= a < b < r.len() implies (#[trigger] r[a]).0 != (
    #[trigger] r[b]).0 by {
        let a2 = if a < i {
            a
        } else {
            a + 1
        };
        let b2 = if b < i {
            b
        } else {
            b + 1
        };
        assert(r[a] == s[a2] && r[b] == s[b2]);
    }
    assert forall|a: int, b: int| 0 <= a < b < t.len() implies (#[trigger] t[a]).0 != (
    #[trigger] t[b]).0 by {
        assert(t[a] == s[a] && t[b] == s[b]);
    }
    if i == s.len() - 1 {
        assert(r =~= t);
        lemma_map_tenants(t, s[i].0);
        if entries_map(t).dom().contains(s[i].0) {
            let k = choose|k: int| 0 <= k < t.len() && (#[trigger] t[k]).0 == s[i].0;
            assert(t[k] == s[k]);
        }
        assert(entries_map(t) =~= entries_map(s).remove(s[i].0));
    } else {
        lemma_map_without(t, i);
        assert(t[i] == s[i]);
        assert(r.drop_last() =~= t.remove(i));
        assert(r.last() == s.last());
        assert(s[i].0 != s[s.len() - 1].0);
        assert(entries_map(r) =~= entries_map(s).remove(s[i].0));
    }
}

/// The listeners of a host: for each tenant at most one, in the order in
/// which they were registered.
pub struct Registry<T> {
    tenants: Vec<(String, T)>,
}

impl<T> Registry<T> {
    /// The tenants with their listeners, in the order of their registration.
    pub closed spec fn entries(&self) -> Seq<(Seq<char>, T)> {
        Seq::new(self.tenants@.len(), |i: int| (self.tenants@[i].0@, self.tenants@[i].1))
    }

    /// No tenant has two listeners.
    pub open spec fn wf(&self) -> bool {
        tenants_distinct(self.entries())
    }

    /// The registry as a map from tenant to listener.
    pub open spec fn view(&self) -> Map<Seq<char>, T> {
        entries_map(self.entries())
    }

    /// A registry without listeners.
    pub fn new() -> (r: Self)
        ensures
            r.wf(),
            r.entries().len() == 0,
            r@ == Map::<Seq<char>, T>::empty(),
    {
        let r = Registry { tenants: Vec::new() };
        assert(r.entries() =~= Seq::empty());
        r
    }

    /// The number of listeners.
    pub fn len(&self) -> (n: usize)
        ensures
            n == self.entries().len(),
    {
        self.tenants.len()
    }

    fn find(&self, tenant: &str) -> (found: Option<usize>)
        ensures
            match found {
                Some(i) => i == place_of(self.entries(), tenant@) && i < self.entries().len()
                    && self.entries()[i as int].0 == tenant@,
                None => place_of(self.entries(), tenant@) == self.entries().len() && forall|
                    k: int,
                |
                    0 <= k < self.entries().len() ==> (#[trigger] self.entries()[k]).0 != tenant@,
            },
    {
        let mut i: usize = 0;
        while i < self.tenants.len()
            invariant
                i <= self.tenants.len(),
                forall|k: int| 0 <= k < i ==> (#[trigger] self.entries()[k]).0 != tenant@,
            decreases self.tenants.len() - i,
        {
            if same_text(self.tenants[i].0.as_str(), tenant) {
                proof {
                    lemma_place_of(self.entries(), tenant@, i as int);
                }
                return Some(i);
            }
            i = i + 1;
        }
        proof {
            lemma_place_of(self.entries(), tenant@, i as int);
        }
        None
    }

    /// Whether the tenant has a listener.
    pub fn contains(&self, tenant: &str) -> (r: bool)
        ensures
            r == self@.dom().contains(tenant@),
            r == (place_of(self.entries(), tenant@) < self.entries().len()),
    {
        proof {
            lemma_map_tenants(self.entries(), tenant@);
        }
        match self.find(tenant) {
            Some(_) => true,
            None => false,
        }
    }

    /// Registers a listener for a tenant, at the end. A listener that the
    /// tenant had leaves the registry and is handed back, so that it can be
    /// shut down.
    pub fn add(&mut self, tenant: String, bridge: T) -> (superseded: Option<T>)
        requires
            old(self).wf(),
        ensures
            final(self).wf(),
            final(self)@ == old(self)@.insert(tenant@, bridge),
            superseded == if old(self)@.dom().contains(tenant@) {
                Some(old(self)@[tenant@])
            } else {
                None
            },
            final(self).entries() == if old(self)@.dom().contains(tenant@) {
                old(self).entries().remove(place_of(old(self).entries(), tenant@)).push(
                    (tenant@, bridge),
                )
            } else {
                old(self).entries().push((tenant@, bridge))
            },
    {
        let superseded: Option<T> = self.remove(tenant.as_str());
        let ghost before = self.entries();
        proof {
            lemma_map_tenants(before, tenant@);
        }
        self.tenants.push((tenant, bridge));
        proof {
            assert(self.entries() =~= before.push((tenant@, bridge)));
            assert(self.entries().drop_last() =~= before);
            assert forall|a: int, b: int| 0 <= a < b < self.entries().len() implies (
            #[trigger] self.entries()[a]).0 != (#[trigger] self.entries()[b]).0 by {
                if b < before.len() {
                    assert(before[a].0 != before[b].0);
                } else {
                    assert(self.entries()[a] == before[a]);
                }
            }
            assert(self@ =~= old(self)@.insert(tenant@, bridge));
        }
        superseded
    }

    /// Takes the listener of a tenant out of the registry and hands it
    /// back, so that it can be shut down. Without such a listener nothing
    /// changes.
    pub fn remove(&mut self, tenant: &str) -> (removed: Option<T>)
        requires
            old(self).wf(),
        ensures
            final(self).wf(),
            final(self)@ == old(self)@.remove(tenant@),
            removed == if old(self)@.dom().contains(tenant@) {
                Some(old(self)@[tenant@])
            } else {
                None
            },
            final(self).entries() == if old(self)@.dom().contains(tenant@) {
                old(self).entries().remove(place_of(old(self).entries(), tenant@))
            } else {
                old(self).entries()
            },
    {
        let ghost before = self.entries();
        proof {
            lemma_map_tenants(before, tenant@);
        }
        match self.find(tenant) {
            Some(i) => {
                proof {
                    lemma_map_without(before, i as int);
                    lemma_map_listener(before, i as int);
                }
                let (_, bridge) = self.tenants.remove(i);
                assert(self.entries() =~= before.remove(i as int));
                Some(bridge)
            },
            None => {
                assert(self@ =~= self@.remove(tenant@));
                None
            },
        }
    }

    /// Empties the registry and hands back every listener, in the order of
    /// their registration, so that each can be shut down.
    pub fn shutdown_all(&mut self) -> (all: Vec<T>)
        ensures
            final(self).wf(),
            final(self).entries().len() == 0,
            final(self)@ == Map::<Seq<char>, T>::empty(),
            all@ == listeners(old(self).entries()),
    {
        let ghost before = self.entries();
        let mut all: Vec<T> = Vec::new();
        while self.tenants.len() > 0
            invariant
                all@.len() + self.entries().len() == before.len(),
                forall|k: int| 0 <= k < all@.len() ==> all@[k] == before[k].1,
                forall|k: int|
                    0 <= k < self.entries().len() ==> self.entries()[k] == before[all@.len() + k],
            decreases self.tenants.len(),
        {
            let ghost rest = self.entries();
            let ghost done = all@.len();
            let (_, bridge) = self.tenants.remove(0);
            all.push(bridge);
            assert(self.entries() =~= rest.remove(0));
            assert(rest[0] == before[done as int]);
            assert forall|k: int| 0 <= k < self.entries().len() implies self.entries()[k]
                == before[all@.len() + k] by {
                assert(self.entries()[k] == rest[k + 1]);
            }
        }
        assert(self.entries() =~= Seq::empty());
        assert(all@ =~= listeners(before));
        all
    }
}

} // verus!
