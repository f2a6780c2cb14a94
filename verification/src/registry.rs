//! The client registry: the operator's record of every agent that has
//! registered, keyed by client identifier.  Re-registration replaces the
//! stored snapshot in place; entries are never evicted.  The registry is
//! modelled as a map from identifier characters to system-info models.

use vstd::prelude::*;

use crate::chars::str_eq;
use crate::{SystemInfo, SystemInfoV};

verus! {

/// The map described by a sequence of entries, later entries winning.
pub open spec fn map_of(s: Seq<(String, SystemInfo)>) -> Map<Seq<char>, SystemInfoV>
    decreases s.len(),
{
    if s.len() == 0 {
        Map::empty()
    } else {
        map_of(s.drop_last()).insert(s.last().0@, s.last().1@)
    }
}

/// An identifier is in the map exactly when some entry carries it.
proof fn lemma_map_of_contains(s: Seq<(String, SystemInfo)>, k: Seq<char>)
    ensures
        map_of(s).dom().contains(k) <==> exists|i: int| 0 <= i < s.len() && s[i].0@ == k,
    decreases s.len(),
{
    if s.len() > 0 {
        lemma_map_of_contains(s.drop_last(), k);
        if s.last().0@ == k {
            assert(s[s.len() - 1].0@ == k);
        } else if map_of(s).dom().contains(k) {
            let i = choose|i: int| 0 <= i < s.drop_last().len() && s.drop_last()[i].0@ == k;
            assert(s[i].0@ == k);
        } else if exists|i: int| 0 <= i < s.len() && s[i].0@ == k {
            let i = choose|i: int| 0 <= i < s.len() && s[i].0@ == k;
            assert(i < s.len() - 1);
            assert(s.drop_last()[i].0@ == k);
        }
    }
}

spec fn unique_keys(s: Seq<(String, SystemInfo)>) -> bool {
    forall|i: int, j: int| 0 <= i < j < s.len() ==> s[i].0@ != s[j].0@
}

/// With unique keys, the entry carrying an identifier gives its map value.
proof fn lemma_map_of_get(s: Seq<(String, SystemInfo)>, i: int)
    requires
        unique_keys(s),
        0 <= i < s.len(),
    ensures
        map_of(s).dom().contains(s[i].0@),
        map_of(s)[s[i].0@] == s[i].1@,
    decreases s.len(),
{
    lemma_map_of_contains(s, s[i].0@);
    if i == s.len() - 1 {
    } else {
        assert(s.drop_last()[i] == s[i]);
        lemma_map_of_get(s.drop_last(), i);
        assert(s.last().0@ != s[i].0@);
    }
}

/// Updating the entry that carries an identifier updates the map at it.
proof fn lemma_map_of_update(s: Seq<(String, SystemInfo)>, i: int, e: (String, SystemInfo))
    requires
        unique_keys(s),
        0 <= i < s.len(),
        e.0@ == s[i].0@,
    ensures
        map_of(s.update(i, e)) == map_of(s).insert(e.0@, e.1@),
    decreases s.len(),
{
    let s2 = s.update(i, e);
    if i == s.len() - 1 {
        assert(s2.drop_last() =~= s.drop_last());
        assert(s2.last() == e);
        assert(map_of(s.drop_last()).insert(s.last().0@, s.last().1@).insert(e.0@, e.1@)
            =~= map_of(s.drop_last()).insert(e.0@, e.1@));
    } else {
        assert(s2.drop_last() =~= s.drop_last().update(i, e));
        assert(s2.last() == s.last());
        assert(s.drop_last()[i] == s[i]);
        lemma_map_of_update(s.drop_last(), i, e);
        assert(s.last().0@ != e.0@);
        assert(map_of(s.drop_last()).insert(e.0@, e.1@).insert(s.last().0@, s.last().1@)
            =~= map_of(s.drop_last()).insert(s.last().0@, s.last().1@).insert(e.0@, e.1@));
    }
}

/// The operator's registry of connected clients.
pub struct ClientRegistry {
    entries: Vec<(String, SystemInfo)>,
}

impl View for ClientRegistry {
    type V = Map<Seq<char>, SystemInfoV>;

    closed spec fn view(&self) -> Map<Seq<char>, SystemInfoV> {
        map_of(self.entries@)
    }
}

impl ClientRegistry {
    /// The registered entries, in registration order.
    pub closed spec fn entries_seq(&self) -> Seq<(String, SystemInfo)> {
        self.entries@
    }

    /// Each identifier appears in at most one entry.
    pub closed spec fn wf(&self) -> bool {
        unique_keys(self.entries@)
    }

    /// An empty registry.
    pub fn new() -> (r: ClientRegistry)
        ensures
            r.wf(),
            r@ == Map::<Seq<char>, SystemInfoV>::empty(),
            r.entries_seq().len() == 0,
    {
        ClientRegistry { entries: Vec::new() }
    }

    /// How many clients are registered.
    pub fn len(&self) -> (r: usize)
        ensures
            r == self.entries_seq().len(),
    {
        self.entries.len()
    }

    /// Inserts or replaces the entry for `client_id`: a re-registration
    /// overwrites the stored snapshot and never duplicates the entry.
    pub fn upsert(&mut self, client_id: String, info: SystemInfo)
        requires
            old(self).wf(),
        ensures
            final(self).wf(),
            final(self)@ == old(self)@.insert(client_id@, info@),
            old(self)@.dom().contains(client_id@) ==> final(self).entries_seq().len() == old(
                self,
            ).entries_seq().len(),
            !old(self)@.dom().contains(client_id@) ==> final(self).entries_seq().len() == old(
                self,
            ).entries_seq().len() + 1,
    {
        let n = self.entries.len();
        let mut i: usize = 0;
        while i < n
            invariant
                n == self.entries@.len(),
                i <= n,
                self.entries@ == old(self).entries@,
                unique_keys(self.entries@),
                forall|j: int| 0 <= j < i ==> self.entries@[j].0@ != client_id@,
            decreases n - i,
        {
            if str_eq(self.entries[i].0.as_str(), client_id.as_str()) {
                proof {
                    let s0 = self.entries@;
                    let s2 = s0.update(i as int, (client_id, info));
                    lemma_map_of_update(s0, i as int, (client_id, info));
                    lemma_map_of_contains(s0, client_id@);
                    assert(unique_keys(s2)) by {
                        assert forall|a: int, b: int|
                            0 <= a < b < s2.len() implies s2[a].0@ != s2[b].0@ by {
                            if a == i {
                                assert(s0[a].0@ != s0[b].0@);
                            } else if b == i {
                                assert(s0[a].0@ != s0[b].0@);
                            } else {
                                assert(s0[a].0@ != s0[b].0@);
                            }
                        }
                    }
                }
                self.entries.set(i, (client_id, info));
                return ;
            }
            i = i + 1;
        }
        proof {
            let s0 = self.entries@;
            let s2 = s0.push((client_id, info));
            lemma_map_of_contains(s0, client_id@);
            assert(!old(self)@.dom().contains(client_id@));
            assert(s2.drop_last() =~= s0);
            assert(s2.last() == (client_id, info));
            assert(unique_keys(s2)) by {
                assert forall|a: int, b: int|
                    0 <= a < b < s2.len() implies s2[a].0@ != s2[b].0@ by {
                    if b == s2.len() - 1 {
                        assert(s2[a] == s0[a]);
                    } else {
                        assert(s0[a].0@ != s0[b].0@);
                    }
                }
            }
        }
        self.entries.push((client_id, info));
    }

    /// The stored snapshot for `client_id`, if it is registered.
    pub fn get(&self, client_id: &str) -> (r: Option<&SystemInfo>)
        requires
            self.wf(),
        ensures
            match r {
                Some(info) => self@.dom().contains(client_id@) && info@ == self@[client_id@],
                None => !self@.dom().contains(client_id@),
            },
    {
        let n = self.entries.len();
        let mut i: usize = 0;
        while i < n
            invariant
                self.wf(),
                n == self.entries@.len(),
                i <= n,
                forall|j: int| 0 <= j < i ==> self.entries@[j].0@ != client_id@,
            decreases n - i,
        {
            if str_eq(self.entries[i].0.as_str(), client_id) {
                proof {
                    lemma_map_of_get(self.entries@, i as int);
                }
                return Some(&self.entries[i].1);
            }
            i = i + 1;
        }
        proof {
            lemma_map_of_contains(self.entries@, client_id@);
        }
        None
    }

    /// Whether `client_id` is registered.
    pub fn contains(&self, client_id: &str) -> (r: bool)
        requires
            self.wf(),
        ensures
            r == self@.dom().contains(client_id@),
    {
        match self.get(client_id) {
            Some(_) => true,
            None => false,
        }
    }

    /// All entries, in registration order, for listing.
    pub fn snapshot(&self) -> (r: &Vec<(String, SystemInfo)>)
        ensures
            r@ == self.entries_seq(),
    {
        &self.entries
    }
}

/// Registering the same identifier twice replaces the entry: the registry
/// afterwards is the one that holds only the second snapshot under that
/// identifier.
pub proof fn lemma_reregistration_replaces(
    m: Map<Seq<char>, SystemInfoV>,
    id: Seq<char>,
    first: SystemInfoV,
    second: SystemInfoV,
)
    ensures
        m.insert(id, first).insert(id, second) == m.insert(id, second),
        m.insert(id, first).insert(id, second)[id] == second,
{
    assert(m.insert(id, first).insert(id, second) =~= m.insert(id, second));
}

} // verus!
