//! The Seen-Item Store: an in-memory set of announced items keyed by id,
//! with at most one record per id. A record pairs an id with the freshness
//! marker the item carried when it was announced. The store is viewed as a
//! map from id to freshness marker; durable persistence (reading and
//! writing the record list) happens outside this crate through
//! `to_records` and `from_records`.
use vstd::prelude::*;
use crate::SeenItem;
use crate::item::ApiItem;

verus! {

/// The map a record list stands for: each id maps to the freshness marker
/// of the last record carrying that id.
pub open spec fn map_of(rs: Seq<SeenItem>) -> Map<Seq<char>, Seq<char>>
    decreases rs.len(),
{
    if rs.len() == 0 {
        Map::empty()
    } else {
        map_of(rs.drop_last()).insert(rs.last().id@, rs.last().bumped_at@)
    }
}

/// No two records carry the same id.
pub open spec fn ids_unique(rs: Seq<SeenItem>) -> bool {
    forall|i: int, j: int| 0 <= i < j < rs.len() ==> rs[i].id@ != rs[j].id@
}

/// The keys of `map_of` are exactly the ids of the records.
pub proof fn lemma_map_of_keys(rs: Seq<SeenItem>)
    ensures
        forall|k: Seq<char>| #[trigger] map_of(rs).contains_key(k)
            <==> exists|i: int| 0 <= i < rs.len() && rs[i].id@ == k,
    decreases rs.len(),
{
    if rs.len() > 0 {
        let dl = rs.drop_last();
        lemma_map_of_keys(dl);
        assert forall|k: Seq<char>| #[trigger] map_of(rs).contains_key(k)
            implies exists|i: int| 0 <= i < rs.len() && rs[i].id@ == k by {
            if k == rs.last().id@ {
                assert(rs[rs.len() - 1].id@ == k);
            } else {
                assert(map_of(rs) == map_of(dl).insert(rs.last().id@, rs.last().bumped_at@));
                assert(map_of(dl).contains_key(k));
                let i = choose|i: int| 0 <= i < dl.len() && dl[i].id@ == k;
                assert(dl[i] == rs[i]);
                assert(rs[i].id@ == k);
            }
        }
        assert forall|k: Seq<char>| (exists|i: int| 0 <= i < rs.len() && rs[i].id@ == k)
            implies #[trigger] map_of(rs).contains_key(k) by {
            let i = choose|i: int| 0 <= i < rs.len() && rs[i].id@ == k;
            if i < rs.len() - 1 {
                assert(dl[i].id@ == k);
                assert(map_of(dl).contains_key(k));
            }
        }
    }
}

/// With unique ids, each record's id maps to that record's marker.
pub proof fn lemma_map_of_vals(rs: Seq<SeenItem>)
    requires
        ids_unique(rs),
    ensures
        forall|i: int| 0 <= i < rs.len()
            ==> map_of(rs)[(#[trigger] rs[i]).id@] == rs[i].bumped_at@,
    decreases rs.len(),
{
    if rs.len() > 0 {
        let dl = rs.drop_last();
        assert(ids_unique(dl));
        lemma_map_of_vals(dl);
        assert forall|i: int| 0 <= i < rs.len()
            implies map_of(rs)[(rs[i]).id@] == rs[i].bumped_at@ by {
            if i < rs.len() - 1 {
                assert(rs[i].id@ != rs[rs.len() - 1].id@);
                assert(map_of(dl)[(dl[i]).id@] == dl[i].bumped_at@);
            }
        }
    }
}

/// Appending a record makes its id map to its marker.
pub proof fn lemma_map_of_push(rs: Seq<SeenItem>, r: SeenItem)
    ensures
        map_of(rs.push(r)) == map_of(rs).insert(r.id@, r.bumped_at@),
{
    assert(rs.push(r).drop_last() =~= rs);
    assert(rs.push(r).last() == r);
}

/// Removing the one record with a given id removes that key from the map.
pub proof fn lemma_map_of_remove(rs: Seq<SeenItem>, i: int)
    requires
        ids_unique(rs),
        0 <= i < rs.len(),
    ensures
        ids_unique(rs.remove(i)),
        map_of(rs.remove(i)) == map_of(rs).remove(rs[i].id@),
{
    let rs2 = rs.remove(i);
    rs.remove_ensures(i);
    assert forall|a: int, b: int| 0 <= a < b < rs2.len()
        implies rs2[a].id@ != rs2[b].id@ by {
        let a0: int = if a < i { a } else { a + 1 };
        let b0: int = if b < i { b } else { b + 1 };
        assert(rs2[a] == rs[a0]);
        assert(rs2[b] == rs[b0]);
    }
    lemma_map_of_keys(rs);
    lemma_map_of_vals(rs);
    lemma_map_of_keys(rs2);
    lemma_map_of_vals(rs2);
    let m1 = map_of(rs2);
    let m2 = map_of(rs).remove(rs[i].id@);
    assert forall|k: Seq<char>| #[trigger] m1.contains_key(k)
        implies m2.contains_key(k) && m1[k] == m2[k] by {
        let j = choose|j: int| 0 <= j < rs2.len() && rs2[j].id@ == k;
        let j0: int = if j < i { j } else { j + 1 };
        assert(rs2[j] == rs[j0]);
        assert(rs[j0].id@ == k);
        assert(k != rs[i].id@);
        assert(map_of(rs).contains_key(k));
        assert(m1[k] == rs2[j].bumped_at@);
        assert(map_of(rs)[k] == rs[j0].bumped_at@);
    }
    assert forall|k: Seq<char>| #[trigger] m2.contains_key(k)
        implies m1.contains_key(k) by {
        let j = choose|j: int| 0 <= j < rs.len() && rs[j].id@ == k;
        assert(j != i);
        let j2: int = if j < i { j } else { j - 1 };
        assert(rs2[j2] == rs[j]);
    }
    assert(m1 =~= m2);
}

/// In-memory set of announced items; the single mutator of the durable
/// record list. At most one record per id at any time.
pub struct SeenStore {
    records: Vec<SeenItem>,
}

impl View for SeenStore {
    type V = Map<Seq<char>, Seq<char>>;

    closed spec fn view(&self) -> Map<Seq<char>, Seq<char>> {
        map_of(self.records@)
    }
}

impl SeenStore {
    /// The store's uniqueness invariant: at most one record per id.
    pub closed spec fn wf(&self) -> bool {
        ids_unique(self.records@)
    }

    /// An empty store, as used when no durable file exists yet.
    pub fn new() -> (s: Self)
        ensures
            s.wf(),
            s@ == Map::<Seq<char>, Seq<char>>::empty(),
    {
        let s = SeenStore { records: Vec::new() };
        proof {
            assert(s.records@.len() == 0);
        }
        s
    }

    /// Index of the record carrying `id`, if one exists.
    fn find_index(&self, id: &String) -> (r: Option<usize>)
        ensures
            match r {
                Some(i) => i < self.records@.len() && self.records@[i as int].id@ == id@,
                None => forall|j: int| 0 <= j < self.records@.len()
                    ==> (#[trigger] self.records@[j]).id@ != id@,
            },
    {
        let mut i: usize = 0;
        while i < self.records.len()
            invariant
                i <= self.records@.len(),
                forall|j: int| 0 <= j < i ==> (#[trigger] self.records@[j]).id@ != id@,
            decreases self.records@.len() - i,
        {
            if self.records[i].id == *id {
                return Some(i);
            }
            i = i + 1;
        }
        None
    }

    /// True iff a record with exactly this (id, freshness marker) pair exists.
    pub fn contains_exact(&self, id: &String, bumped_at: &String) -> (r: bool)
        requires
            self.wf(),
        ensures
            r == (self@.contains_key(id@) && self@[id@] == bumped_at@),
    {
        proof {
            lemma_map_of_keys(self.records@);
            lemma_map_of_vals(self.records@);
        }
        match self.find_index(id) {
            Some(i) => self.records[i].bumped_at == *bumped_at,
            None => false,
        }
    }

    /// Removes any record carrying `id`, then records (id, bumped_at);
    /// afterwards `id` maps to exactly this marker. The caller persists the
    /// new record list durably after each call.
    pub fn upsert(&mut self, id: &String, bumped_at: &String)
        requires
            old(self).wf(),
        ensures
            final(self).wf(),
            final(self)@ == old(self)@.insert(id@, bumped_at@),
            final(self)@.contains_key(id@) && final(self)@[id@] == bumped_at@,
    {
        let rec = SeenItem { id: id.clone(), bumped_at: bumped_at.clone() };
        let ghost m0 = self@;
        proof {
            lemma_map_of_keys(self.records@);
        }
        match self.find_index(id) {
            Some(i) => {
                proof {
                    lemma_map_of_remove(self.records@, i as int);
                }
                self.records.remove(i);
                proof {
                    assert(map_of(self.records@) == m0.remove(id@));
                    lemma_map_of_keys(self.records@);
                    assert forall|j: int| 0 <= j < self.records@.len()
                        implies (#[trigger] self.records@[j]).id@ != id@ by {
                        if self.records@[j].id@ == id@ {
                            assert(map_of(self.records@).contains_key(id@));
                        }
                    }
                }
            },
            None => {
                proof {
                    assert(!m0.contains_key(id@));
                    assert(m0.remove(id@) =~= m0);
                }
            },
        }
        proof {
            assert(map_of(self.records@) == m0.remove(id@));
            lemma_map_of_push(self.records@, rec);
            let rs1 = self.records@.push(rec);
            assert forall|a: int, b: int| 0 <= a < b < rs1.len()
                implies rs1[a].id@ != rs1[b].id@ by {
                if b == rs1.len() - 1 {
                    assert(rs1[a] == self.records@[a]);
                } else {
                    assert(rs1[a] == self.records@[a]);
                    assert(rs1[b] == self.records@[b]);
                }
            }
            assert(m0.remove(id@).insert(rec.id@, rec.bumped_at@) =~= m0.insert(id@, bumped_at@));
        }
        self.records.push(rec);
    }

    /// Whether `item` still has to be announced: true unless exactly this
    /// (id, freshness marker) pair was already committed. As a side effect,
    /// a stale record for the same id (an older marker) is dropped, so a
    /// later commit never leaves two records for one id. An item never seen
    /// before always gets true; a pair already committed always gets false
    /// and leaves the store unchanged. This check is not yet a commit.
    pub fn should_announce(&mut self, item: &ApiItem) -> (r: bool)
        requires
            old(self).wf(),
        ensures
            final(self).wf(),
            r == !(old(self)@.contains_key(item.id@)
                && old(self)@[item.id@] == item.attributes.bumped_at@),
            !old(self)@.contains_key(item.id@) ==> r,
            !r ==> final(self)@ == old(self)@,
            r ==> final(self)@ == old(self)@.remove(item.id@),
            !final(self)@.contains_key(item.id@)
                || final(self)@[item.id@] == item.attributes.bumped_at@,
    {
        proof {
            lemma_map_of_keys(self.records@);
            lemma_map_of_vals(self.records@);
        }
        let ghost m0 = self@;
        match self.find_index(&item.id) {
            None => {
                proof {
                    assert(!m0.contains_key(item.id@));
                    assert(m0.remove(item.id@) =~= m0);
                }
                true
            },
            Some(i) => {
                if self.records[i].bumped_at == item.attributes.bumped_at {
                    false
                } else {
                    proof {
                        lemma_map_of_remove(self.records@, i as int);
                    }
                    self.records.remove(i);
                    true
                }
            },
        }
    }

    /// Commits `item` as announced: its id now maps to exactly the marker
    /// it was fetched with, superseding any prior record for that id.
    pub fn mark_as_announced(&mut self, item: &ApiItem)
        requires
            old(self).wf(),
        ensures
            final(self).wf(),
            final(self)@ == old(self)@.insert(item.id@, item.attributes.bumped_at@),
            final(self)@.contains_key(item.id@)
                && final(self)@[item.id@] == item.attributes.bumped_at@,
    {
        self.upsert(&item.id, &item.attributes.bumped_at);
    }

    /// The record list to write durably: it stands for exactly the same
    /// map as the store, with one record per id.
    pub fn to_records(&self) -> (r: Vec<SeenItem>)
        requires
            self.wf(),
        ensures
            ids_unique(r@),
            map_of(r@) == self@,
    {
        let mut out: Vec<SeenItem> = Vec::new();
        let mut i: usize = 0;
        while i < self.records.len()
            invariant
                i <= self.records@.len(),
                out@ == self.records@.take(i as int),
            decreases self.records@.len() - i,
        {
            out.push(self.records[i].clone());
            proof {
                assert(self.records@.take(i as int + 1) =~= self.records@.take(i as int).push(self.records@[i as int]));
            }
            i = i + 1;
        }
        proof {
            assert(out@ =~= self.records@);
        }
        out
    }

    /// Rebuilds a store from a durably stored record list. When the list
    /// holds several records for one id (a corrupt file), the last one
    /// wins, exactly as `map_of` reads the list.
    pub fn from_records(v: &Vec<SeenItem>) -> (s: Self)
        ensures
            s.wf(),
            s@ == map_of(v@),
    {
        let mut s = SeenStore::new();
        let mut i: usize = 0;
        while i < v.len()
            invariant
                i <= v@.len(),
                s.wf(),
                s@ == map_of(v@.take(i as int)),
            decreases v@.len() - i,
        {
            s.upsert(&v[i].id, &v[i].bumped_at);
            proof {
                assert(v@.take(i as int + 1).drop_last() =~= v@.take(i as int));
                assert(v@.take(i as int + 1).last() == v@[i as int]);
            }
            i = i + 1;
        }
        proof {
            assert(v@.take(v@.len() as int) =~= v@);
        }
        s
    }

    /// Writing the store out and reloading the records yields an
    /// equivalent store: the durable file exactly reflects the in-memory
    /// set after every successful commit.
    pub fn reload_round_trip(&self) -> (s: Self)
        requires
            self.wf(),
        ensures
            s.wf(),
            s@ == self@,
    {
        let records = self.to_records();
        SeenStore::from_records(&records)
    }
}

} // verus!
