//! The keyed store of per-span accumulated context. An entry lives from
//! span creation to span closure and is only ever touched through the
//! lifecycle calls for its exact span id.

use vstd::prelude::*;

use crate::context::SpanContext;
use crate::context::SpanContextView;
use crate::context::empty_context;
use crate::context::spec_record_fields;

verus! {

/// The map a store stands for.
pub open spec fn entries_map(s: Seq<(u64, SpanContextView)>) -> Map<u64, SpanContextView>
    decreases s.len(),
{
    if s.len() == 0 {
        Map::empty()
    } else {
        entries_map(s.drop_last()).insert(s.last().0, s.last().1)
    }
}

pub proof fn lemma_entries_map_domain(s: Seq<(u64, SpanContextView)>)
    ensures
        forall|id: u64|
            entries_map(s).dom().contains(id) <==> exists|i: int| 0 <= i < s.len() && s[i].0 == id,
    decreases s.len(),
{
    if s.len() > 0 {
        lemma_entries_map_domain(s.drop_last());
        assert forall|id: u64| entries_map(s).dom().contains(id) implies exists|i: int|
            0 <= i < s.len() && s[i].0 == id by {
            if id == s.last().0 {
                assert(s[s.len() - 1].0 == id);
            } else {
                assert(entries_map(s.drop_last()).dom().contains(id));
                let i = choose|i: int| 0 <= i < s.drop_last().len() && s.drop_last()[i].0 == id;
                assert(s.drop_last()[i] == s[i]);
                assert(s[i].0 == id);
            }
        }
        assert forall|id: u64|
            (exists|i: int| 0 <= i < s.len() && s[i].0 == id) implies entries_map(
            s,
        ).dom().contains(id) by {
            let i = choose|i: int| 0 <= i < s.len() && s[i].0 == id;
            if i < s.len() - 1 {
                assert(s.drop_last()[i] == s[i]);
                assert(0 <= i < s.drop_last().len() && s.drop_last()[i].0 == id);
                assert(entries_map(s.drop_last()).dom().contains(id));
            }
        }
    }
}

/// With unique keys, the map reads each entry back.
pub proof fn lemma_entries_map_index(s: Seq<(u64, SpanContextView)>, i: int)
    requires
        0 <= i < s.len(),
        forall|j: int, k: int| 0 <= j < k < s.len() ==> s[j].0 != s[k].0,
    ensures
        entries_map(s).dom().contains(s[i].0),
        entries_map(s)[s[i].0] == s[i].1,
    decreases s.len(),
{
    if i < s.len() - 1 {
        lemma_entries_map_index(s.drop_last(), i);
        assert(s.drop_last()[i] == s[i]);
    }
}

/// Removing the entry at `i` removes its key from the map.
pub proof fn lemma_entries_map_remove(s: Seq<(u64, SpanContextView)>, i: int)
    requires
        0 <= i < s.len(),
        forall|j: int, k: int| 0 <= j < k < s.len() ==> s[j].0 != s[k].0,
    ensures
        entries_map(s.remove(i)) =~= entries_map(s).remove(s[i].0),
    decreases s.len(),
{
    lemma_entries_map_domain(s);
    lemma_entries_map_domain(s.remove(i));
    if i == s.len() - 1 {
        assert(s.remove(i) =~= s.drop_last());
        lemma_entries_map_domain(s.drop_last());
        assert forall|id: u64| entries_map(s.drop_last()).dom().contains(id) implies id
            != s[i].0 by {
            let j = choose|j: int| 0 <= j < s.drop_last().len() && s.drop_last()[j].0 == id;
            assert(s[j].0 == id);
        }
        assert(entries_map(s.drop_last()) =~= entries_map(s).remove(s[i].0));
    } else {
        let t = s.remove(i);
        assert(t.last() == s.last());
        assert(t.drop_last() =~= s.drop_last().remove(i));
        lemma_entries_map_remove(s.drop_last(), i);
        assert(entries_map(t) =~= entries_map(s.drop_last()).remove(s[i].0).insert(
            s.last().0,
            s.last().1,
        ));
        assert(s[i].0 != s.last().0);
    }
}

/// Updating the entry at `i`, key kept, is an insert on the map.
pub proof fn lemma_entries_map_update(s: Seq<(u64, SpanContextView)>, i: int, v: SpanContextView)
    requires
        0 <= i < s.len(),
        forall|j: int, k: int| 0 <= j < k < s.len() ==> s[j].0 != s[k].0,
    ensures
        entries_map(s.update(i, (s[i].0, v))) =~= entries_map(s).insert(s[i].0, v),
    decreases s.len(),
{
    let t = s.update(i, (s[i].0, v));
    if i == s.len() - 1 {
        assert(t.drop_last() =~= s.drop_last());
    } else {
        assert(t.drop_last() =~= s.drop_last().update(i, (s[i].0, v)));
        lemma_entries_map_update(s.drop_last(), i, v);
        assert(s[i].0 != s.last().0);
        assert(t.last() == s.last());
    }
}

/// The keyed store itself: a list of (span id, context) pairs with
/// pairwise distinct ids.
pub struct SpanStore {
    entries: Vec<(u64, SpanContext)>,
}

impl View for SpanStore {
    type V = Map<u64, SpanContextView>;

    closed spec fn view(&self) -> Map<u64, SpanContextView> {
        entries_map(Seq::new(self.entries@.len(), |i: int| (self.entries@[i].0, self.entries@[i].1@)))
    }
}

impl SpanStore {
    pub closed spec fn entry_views(&self) -> Seq<(u64, SpanContextView)> {
        Seq::new(self.entries@.len(), |i: int| (self.entries@[i].0, self.entries@[i].1@))
    }

    /// Ids are pairwise distinct.
    pub closed spec fn well_formed(&self) -> bool {
        forall|j: int, k: int|
            0 <= j < k < self.entries@.len() ==> self.entries@[j].0 != self.entries@[k].0
    }

    /// An empty store.
    pub fn new() -> (r: SpanStore)
        ensures
            r@ == Map::<u64, SpanContextView>::empty(),
            r.well_formed(),
    {
        SpanStore { entries: Vec::new() }
    }

    fn find(&self, id: u64) -> (r: Option<usize>)
        requires
            self.well_formed(),
        ensures
            match r {
                Some(i) => i < self.entry_views().len() && self.entry_views()[i as int].0 == id
                    && self@.dom().contains(id) && self@[id] == self.entry_views()[i as int].1,
                None => !self@.dom().contains(id),
            },
    {
        proof {
            lemma_entries_map_domain(self.entry_views());
        }
        let n = self.entries.len();
        let mut i: usize = 0;
        while i < n
            invariant
                i <= n,
                n == self.entries@.len(),
                self.well_formed(),
                forall|j: int| 0 <= j < i ==> self.entries@[j].0 != id,
            decreases n - i,
        {
            if self.entries[i].0 == id {
                proof {
                    lemma_entries_map_index(self.entry_views(), i as int);
                }
                return Some(i);
            }
            i = i + 1;
        }
        proof {
            assert(forall|j: int|
                0 <= j < self.entry_views().len() ==> self.entry_views()[j].0 != id);
        }
        None
    }

    /// Read-only access for the composer.
    pub fn get(&self, id: u64) -> (r: Option<&SpanContext>)
        requires
            self.well_formed(),
        ensures
            match r {
                Some(ctx) => self@.dom().contains(id) && self@[id] == ctx@,
                None => !self@.dom().contains(id),
            },
    {
        match self.find(id) {
            Some(i) => Some(&self.entries[i].1),
            None => None,
        }
    }

    /// Inserts a fresh context for `id` and applies the initial fields;
    /// a no-op when the id is already present.
    pub fn create(&mut self, id: u64, fields: &Vec<(String, String)>)
        requires
            old(self).well_formed(),
        ensures
            final(self).well_formed(),
            final(self)@ == if old(self)@.dom().contains(id) {
                old(self)@
            } else {
                old(self)@.insert(id, spec_record_fields(empty_context(), fields.deep_view()))
            },
    {
        match self.find(id) {
            Some(_) => {},
            None => {
                let mut ctx = SpanContext::new();
                ctx.record_fields(fields);
                self.entries.push((id, ctx));
                proof {
                    let s = old(self).entry_views();
                    assert(self.entry_views() =~= s.push(
                        (id, spec_record_fields(empty_context(), fields.deep_view())),
                    ));
                    assert(self.entry_views().drop_last() =~= s);
                    lemma_entries_map_domain(s);
                    assert(forall|j: int| 0 <= j < s.len() ==> s[j].0 != id);
                    assert(forall|j: int|
                        0 <= j < s.len() ==> old(self).entries@[j].0 == s[j].0);
                    assert(forall|j: int|
                        0 <= j < old(self).entries@.len() ==> self.entries@[j]
                            == old(self).entries@[j]);
                    assert(self.entries@.len() == s.len() + 1);
                    assert(self.entries@[s.len() as int].0 == id);
                    assert forall|j: int| 0 <= j < s.len() implies self.entries@[j].0 != id by {
                        assert(self.entries@[j] == old(self).entries@[j]);
                        assert(old(self).entries@[j].0 == s[j].0);
                    }
                    assert(self.well_formed());
                }
            },
        }
    }

    /// Applies further fields to the context of `id`; a no-op when the
    /// id is unknown, for a span already closed or never created.
    pub fn update(&mut self, id: u64, fields: &Vec<(String, String)>)
        requires
            old(self).well_formed(),
        ensures
            final(self).well_formed(),
            final(self)@ == if old(self)@.dom().contains(id) {
                old(self)@.insert(id, spec_record_fields(old(self)@[id], fields.deep_view()))
            } else {
                old(self)@
            },
    {
        match self.find(id) {
            Some(i) => {
                let entry = vstd::std_specs::vec::vec_index_mut(&mut self.entries, i);
                entry.1.record_fields(fields);
                proof {
                    let s = old(self).entry_views();
                    assert(self.entry_views() =~= s.update(
                        i as int,
                        (id, spec_record_fields(old(self)@[id], fields.deep_view())),
                    ));
                    lemma_entries_map_update(
                        s,
                        i as int,
                        spec_record_fields(old(self)@[id], fields.deep_view()),
                    );
                }
            },
            None => {},
        }
    }

    /// Deletes the context of `id`; a no-op when it is absent.
    pub fn remove(&mut self, id: u64)
        requires
            old(self).well_formed(),
        ensures
            final(self).well_formed(),
            final(self)@ == old(self)@.remove(id),
    {
        match self.find(id) {
            Some(i) => {
                let _ = self.entries.remove(i);
                proof {
                    let s = old(self).entry_views();
                    assert(self.entry_views() =~= s.remove(i as int));
                    lemma_entries_map_remove(s, i as int);
                }
            },
            None => {
                proof {
                    assert(self@ =~= old(self)@.remove(id));
                }
            },
        }
    }
}

} // verus!
