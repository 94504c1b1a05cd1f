use crate::fingerprint::{fingerprint, view_fingerprint};
use crate::shared_map::{conc_contents, conc_entries, conc_insert, conc_new, conc_remove};
use crate::structs::{altered_view, lemma_diff_view, state_view, SimpleDiff, SimpleDiffTrait};
use dashmap::DashMap;
use std::collections::BTreeMap;
use vstd::prelude::*;
use vstd::std_specs::btree::{spec_btree_keys_iter, spec_btree_map_iter};
use vstd::std_specs::iter::IteratorSpec;

verus! {

broadcast use {vstd::std_specs::btree::group_btree_axioms, vstd::laws_cmp::group_laws_cmp};

/// A keyed state that many threads may read and change at once. Its
/// fingerprint and its patches go through the entries in key order, never
/// through the order the map keeps them in. What is stated of a call holds
/// when no other thread changes the map during it.
pub struct ConcMap(pub DashMap<u64, String>);

impl View for ConcMap {
    type V = Map<u64, Seq<char>>;

    open spec fn view(&self) -> Map<u64, Seq<char>> {
        conc_contents(self.0)
    }
}

impl Default for ConcMap {
    fn default() -> (r: Self)
        ensures
            r@.dom() == Set::<u64>::empty(),
    {
        ConcMap::identity()
    }
}

impl ConcMap {
    /// The empty state.
    pub fn identity() -> (r: Self)
        ensures
            r@.dom() == Set::<u64>::empty(),
    {
        ConcMap(conc_new())
    }

    /// The same entries, in an ordered map.
    pub fn as_btree(&self) -> (r: BTreeMap<u64, String>)
        ensures
            state_view(r@) == self@,
    {
        let entries = conc_entries(&self.0);
        let mut bmap: BTreeMap<u64, String> = BTreeMap::new();
        let mut i: usize = 0;
        while i < entries.len()
            invariant
                i <= entries@.len(),
                forall|k: u64| #[trigger]
                    bmap@.contains_key(k) ==> self@.contains_key(k) && bmap@[k]@ == self@[k],
                forall|j: int| 0 <= j < i ==> bmap@.contains_key(#[trigger] entries@[j].0),
                forall|j: int|
                    0 <= j < entries@.len() ==> #[trigger] self@.contains_key(entries@[j].0)
                        && self@[entries@[j].0] == entries@[j].1@,
            decreases entries@.len() - i,
        {
            let key = entries[i].0;
            let value = entries[i].1.clone();
            bmap.insert(key, value);
            i = i + 1;
        }
        assert forall|k: u64| self@.contains_key(k) implies bmap@.contains_key(k) by {
            let j = choose|j: int| 0 <= j < entries@.len() && entries@[j].0 == k;
        }
        assert(state_view(bmap@) =~= self@);
        bmap
    }

    /// The fingerprint of the entries, taken in key order.
    pub fn fingerprint(&self) -> (r: u64)
        ensures
            r == view_fingerprint(self@),
    {
        let bmap = self.as_btree();
        fingerprint(&bmap)
    }

    /// The patch that takes this state to `other`.
    pub fn diff(&self, other: &Self) -> (r: SimpleDiff)
        ensures
            state_view(r.altered@) == altered_view(self@, other@),
            r.removed@ == self@.dom().difference(other@.dom()),
            r.wf(),
    {
        let s = self.as_btree();
        let o = other.as_btree();
        let r = <SimpleDiff as SimpleDiffTrait<BTreeMap<u64, String>>>::generate(&s, &o);
        proof {
            lemma_diff_view(s@, o@);
        }
        r
    }

    /// Drops every key of `diff.removed`, then writes every entry of
    /// `diff.altered`.
    pub fn apply(&mut self, diff: &SimpleDiff)
        ensures
            final(self)@ == old(self)@.remove_keys(diff.removed@).union_prefer_right(
                state_view(diff.altered@),
            ),
    {
        diff.apply_to(self);
    }
}

impl SimpleDiffTrait<ConcMap> for SimpleDiff {
    open spec fn generated(a: ConcMap, b: ConcMap, d: Self) -> bool {
        &&& state_view(d.altered@) == altered_view(a@, b@)
        &&& d.removed@ == a@.dom().difference(b@.dom())
        &&& d.wf()
    }

    open spec fn applied(&self, before: ConcMap, after: ConcMap) -> bool {
        after@ == before@.remove_keys(self.removed@).union_prefer_right(state_view(self.altered@))
    }

    fn generate(a: &ConcMap, b: &ConcMap) -> (r: Self) {
        a.diff(b)
    }

    fn apply_to(&self, target: &mut ConcMap) {
        let ghost start = target@;
        let ghost sr = spec_btree_keys_iter(&self.removed).remaining();
        for del in it: self.removed.iter()
            invariant
                it.seq() == sr,
                forall|k: u64| #[trigger]
                    target@.contains_key(k) ==> start.contains_key(k) && target@[k] == start[k],
                forall|k: u64|
                    start.contains_key(k) && !self.removed@.contains(k)
                        ==> #[trigger] target@.contains_key(k),
                forall|j: int| 0 <= j < it.index() ==> !target@.contains_key(*#[trigger] it.seq()[j]),
        {
            let ghost before = target@;
            conc_remove(&mut target.0, *del);
            assert(target@ == before.remove(*del));
        }
        let ghost base = start.remove_keys(self.removed@);
        assert forall|k: u64| self.removed@.contains(k) implies !target@.contains_key(k) by {
            assert(sr.unref().to_set().contains(k));
            let j = choose|j: int| 0 <= j < sr.len() && *sr[j] == k;
        }
        assert(target@ =~= base);
        let ghost alt = state_view(self.altered@);
        let ghost sa = spec_btree_map_iter(&self.altered).remaining();
        for (key, change) in it2: self.altered.iter()
            invariant
                it2.seq() == sa,
                alt == state_view(self.altered@),
                forall|k: u64| #[trigger]
                    target@.contains_key(k) ==> (alt.contains_key(k) && target@[k] == alt[k]) || (
                    base.contains_key(k) && target@[k] == base[k]),
                forall|k: u64| base.contains_key(k) ==> #[trigger] target@.contains_key(k),
                forall|j: int|
                    0 <= j < it2.index() ==> {
                        let k = *#[trigger] it2.seq()[j].0;
                        target@.contains_key(k) && target@[k] == alt[k]
                    },
        {
            let ghost before = target@;
            assert(self.altered@.contains_key(*key) && self.altered@[*key] == *change);
            assert(alt.contains_key(*key) && alt[*key] == change@);
            conc_insert(&mut target.0, *key, change.clone());
            assert(target@ == before.insert(*key, change@));
        }
        assert forall|k: u64| #[trigger] alt.contains_key(k) implies target@.contains_key(k)
            && target@[k] == alt[k] by {
            assert(sa.contains((&k, &self.altered@[k])));
            let j = choose|j: int| 0 <= j < sa.len() && sa[j] == (&k, &self.altered@[k]);
            assert(*sa[j].0 == k);
        }
        let ghost u = base.union_prefer_right(alt);
        assert forall|k: u64| #[trigger] u.contains_key(k) implies target@.contains_key(k) by {
            if !alt.contains_key(k) {
                assert(base.contains_key(k));
            }
        }
        assert(target@ =~= u);
    }
}

} // verus!
