use std::collections::BTreeMap;
use std::collections::BTreeSet;
use vstd::prelude::*;
use vstd::std_specs::btree::{spec_btree_keys_iter, spec_btree_map_iter};
use vstd::std_specs::iter::IteratorSpec;

verus! {

broadcast use {vstd::std_specs::btree::group_btree_axioms, vstd::laws_cmp::group_laws_cmp};

/// The empty state, from which a complete update is built.
pub open spec fn empty_state() -> Map<u64, String> {
    Map::empty()
}

/// What a state holds, with each value read as its characters.
pub open spec fn state_view(m: Map<u64, String>) -> Map<u64, Seq<char>> {
    m.map_values(|s: String| s@)
}

/// The keys whose values `generate(a, b)` records: new in `b`, or changed.
pub open spec fn altered_spec(a: Map<u64, String>, b: Map<u64, String>) -> Map<u64, String> {
    Map::new(
        |k: u64| b.contains_key(k) && (!a.contains_key(k) || a[k]@ != b[k]@),
        |k: u64| b[k],
    )
}

/// The keys that `generate(a, b)` records as removed: in `a` and not in `b`.
pub open spec fn removed_spec(a: Map<u64, String>, b: Map<u64, String>) -> Set<u64> {
    a.dom().difference(b.dom())
}

/// The entries a patch from `a` to `b` writes, over what the states hold.
pub open spec fn altered_view(a: Map<u64, Seq<char>>, b: Map<u64, Seq<char>>) -> Map<
    u64,
    Seq<char>,
> {
    Map::new(|k: u64| b.contains_key(k) && (!a.contains_key(k) || a[k] != b[k]), |k: u64| b[k])
}

/// A state after a patch: the removed keys are dropped, then the altered
/// entries are written over it.
pub open spec fn apply_spec(
    s: Map<u64, String>,
    altered: Map<u64, String>,
    removed: Set<u64>,
) -> Map<u64, String> {
    s.remove_keys(removed).union_prefer_right(altered)
}

/// A patch between two keyed states: the entries to write and the keys to drop.
/// Values are replaced whole, never patched inside.
#[derive(Clone, Debug, PartialEq)]
pub struct SimpleDiff {
    pub altered: BTreeMap<u64, String>,
    pub removed: BTreeSet<u64>,
}

impl SimpleDiff {
    /// A patch that changes nothing.
    pub fn new() -> (r: Self)
        ensures
            r.altered@ == Map::<u64, String>::empty(),
            r.removed@ == Set::<u64>::empty(),
    {
        SimpleDiff { altered: BTreeMap::new(), removed: BTreeSet::new() }
    }

    /// No key is both written and dropped.
    pub open spec fn wf(&self) -> bool {
        self.altered@.dom().disjoint(self.removed@)
    }

    /// Whether this patch is exactly the one between `a` and `b`.
    pub open spec fn is_diff_of(&self, a: Map<u64, String>, b: Map<u64, String>) -> bool {
        &&& self.altered@ == altered_spec(a, b)
        &&& self.removed@ == removed_spec(a, b)
    }
}

impl Default for SimpleDiff {
    fn default() -> (r: Self)
        ensures
            r.altered@.dom() == Set::<u64>::empty(),
            r.removed@ == Set::<u64>::empty(),
    {
        SimpleDiff::new()
    }
}

/// A patch type for states of type `T`: built between two states, applied to
/// one.
pub trait SimpleDiffTrait<T>: Sized {
    /// Whether `d` is the patch that takes `a` to `b`.
    spec fn generated(a: T, b: T, d: Self) -> bool;

    /// Whether `after` is `before` with this patch applied.
    spec fn applied(&self, before: T, after: T) -> bool;

    fn generate(a: &T, b: &T) -> (r: Self)
        ensures
            Self::generated(*a, *b, r),
    ;

    fn apply_to(&self, target: &mut T)
        ensures
            self.applied(*old(target), *final(target)),
    ;
}

impl SimpleDiffTrait<BTreeMap<u64, String>> for SimpleDiff {
    open spec fn generated(a: BTreeMap<u64, String>, b: BTreeMap<u64, String>, d: Self) -> bool {
        d.is_diff_of(a@, b@) && d.wf()
    }

    open spec fn applied(&self, before: BTreeMap<u64, String>, after: BTreeMap<u64, String>) -> bool {
        after@ == apply_spec(before@, self.altered@, self.removed@)
    }

    /// The patch that takes `a` to `b`: every key whose value differs or that
    /// only `b` holds goes to `altered` with `b`'s value, every key that only
    /// `a` holds goes to `removed`.
    fn generate(a: &BTreeMap<u64, String>, b: &BTreeMap<u64, String>) -> (r: Self) {
        let mut diff = SimpleDiff::new();
        let ghost sa = spec_btree_map_iter(a).remaining();
        let ghost sb = spec_btree_map_iter(b).remaining();
        for (key, value) in it: a.iter()
            invariant
                it.seq() == sa,
                forall|k: u64| #[trigger]
                    diff.altered@.contains_key(k) ==> a@.contains_key(k) && b@.contains_key(k)
                        && a@[k]@ != b@[k]@ && diff.altered@[k] == b@[k],
                forall|k: u64| #[trigger]
                    diff.removed@.contains(k) ==> a@.contains_key(k) && !b@.contains_key(k),
                forall|j: int|
                    0 <= j < it.index() ==> {
                        let k = *#[trigger] it.seq()[j].0;
                        &&& a@.contains_key(k)
                        &&& b@.contains_key(k) && a@[k]@ != b@[k]@ ==> diff.altered@.contains_key(k)
                        &&& !b@.contains_key(k) ==> diff.removed@.contains(k)
                    },
        {
            match b.get(key) {
                Some(other_value) => {
                    // values are compared whole and replaced whole
                    if !value.eq(other_value) {
                        diff.altered.insert(*key, other_value.clone());
                    }
                },
                None => {
                    diff.removed.insert(*key);
                },
            }
        }
        assert forall|k: u64| a@.contains_key(k) && b@.contains_key(k) && a@[k]@ != b@[k]@
            implies diff.altered@.contains_key(k) by {
            assert(sa.contains((&k, &a@[k])));
            let j = choose|j: int| 0 <= j < sa.len() && sa[j] == (&k, &a@[k]);
            assert(*sa[j].0 == k);
        }
        assert forall|k: u64| a@.contains_key(k) && !b@.contains_key(k)
            implies diff.removed@.contains(k) by {
            assert(sa.contains((&k, &a@[k])));
            let j = choose|j: int| 0 <= j < sa.len() && sa[j] == (&k, &a@[k]);
            assert(*sa[j].0 == k);
        }
        for (key, value) in it2: b.iter()
            invariant
                it2.seq() == sb,
                forall|k: u64| #[trigger]
                    diff.altered@.contains_key(k) ==> b@.contains_key(k)
                        && (!a@.contains_key(k) || a@[k]@ != b@[k]@) && diff.altered@[k] == b@[k],
                forall|k: u64| a@.contains_key(k) && b@.contains_key(k) && a@[k]@ != b@[k]@
                    ==> #[trigger] diff.altered@.contains_key(k),
                forall|k: u64| #[trigger]
                    diff.removed@.contains(k) <==> a@.contains_key(k) && !b@.contains_key(k),
                forall|j: int|
                    0 <= j < it2.index() ==> {
                        let k = *#[trigger] it2.seq()[j].0;
                        !a@.contains_key(k) ==> diff.altered@.contains_key(k)
                    },
        {
            if !a.contains_key(key) {
                diff.altered.insert(*key, value.clone());
            }
        }
        assert forall|k: u64| b@.contains_key(k) && !a@.contains_key(k)
            implies diff.altered@.contains_key(k) by {
            assert(sb.contains((&k, &b@[k])));
            let j = choose|j: int| 0 <= j < sb.len() && sb[j] == (&k, &b@[k]);
            assert(*sb[j].0 == k);
        }
        assert(diff.altered@ =~= altered_spec(a@, b@));
        assert(diff.removed@ =~= removed_spec(a@, b@));
        diff
    }

    /// Drops every key of `removed` from `target`, then writes every entry of
    /// `altered` into it.
    fn apply_to(&self, target: &mut BTreeMap<u64, String>) {
        let ghost start = target@;
        let ghost sr = spec_btree_keys_iter(&self.removed).remaining();
        for del in it: self.removed.iter()
            invariant
                it.seq() == sr,
                forall|k: u64| #[trigger]
                    target@.contains_key(k) ==> start.contains_key(k) && target@[k] == start[k],
                forall|k: u64|
                    start.contains_key(k) && !self.removed@.contains(k)
                        ==> #[trigger] target@.contains_key(k),
                forall|j: int| 0 <= j < it.index() ==> !target@.contains_key(*#[trigger] it.seq()[j]),
        {
            target.remove(del);
        }
        let ghost base = start.remove_keys(self.removed@);
        assert forall|k: u64| self.removed@.contains(k) implies !target@.contains_key(k) by {
            assert(sr.unref().to_set().contains(k));
            let j = choose|j: int| 0 <= j < sr.len() && *sr[j] == k;
        }
        assert(target@ =~= base);
        let ghost sa = spec_btree_map_iter(&self.altered).remaining();
        for (key, change) in it2: self.altered.iter()
            invariant
                it2.seq() == sa,
                forall|k: u64| #[trigger]
                    target@.contains_key(k) ==> (self.altered@.contains_key(k) && target@[k]
                        == self.altered@[k]) || (base.contains_key(k) && target@[k] == base[k]),
                forall|k: u64| base.contains_key(k) ==> #[trigger] target@.contains_key(k),
                forall|j: int|
                    0 <= j < it2.index() ==> {
                        let k = *#[trigger] it2.seq()[j].0;
                        target@.contains_key(k) && target@[k] == self.altered@[k]
                    },
        {
            target.insert(*key, change.clone());
        }
        assert forall|k: u64| self.altered@.contains_key(k) implies target@.contains_key(k)
            && target@[k] == self.altered@[k] by {
            assert(sa.contains((&k, &self.altered@[k])));
            let j = choose|j: int| 0 <= j < sa.len() && sa[j] == (&k, &self.altered@[k]);
            assert(*sa[j].0 == k);
        }
        assert(target@ =~= base.union_prefer_right(self.altered@));
    }
}

} // verus!

verus! {

/// Applying the patch from `a` to `b` onto `a` gives a state that holds what
/// `b` holds.
pub proof fn lemma_apply_generate_inverse(a: Map<u64, String>, b: Map<u64, String>)
    ensures
        state_view(apply_spec(a, altered_spec(a, b), removed_spec(a, b))) == state_view(b),
{
    let r = apply_spec(a, altered_spec(a, b), removed_spec(a, b));
    assert(r.dom() =~= b.dom());
    assert(state_view(r) =~= state_view(b));
}

/// The patch between two states, read over what the states hold.
pub proof fn lemma_diff_view(a: Map<u64, String>, b: Map<u64, String>)
    ensures
        state_view(altered_spec(a, b)) == altered_view(state_view(a), state_view(b)),
        removed_spec(a, b) == state_view(a).dom().difference(state_view(b).dom()),
{
    assert(state_view(altered_spec(a, b)) =~= altered_view(state_view(a), state_view(b)));
    assert(removed_spec(a, b) =~= state_view(a).dom().difference(state_view(b).dom()));
}

/// The patch from a state to itself writes nothing and drops nothing.
pub proof fn lemma_generate_same_is_empty(a: Map<u64, String>)
    ensures
        altered_spec(a, a) == Map::<u64, String>::empty(),
        removed_spec(a, a) == Set::<u64>::empty(),
{
    assert(altered_spec(a, a) =~= Map::<u64, String>::empty());
    assert(removed_spec(a, a) =~= Set::<u64>::empty());
}

} // verus!
