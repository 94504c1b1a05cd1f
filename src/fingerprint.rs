use crate::structs::state_view;
use std::collections::BTreeMap;
use vstd::bytes::{spec_u64_to_le_bytes, u64_to_le_bytes};
use vstd::prelude::*;
use vstd::std_specs::btree::spec_btree_map_iter;
use vstd::std_specs::cmp::OrdSpec;
use vstd::std_specs::iter::IteratorSpec;
use vstd::string::StringSliceAdditionalSpecFns;
use vstd::utf8::encode_utf8;

verus! {

broadcast use {vstd::std_specs::btree::group_btree_axioms, vstd::laws_cmp::group_laws_cmp};

/// The seed of every fingerprint, fixed so that all processes agree.
pub const FINGERPRINT_SEED: u64 = 1337;

/// What XxHash64, seeded with `seed`, gives for these bytes.
pub uninterp spec fn xxhash64_of(bytes: Seq<u8>, seed: u64) -> u64;

/// One entry as bytes: the key as eight little-endian bytes, then the text in
/// UTF-8, then `0xff`, a byte that UTF-8 never holds, to end the text.
pub open spec fn entry_bytes(e: (u64, Seq<char>)) -> Seq<u8> {
    spec_u64_to_le_bytes(e.0) + encode_utf8(e.1) + seq![0xffu8]
}

/// The entries as bytes, one after the other, with no length written anywhere.
pub open spec fn encode_entries(s: Seq<(u64, Seq<char>)>) -> Seq<u8>
    decreases s.len(),
{
    if s.len() == 0 {
        Seq::empty()
    } else {
        encode_entries(s.drop_last()) + entry_bytes(s.last())
    }
}

/// The entries of a listing, each value read as its characters.
pub open spec fn entries_view(entries: Seq<(u64, String)>) -> Seq<(u64, Seq<char>)> {
    entries.map_values(|e: (u64, String)| (e.0, e.1@))
}

/// `s` lists the entries of `m` once each, in strictly increasing key order.
pub open spec fn is_listing(s: Seq<(u64, Seq<char>)>, m: Map<u64, Seq<char>>) -> bool {
    &&& forall|i: int, j: int| 0 <= i < j < s.len() ==> s[i].0 < s[j].0
    &&& forall|i: int|
        0 <= i < s.len() ==> #[trigger] m.contains_key(s[i].0) && m[s[i].0] == s[i].1
    &&& forall|k: u64| #[trigger] m.contains_key(k) ==> exists|i: int| 0 <= i < s.len() && s[i].0 == k
}

/// The entries of `m` in increasing key order.
pub open spec fn listing(m: Map<u64, Seq<char>>) -> Seq<(u64, Seq<char>)> {
    choose|s: Seq<(u64, Seq<char>)>| is_listing(s, m)
}

/// The fingerprint of what a state holds: its entries in key order, as bytes,
/// hashed with the fixed seed.
pub open spec fn view_fingerprint(v: Map<u64, Seq<char>>) -> u64 {
    xxhash64_of(encode_entries(listing(v)), FINGERPRINT_SEED)
}

/// The fingerprint of a state.
pub open spec fn fingerprint_spec(m: Map<u64, String>) -> u64 {
    view_fingerprint(state_view(m))
}

/// A map has at most one listing in increasing key order.
pub proof fn lemma_listing_unique(
    s1: Seq<(u64, Seq<char>)>,
    s2: Seq<(u64, Seq<char>)>,
    m: Map<u64, Seq<char>>,
)
    requires
        is_listing(s1, m),
        is_listing(s2, m),
    ensures
        s1 == s2,
    decreases s1.len(),
{
    if s1.len() == 0 {
        if s2.len() > 0 {
            assert(m.contains_key(s2[0].0));
        }
        assert(s1 =~= s2);
    } else {
        assert(m.contains_key(s1[0].0));
        assert(s2.len() > 0);
        assert(m.contains_key(s2[0].0));
        let k = s1[0].0;
        if s2[0].0 < k {
            let i = choose|i: int| 0 <= i < s1.len() && s1[i].0 == s2[0].0;
            assert(false);
        } else if s2[0].0 > k {
            let j = choose|j: int| 0 <= j < s2.len() && s2[j].0 == k;
            assert(false);
        }
        let m2 = m.remove(k);
        let t1 = s1.drop_first();
        let t2 = s2.drop_first();
        assert forall|q: u64| #[trigger] m2.contains_key(q) implies exists|i: int|
            0 <= i < t1.len() && t1[i].0 == q by {
            let i = choose|i: int| 0 <= i < s1.len() && s1[i].0 == q;
            assert(t1[i - 1].0 == q);
        }
        assert forall|q: u64| #[trigger] m2.contains_key(q) implies exists|i: int|
            0 <= i < t2.len() && t2[i].0 == q by {
            let i = choose|i: int| 0 <= i < s2.len() && s2[i].0 == q;
            assert(t2[i - 1].0 == q);
        }
        assert forall|i: int| 0 <= i < t1.len() implies #[trigger] m2.contains_key(t1[i].0)
            && m2[t1[i].0] == t1[i].1 by {
            assert(s1[i + 1] == t1[i]);
            assert(m.contains_key(s1[i + 1].0));
        }
        assert forall|i: int| 0 <= i < t2.len() implies #[trigger] m2.contains_key(t2[i].0)
            && m2[t2[i].0] == t2[i].1 by {
            assert(s2[i + 1] == t2[i]);
            assert(m.contains_key(s2[i + 1].0));
        }
        lemma_listing_unique(t1, t2, m2);
        assert(s1[0] == s2[0]);
        assert forall|i: int| 0 <= i < s1.len() implies s1[i] == s2[i] by {
            if i > 0 {
                assert(s1[i] == t1[i - 1]);
                assert(s2[i] == t2[i - 1]);
            }
        }
        assert(s1 =~= s2);
    }
}

/// The entries of `m`, in increasing key order.
fn entries_of(m: &BTreeMap<u64, String>) -> (r: Vec<(u64, String)>)
    ensures
        is_listing(entries_view(r@), state_view(m@)),
{
    let mut entries: Vec<(u64, String)> = Vec::new();
    let ghost sm = spec_btree_map_iter(m).remaining();
    for (key, value) in it: m.iter()
        invariant
            it.seq() == sm,
            entries@.len() == it.index(),
            forall|i: int|
                0 <= i < it.index() ==> #[trigger] entries@[i] == (*sm[i].0, *sm[i].1),
    {
        entries.push((*key, value.clone()));
    }
    let ghost keys = sm.map_values(|kv: (&u64, &String)| *kv.0);
    assert(vstd::std_specs::btree::increasing_seq(keys));
    let ghost ev = entries_view(entries@);
    let ghost mv = state_view(m@);
    assert forall|i: int, j: int| 0 <= i < j < ev.len() implies ev[i].0 < ev[j].0 by {
        assert(entries@[i] == (*sm[i].0, *sm[i].1));
        assert(entries@[j] == (*sm[j].0, *sm[j].1));
        assert(keys[i] == *sm[i].0 && keys[j] == *sm[j].0);
        assert(keys[i].cmp_spec(&keys[j]) is Less);
    }
    assert forall|i: int| 0 <= i < ev.len() implies #[trigger] mv.contains_key(ev[i].0)
        && mv[ev[i].0] == ev[i].1 by {
        assert(entries@[i] == (*sm[i].0, *sm[i].1));
        assert(m@.contains_key(*sm[i].0));
    }
    assert forall|k: u64| #[trigger] mv.contains_key(k) implies exists|i: int|
        0 <= i < ev.len() && ev[i].0 == k by {
        assert(m@.contains_key(k));
        assert(sm.contains((&k, &m@[k])));
        let i = choose|i: int| 0 <= i < sm.len() && sm[i] == (&k, &m@[k]);
        assert(entries@[i] == (*sm[i].0, *sm[i].1));
        assert(ev[i].0 == k);
    }
    entries
}

/// Appends `b` to `out`.
fn append_bytes(out: &mut Vec<u8>, b: &[u8])
    ensures
        final(out)@ == old(out)@ + b@,
{
    let mut i: usize = 0;
    while i < b.len()
        invariant
            i <= b@.len(),
            out@ == old(out)@ + b@.subrange(0, i as int),
        decreases b@.len() - i,
    {
        out.push(b[i]);
        i = i + 1;
        assert(out@ =~= old(out)@ + b@.subrange(0, i as int));
    }
    assert(b@.subrange(0, b@.len() as int) =~= b@);
}

/// The entries as bytes, in the order given.
fn encode_listing(entries: &Vec<(u64, String)>) -> (r: Vec<u8>)
    ensures
        r@ == encode_entries(entries_view(entries@)),
{
    let mut out: Vec<u8> = Vec::new();
    let mut i: usize = 0;
    while i < entries.len()
        invariant
            i <= entries@.len(),
            out@ == encode_entries(entries_view(entries@).take(i as int)),
        decreases entries@.len() - i,
    {
        let key_bytes = u64_to_le_bytes(entries[i].0);
        append_bytes(&mut out, key_bytes.as_slice());
        append_bytes(&mut out, entries[i].1.as_str().as_bytes());
        out.push(0xffu8);
        proof {
            let ev = entries_view(entries@);
            let next = ev.take(i + 1);
            assert(next.drop_last() =~= ev.take(i as int));
            assert(next.last() == ev[i as int]);
            assert(out@ =~= encode_entries(next));
        }
        i = i + 1;
    }
    assert(entries_view(entries@).take(entries@.len() as int) =~= entries_view(entries@));
    out
}

/// Relies on twox_hash::XxHash64 (with_seed, Hasher::write, Hasher::finish):
/// the hash of the bytes with the seed. XxHash64 reads its input as
/// little-endian words, so the result is the same on every machine.
#[verifier::external_body]
fn xxhash64_bytes(b: &Vec<u8>, seed: u64) -> (r: u64)
    ensures
        r == xxhash64_of(b@, seed),
{
    let mut hasher = twox_hash::XxHash64::with_seed(seed);
    std::hash::Hasher::write(&mut hasher, b.as_slice());
    std::hash::Hasher::finish(&hasher)
}

/// The fingerprint of a state.
pub fn fingerprint(m: &BTreeMap<u64, String>) -> (r: u64)
    ensures
        r == fingerprint_spec(m@),
{
    let entries = entries_of(m);
    proof {
        lemma_listing_unique(entries_view(entries@), listing(state_view(m@)), state_view(m@));
    }
    let bytes = encode_listing(&entries);
    xxhash64_bytes(&bytes, FINGERPRINT_SEED)
}

} // verus!
