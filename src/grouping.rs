use vstd::prelude::*;
use std::collections::HashMap;
use std::collections::hash_map::DefaultHasher;
use std::hash::Hasher;
use vstd::std_specs::hash::DefaultHasherAdditionalSpecFns;
use crate::bytes::copy_bytes;
use crate::catalog::{decimal, to_decimal};
use crate::variant::{
    carrier_upto, holds_bytes, is_carrier, key_views, unique_keys, unique_prefix, CallRecord,
    KeyView, VariantKey,
};

verus! {

/// The distinct variants of a call table, in order of first occurrence, each
/// with the carriers observed for it.
pub struct CarrierIndex {
    pub keys: Vec<VariantKey>,
    pub carriers: Vec<Vec<Vec<u8>>>,
}

impl CarrierIndex {
    /// The index describes exactly the call table `calls`.
    pub open spec fn describes(&self, calls: Seq<CallRecord>) -> bool {
        &&& self.keys@.len() == self.carriers@.len()
        &&& key_views(self.keys@) == unique_keys(calls)
        &&& forall|j: int, s: Seq<u8>|
            0 <= j < self.keys@.len() ==> (#[trigger] holds_bytes(self.carriers@[j]@, s)
                <==> is_carrier(calls, self.keys@[j]@, s))
    }
}

/// A key is among the distinct keys of a prefix iff some call of the prefix has it.
pub proof fn lemma_unique_prefix_contains(calls: Seq<CallRecord>, n: nat, k: KeyView)
    requires
        n <= calls.len(),
    ensures
        unique_prefix(calls, n).contains(k) <==> exists|i: int|
            0 <= i < n && #[trigger] calls[i].key@ == k,
    decreases n,
{
    if n > 0 {
        lemma_unique_prefix_contains(calls, (n - 1) as nat, k);
        let prev = unique_prefix(calls, (n - 1) as nat);
        let last = calls[n - 1].key@;
        let ext = prev.push(last);
        assert(ext[prev.len() as int] == last);
        assert(forall|t: int| 0 <= t < prev.len() ==> ext[t] == prev[t]);
        if ext.contains(k) && !prev.contains(k) {
            let t = choose|t: int| 0 <= t < ext.len() && #[trigger] ext[t] == k;
            if t < prev.len() {
                assert(prev[t] == k);
            }
        }
        if prev.contains(k) {
            let t = choose|t: int| 0 <= t < prev.len() && #[trigger] prev[t] == k;
            assert(ext[t] == k);
        }
    }
}

/// The hash of a key: `DefaultHasher` fed the chromosome, the decimal
/// position, the reference allele and the alternate allele.
pub open spec fn key_hash(k: KeyView) -> u64 {
    DefaultHasher::spec_finish(seq![k.0, decimal(k.1 as nat), k.2, k.3])
}

/// Computes the hash of a key.
pub fn hash_key(k: &VariantKey) -> (r: u64)
    ensures
        r == key_hash(k@),
{
    let mut h = DefaultHasher::new();
    h.write(k.chrom.as_slice());
    let digits = to_decimal(k.pos as u64);
    h.write(digits.as_slice());
    h.write(k.ref_allele.as_slice());
    h.write(k.alt_allele.as_slice());
    assert(h@ =~= seq![k.chrom@, decimal(k.pos as nat), k.ref_allele@, k.alt_allele@]);
    h.finish()
}

/// The list of `buckets` at `h` holds the position `j`.
pub open spec fn bucket_holds(buckets: Map<u64, Vec<usize>>, h: u64, j: int) -> bool {
    buckets.contains_key(h) && exists|q: int|
        0 <= q < buckets[h]@.len() && #[trigger] buckets[h]@[q] as int == j
}

/// `buckets` maps the hash of every key of `keys` to a list that holds its
/// position, and holds no position past the end of `keys`.
pub open spec fn indexes(buckets: Map<u64, Vec<usize>>, keys: Seq<VariantKey>) -> bool {
    &&& forall|j: int| 0 <= j < keys.len() ==> #[trigger] bucket_holds(buckets, key_hash(keys[j]@), j)
    &&& forall|h: u64, q: int|
        buckets.contains_key(h) && 0 <= q < buckets[h]@.len() ==> (#[trigger] buckets[h]@[q]) < keys.len()
}

/// Finds the position of a key among `keys` through the hash index.
fn find_key(keys: &Vec<VariantKey>, buckets: &HashMap<u64, Vec<usize>>, k: &VariantKey, h: u64) -> (r:
    Option<usize>)
    requires
        indexes(buckets@, keys@),
        h == key_hash(k@),
    ensures
        match r {
            Some(j) => j < keys@.len() && keys@[j as int]@ == k@,
            None => forall|j: int| 0 <= j < keys@.len() ==> keys@[j]@ != k@,
        },
{
    broadcast use vstd::std_specs::hash::group_hash_axioms;

    match buckets.get(&h) {
        None => {
            assert forall|j: int| 0 <= j < keys@.len() implies keys@[j]@ != k@ by {
                if keys@[j]@ == k@ {
                    assert(bucket_holds(buckets@, key_hash(keys@[j]@), j));
                }
            }
            None
        },
        Some(bucket) => {
            let mut q: usize = 0;
            while q < bucket.len()
                invariant
                    0 <= q <= bucket@.len(),
                    buckets@.contains_key(h),
                    buckets@[h] == *bucket,
                    indexes(buckets@, keys@),
                    forall|t: int| 0 <= t < q ==> keys@[bucket@[t] as int]@ != k@,
                decreases bucket@.len() - q,
            {
                let j = bucket[q];
                assert(j < keys@.len());
                if keys[j].same_as(k) {
                    return Some(j);
                }
                q = q + 1;
            }
            assert forall|j: int| 0 <= j < keys@.len() implies keys@[j]@ != k@ by {
                if keys@[j]@ == k@ {
                    let g = key_hash(keys@[j]@);
                    assert(g == h);
                    assert(bucket_holds(buckets@, key_hash(keys@[j]@), j));
                    let t = choose|t: int| 0 <= t < bucket@.len() && #[trigger] bucket@[t] as int == j;
                    assert(keys@[bucket@[t] as int]@ != k@);
                }
            }
            None
        },
    }
}

/// Records in the hash index that `j` is a position of a key with hash `h`.
fn add_to_bucket(buckets: &mut HashMap<u64, Vec<usize>>, h: u64, j: usize)
    ensures
        final(buckets)@.dom() == old(buckets)@.dom().insert(h),
        final(buckets)@[h]@ == (if old(buckets)@.contains_key(h) {
            old(buckets)@[h]@
        } else {
            seq![]
        }).push(j),
        forall|g: u64| g != h && old(buckets)@.contains_key(g) ==> #[trigger] final(buckets)@[g] == old(buckets)@[g],
{
    broadcast use vstd::std_specs::hash::group_hash_axioms;

    let mut bucket: Vec<usize> = match buckets.get(&h) {
        Some(b) => {
            let c = b.clone();
            assert(c@ =~= b@);
            c
        },
        None => Vec::new(),
    };
    bucket.push(j);
    buckets.insert(h, bucket);
    assert(buckets@.dom() =~= old(buckets)@.dom().insert(h));
}

/// Groups the carriers of a call table by variant in one pass over the table.
pub fn group_calls(calls: &Vec<CallRecord>) -> (r: CarrierIndex)
    ensures
        r.describes(calls@),
{
    let mut keys: Vec<VariantKey> = Vec::new();
    let mut carriers: Vec<Vec<Vec<u8>>> = Vec::new();
    let mut buckets: HashMap<u64, Vec<usize>> = HashMap::new();
    let mut i: usize = 0;
    while i < calls.len()
        invariant
            0 <= i <= calls@.len(),
            keys@.len() == carriers@.len(),
            key_views(keys@) == unique_prefix(calls@, i as nat),
            forall|a: int, b: int| 0 <= a < b < keys@.len() ==> keys@[a]@ != keys@[b]@,
            indexes(buckets@, keys@),
            forall|j: int, s: Seq<u8>|
                0 <= j < keys@.len() ==> (#[trigger] holds_bytes(carriers@[j]@, s)
                    <==> carrier_upto(calls@, i as int, keys@[j]@, s)),
        decreases calls@.len() - i,
    {
        let call = &calls[i];
        let ghost old_keys = keys@;
        let ghost old_carriers = carriers@;
        let ghost prev = unique_prefix(calls@, i as nat);
        assert(forall|j: int| 0 <= j < old_keys.len() ==> key_views(old_keys)[j] == old_keys[j]@);
        let h = hash_key(&call.key);
        match find_key(&keys, &buckets, &call.key, h) {
            Some(j) => {
                assert(prev[j as int] == call.key@);
                assert(prev.contains(call.key@));
                let pushed = copy_bytes(&call.carrier);
                carriers[j].push(pushed);
                assert forall|t: int, s: Seq<u8>|
                    0 <= t < keys@.len() implies (#[trigger] holds_bytes(carriers@[t]@, s)
                        <==> carrier_upto(calls@, i + 1, keys@[t]@, s)) by {
                    let k = keys@[t]@;
                    if t == j {
                        let newc = carriers@[t]@;
                        let oldc = old_carriers[t]@;
                        assert(newc.len() == oldc.len() + 1);
                        assert(forall|w: int| 0 <= w < oldc.len() ==> newc[w] == oldc[w]);
                        assert(newc[oldc.len() as int]@ == calls@[i as int].carrier@);
                        if carrier_upto(calls@, i + 1, k, s) {
                            let q = choose|q: int| 0 <= q < i + 1 && #[trigger] calls@[q].key@ == k
                                && calls@[q].carrier@ == s;
                            if q == i {
                                assert(newc[oldc.len() as int]@ == s);
                            } else {
                                assert(carrier_upto(calls@, i as int, k, s));
                                assert(holds_bytes(oldc, s));
                                let w = choose|w: int| 0 <= w < oldc.len() && #[trigger] oldc[w]@ == s;
                                assert(newc[w]@ == s);
                            }
                        }
                        if holds_bytes(newc, s) {
                            let q = choose|q: int| 0 <= q < newc.len() && #[trigger] newc[q]@ == s;
                            if q < oldc.len() {
                                assert(oldc[q]@ == s);
                                assert(holds_bytes(oldc, s));
                                assert(carrier_upto(calls@, i as int, k, s));
                                assert(holds_bytes(oldc, s));
                                let w = choose|w: int| 0 <= w < i && #[trigger] calls@[w].key@ == k
                                    && calls@[w].carrier@ == s;
                                assert(calls@[w].key@ == k);
                            } else {
                                assert(calls@[i as int].key@ == k);
                            }
                        }
                    } else {
                        assert(carriers@[t] == old_carriers[t]);
                        assert(k != call.key@);
                        if carrier_upto(calls@, i + 1, k, s) {
                            let q = choose|q: int| 0 <= q < i + 1 && #[trigger] calls@[q].key@ == k
                                && calls@[q].carrier@ == s;
                            assert(q != i);
                            assert(carrier_upto(calls@, i as int, k, s));
                        }
                        if carrier_upto(calls@, i as int, k, s) {
                            let q = choose|q: int| 0 <= q < i && #[trigger] calls@[q].key@ == k
                                && calls@[q].carrier@ == s;
                            assert(calls@[q].key@ == k);
                        }
                    }
                }
            },
            None => {
                assert(!prev.contains(call.key@)) by {
                    if prev.contains(call.key@) {
                        let t = choose|t: int| 0 <= t < prev.len() && #[trigger] prev[t] == call.key@;
                        assert(old_keys[t]@ == call.key@);
                    }
                }
                let mut fresh: Vec<Vec<u8>> = Vec::new();
                fresh.push(copy_bytes(&call.carrier));
                proof {
                    broadcast use vstd::std_specs::hash::group_hash_axioms;
                }
                let ghost old_buckets = buckets@;
                assert(indexes(old_buckets, old_keys));
                add_to_bucket(&mut buckets, h, keys.len());
                keys.push(call.key.duplicate());
                carriers.push(fresh);
                assert(indexes(buckets@, keys@)) by {
                    assert forall|t: int| 0 <= t < keys@.len() implies #[trigger] bucket_holds(
                        buckets@,
                        key_hash(keys@[t]@),
                        t,
                    ) by {
                        let g = key_hash(keys@[t]@);
                        if t < old_keys.len() {
                            assert(keys@[t] == old_keys[t]);
                            assert(bucket_holds(old_buckets, key_hash(old_keys[t]@), t));
                            let w = choose|w: int| 0 <= w < old_buckets[g]@.len() && #[trigger] old_buckets[g]@[w] as int == t;
                            if g == h {
                                assert(buckets@[g]@[w] as int == t);
                            } else {
                                assert(buckets@[g] == old_buckets[g]);
                                assert(buckets@[g]@[w] as int == t);
                            }
                        } else {
                            assert(buckets@[h]@[buckets@[h]@.len() - 1] as int == t);
                        }
                    }
                    assert forall|g: u64, q: int|
                        buckets@.contains_key(g) && 0 <= q < buckets@[g]@.len() implies (
                        #[trigger] buckets@[g]@[q]) < keys@.len() by {
                        if g != h {
                            assert(old_buckets.contains_key(g));
                        } else if q < buckets@[g]@.len() - 1 {
                            assert(old_buckets.contains_key(g));
                            assert(buckets@[g]@[q] == old_buckets[g]@[q]);
                        }
                    }
                }
                assert(key_views(keys@) =~= prev.push(call.key@));
                assert forall|t: int, s: Seq<u8>|
                    0 <= t < keys@.len() implies (#[trigger] holds_bytes(carriers@[t]@, s)
                        <==> carrier_upto(calls@, i + 1, keys@[t]@, s)) by {
                    if t < old_keys.len() {
                        assert(keys@[t] == old_keys[t]);
                        assert(carriers@[t] == old_carriers[t]);
                        assert(old_keys[t]@ != call.key@);
                        if carrier_upto(calls@, i + 1, keys@[t]@, s) {
                            assert(calls@[i as int].key@ != keys@[t]@);
                        }
                    } else {
                        assert(keys@[t]@ == call.key@);
                        if carrier_upto(calls@, i + 1, keys@[t]@, s) {
                            let q = choose|q: int| 0 <= q < i + 1 && #[trigger] calls@[q].key@ == keys@[t]@
                                && calls@[q].carrier@ == s;
                            if q < i {
                                lemma_unique_prefix_contains(calls@, i as nat, call.key@);
                            }
                            assert(carriers@[t]@[0]@ == s);
                        }
                        if holds_bytes(carriers@[t]@, s) {
                            assert(carriers@[t]@[0]@ == s);
                            assert(calls@[i as int].key@ == keys@[t]@);
                        }
                    }
                }
            },
        }
        i = i + 1;
    }
    CarrierIndex { keys, carriers }
}

} // verus!

verus! {

/// Each key of an index that describes a call table comes from one of its calls.
pub proof fn lemma_index_key_in_calls(index: CarrierIndex, calls: Seq<CallRecord>, j: int)
    requires
        index.describes(calls),
        0 <= j < index.keys@.len(),
    ensures
        exists|i: int| 0 <= i < calls.len() && #[trigger] calls[i].key@ == index.keys@[j]@,
{
    let k = index.keys@[j]@;
    assert(key_views(index.keys@)[j] == k);
    assert(unique_keys(calls).contains(k));
    lemma_unique_prefix_contains(calls, calls.len(), k);
}

} // verus!

verus! {

/// The set of distinct keys of a call table.
pub open spec fn distinct_keys(calls: Seq<CallRecord>) -> Set<KeyView> {
    calls.map_values(|c: CallRecord| c.key@).to_set()
}

/// No key appears twice among the distinct keys of a prefix.
pub proof fn lemma_unique_prefix_no_duplicates(calls: Seq<CallRecord>, n: nat)
    requires
        n <= calls.len(),
    ensures
        unique_prefix(calls, n).no_duplicates(),
    decreases n,
{
    if n > 0 {
        lemma_unique_prefix_no_duplicates(calls, (n - 1) as nat);
        let prev = unique_prefix(calls, (n - 1) as nat);
        let k = calls[n - 1].key@;
        if !prev.contains(k) {
            let ext = prev.push(k);
            assert forall|a: int, b: int| 0 <= a < ext.len() && 0 <= b < ext.len() && a != b implies ext[a]
                != ext[b] by {
                if b == prev.len() && a < prev.len() {
                    assert(prev[a] != k);
                } else if a == prev.len() && b < prev.len() {
                    assert(prev[b] != k);
                } else {
                    assert(ext[a] == prev[a] && ext[b] == prev[b]);
                }
            }
        }
    }
}

/// The distinct keys, in first-occurrence order, are each key of the table exactly once:
/// they hold no repetition and, as a set, are the keys of the table.
pub proof fn law_unique_keys_are_distinct_keys(calls: Seq<CallRecord>)
    ensures
        unique_keys(calls).no_duplicates(),
        unique_keys(calls).to_set() == distinct_keys(calls),
        unique_keys(calls).len() == distinct_keys(calls).len(),
{
    let u = unique_keys(calls);
    let m = calls.map_values(|c: CallRecord| c.key@);
    lemma_unique_prefix_no_duplicates(calls, calls.len());
    assert forall|k: KeyView| u.to_set().contains(k) <==> m.to_set().contains(k) by {
        lemma_unique_prefix_contains(calls, calls.len(), k);
        if m.contains(k) {
            let i = choose|i: int| 0 <= i < m.len() && #[trigger] m[i] == k;
            assert(calls[i].key@ == k);
        }
        if exists|i: int| 0 <= i < calls.len() && #[trigger] calls[i].key@ == k {
            let i = choose|i: int| 0 <= i < calls.len() && #[trigger] calls[i].key@ == k;
            assert(m[i] == k);
        }
    }
    assert(u.to_set() =~= m.to_set());
    u.unique_seq_to_set();
}

/// `i` is the first position of the table whose call has key `k`.
pub open spec fn first_at(calls: Seq<CallRecord>, k: KeyView, i: int) -> bool {
    &&& 0 <= i < calls.len()
    &&& calls[i].key@ == k
    &&& forall|j: int| 0 <= j < i ==> #[trigger] calls[j].key@ != k
}

/// Distinct keys are listed in the order in which each first occurs in the table.
pub proof fn law_first_occurrence_order(calls: Seq<CallRecord>, a: int, b: int, ia: int, ib: int)
    requires
        0 <= a < b < unique_keys(calls).len(),
        first_at(calls, unique_keys(calls)[a], ia),
        first_at(calls, unique_keys(calls)[b], ib),
    ensures
        ia < ib,
{
    lemma_prefix_order(calls, calls.len(), a, b, ia, ib);
}

proof fn lemma_prefix_order(calls: Seq<CallRecord>, n: nat, a: int, b: int, ia: int, ib: int)
    requires
        n <= calls.len(),
        0 <= a < b < unique_prefix(calls, n).len(),
        first_at(calls, unique_prefix(calls, n)[a], ia),
        first_at(calls, unique_prefix(calls, n)[b], ib),
    ensures
        ia < ib,
    decreases n,
{
    let prev = unique_prefix(calls, (n - 1) as nat);
    let k = calls[n - 1].key@;
    let u = unique_prefix(calls, n);
    if b < prev.len() {
        assert(u[a] == prev[a] && u[b] == prev[b]);
        lemma_prefix_order(calls, (n - 1) as nat, a, b, ia, ib);
    } else {
        assert(!prev.contains(k));
        assert(u[b] == k);
        assert(u[a] == prev[a]);
        lemma_unique_prefix_contains(calls, (n - 1) as nat, k);
        lemma_unique_prefix_contains(calls, (n - 1) as nat, prev[a]);
        assert(prev.contains(prev[a]));
        let i = choose|i: int| 0 <= i < n - 1 && #[trigger] calls[i].key@ == prev[a];
        if ib < n - 1 {
            assert(calls[ib].key@ == k);
        }
        if ib > n - 1 {
            assert(calls[n - 1].key@ != k);
        }
        if ia > i {
            assert(calls[i].key@ != prev[a]);
        }
    }
}

} // verus!

verus! {

/// The distinct variants of a call table, in order of first occurrence.
pub fn find_unique_vars(calls: &Vec<CallRecord>) -> (r: Vec<VariantKey>)
    ensures
        key_views(r@) == unique_keys(calls@),
{
    group_calls(calls).keys
}

} // verus!
