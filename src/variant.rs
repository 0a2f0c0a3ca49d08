use vstd::prelude::*;
use crate::bytes::{bytes_equal, copy_bytes};

verus! {

/// What identifies a variant: chromosome, 1-based position, reference
/// allele and alternate allele, compared exactly as given.
#[derive(Debug, PartialEq, Eq)]
pub struct VariantKey {
    pub chrom: Vec<u8>,
    pub pos: u32,
    pub ref_allele: Vec<u8>,
    pub alt_allele: Vec<u8>,
}

/// The mathematical value of a variant key.
pub type KeyView = (Seq<u8>, u32, Seq<u8>, Seq<u8>);

impl View for VariantKey {
    type V = KeyView;

    open spec fn view(&self) -> KeyView {
        (self.chrom@, self.pos, self.ref_allele@, self.alt_allele@)
    }
}

/// One row of the call table: a carrier observed for a variant.
#[derive(Debug, PartialEq, Eq)]
pub struct CallRecord {
    pub key: VariantKey,
    pub carrier: Vec<u8>,
}

impl VariantKey {
    pub fn new(chrom: Vec<u8>, pos: u32, ref_allele: Vec<u8>, alt_allele: Vec<u8>) -> (r: Self)
        ensures
            r@ == (chrom@, pos, ref_allele@, alt_allele@),
    {
        VariantKey { chrom, pos, ref_allele, alt_allele }
    }

    /// Exact comparison of all four fields.
    pub fn same_as(&self, other: &VariantKey) -> (r: bool)
        ensures
            r == (self@ == other@),
    {
        self.pos == other.pos && bytes_equal(&self.chrom, &other.chrom) && bytes_equal(
            &self.ref_allele,
            &other.ref_allele,
        ) && bytes_equal(&self.alt_allele, &other.alt_allele)
    }

    pub fn duplicate(&self) -> (r: VariantKey)
        ensures
            r@ == self@,
    {
        VariantKey {
            chrom: copy_bytes(&self.chrom),
            pos: self.pos,
            ref_allele: copy_bytes(&self.ref_allele),
            alt_allele: copy_bytes(&self.alt_allele),
        }
    }
}

impl CallRecord {
    pub fn new(key: VariantKey, carrier: Vec<u8>) -> (r: Self)
        ensures
            r.key@ == key@,
            r.carrier@ == carrier@,
    {
        CallRecord { key, carrier }
    }
}

/// The views of a sequence of keys.
pub open spec fn key_views(keys: Seq<VariantKey>) -> Seq<KeyView> {
    keys.map_values(|k: VariantKey| k@)
}

/// The distinct keys among the first `n` calls, in order of first occurrence.
pub open spec fn unique_prefix(calls: Seq<CallRecord>, n: nat) -> Seq<KeyView>
    decreases n,
{
    if n == 0 {
        seq![]
    } else {
        let prev = unique_prefix(calls, (n - 1) as nat);
        let k = calls[n - 1].key@;
        if prev.contains(k) {
            prev
        } else {
            prev.push(k)
        }
    }
}

/// The distinct keys of a call table, in order of first occurrence.
pub open spec fn unique_keys(calls: Seq<CallRecord>) -> Seq<KeyView> {
    unique_prefix(calls, calls.len())
}

/// Some call among the first `n` names `sample` as a carrier of `k`.
pub open spec fn carrier_upto(calls: Seq<CallRecord>, n: int, k: KeyView, sample: Seq<u8>) -> bool {
    exists|i: int| 0 <= i < n && #[trigger] calls[i].key@ == k && calls[i].carrier@ == sample
}

/// Some call of the table names `sample` as a carrier of `k`.
pub open spec fn is_carrier(calls: Seq<CallRecord>, k: KeyView, sample: Seq<u8>) -> bool {
    carrier_upto(calls, calls.len() as int, k, sample)
}

/// A byte string equal to `s` is among `v`.
pub open spec fn holds_bytes(v: Seq<Vec<u8>>, s: Seq<u8>) -> bool {
    exists|j: int| 0 <= j < v.len() && #[trigger] v[j]@ == s
}

/// Returns whether a byte string equal to `s` is among `v`.
pub fn contains_bytes(v: &Vec<Vec<u8>>, s: &Vec<u8>) -> (r: bool)
    ensures
        r == holds_bytes(v@, s@),
{
    let mut j: usize = 0;
    while j < v.len()
        invariant
            0 <= j <= v@.len(),
            forall|t: int| 0 <= t < j ==> v@[t]@ != s@,
        decreases v@.len() - j,
    {
        if bytes_equal(&v[j], s) {
            return true;
        }
        j = j + 1;
    }
    false
}

} // verus!
