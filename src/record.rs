use vstd::prelude::*;
use crate::bytes::copy_bytes;
use crate::catalog::{contig_index, contig_name, CONTIG_COUNT};
use crate::genotype::{genotype_of, write_genotypes, Genotype};
use crate::grouping::{distinct_keys, group_calls, law_unique_keys_are_distinct_keys};
use crate::variant::{is_carrier, unique_keys, CallRecord, KeyView, VariantKey};

verus! {

/// One output record: contig index, zero-based position, the reference and
/// alternate alleles, and one genotype per sample.
#[derive(Debug, PartialEq, Eq)]
pub struct VariantRecord {
    pub rid: usize,
    pub pos: u32,
    pub alleles: Vec<Vec<u8>>,
    pub genotypes: Vec<Genotype>,
}

/// The mathematical value of a record.
pub type RecordView = (usize, u32, Seq<Seq<u8>>, Seq<Genotype>);

impl View for VariantRecord {
    type V = RecordView;

    open spec fn view(&self) -> RecordView {
        (self.rid, self.pos, self.alleles@.map_values(|a: Vec<u8>| a@), self.genotypes@)
    }
}

/// Why a variant cannot be written; each names the offending variant.
#[derive(Debug, PartialEq, Eq)]
pub enum ConvertError {
    /// The chromosome is not in the contig catalog.
    UnknownContig(VariantKey),
    /// The reference or the alternate allele is empty.
    AlleleEncoding(VariantKey),
}

/// The chromosome of `k` is in the contig catalog.
pub open spec fn known_contig(k: KeyView) -> bool {
    exists|i: int| 0 <= i < CONTIG_COUNT && #[trigger] contig_name(i) == k.0
}

/// Both alleles of `k` are non-empty.
pub open spec fn alleles_ok(k: KeyView) -> bool {
    k.2.len() > 0 && k.3.len() > 0
}

/// `k` can be written as a record.
pub open spec fn writable(k: KeyView) -> bool {
    known_contig(k) && alleles_ok(k)
}

/// `e` is the error that reports the key `k`.
pub open spec fn error_for(e: ConvertError, k: KeyView) -> bool {
    match e {
        ConvertError::UnknownContig(key) => !known_contig(k) && key@ == k,
        ConvertError::AlleleEncoding(key) => known_contig(k) && !alleles_ok(k) && key@ == k,
    }
}

/// The fields of `rec` other than its genotypes are those of key `k`, and it
/// has `n` genotypes. The contig index is the first catalog entry named `k.0`.
pub open spec fn record_fields(rec: VariantRecord, k: KeyView, n: int) -> bool {
    &&& rec.rid < CONTIG_COUNT
    &&& contig_name(rec.rid as int) == k.0
    &&& forall|t: int| 0 <= t < rec.rid ==> contig_name(t) != k.0
    &&& rec.pos as int == k.1 - 1
    &&& rec.alleles@.len() == 2
    &&& rec.alleles@[0]@ == k.2
    &&& rec.alleles@[1]@ == k.3
    &&& rec.genotypes@.len() == n
}

/// `rec` is the record of key `k` given its carriers, over `samples`.
pub open spec fn record_with_carriers(
    rec: VariantRecord,
    k: KeyView,
    carriers: Seq<Vec<u8>>,
    samples: Seq<Vec<u8>>,
) -> bool {
    &&& record_fields(rec, k, samples.len() as int)
    &&& forall|i: int|
        0 <= i < samples.len() ==> #[trigger] rec.genotypes@[i] == genotype_of(carriers, samples[i]@)
}

/// `rec` is the record of key `k` for the call table `calls` over `samples`.
pub open spec fn record_for(
    rec: VariantRecord,
    k: KeyView,
    calls: Seq<CallRecord>,
    samples: Seq<Vec<u8>>,
) -> bool {
    &&& record_fields(rec, k, samples.len() as int)
    &&& forall|i: int|
        0 <= i < samples.len() ==> #[trigger] rec.genotypes@[i] == (if is_carrier(
            calls,
            k,
            samples[i]@,
        ) {
            Genotype::Het
        } else {
            Genotype::HomRef
        })
}

/// `r` is the outcome of converting `calls` over `samples`: one record per
/// distinct key in order of first occurrence, or the error of the first key
/// in that order that cannot be written.
pub open spec fn converted(
    calls: Seq<CallRecord>,
    samples: Seq<Vec<u8>>,
    r: Result<Vec<VariantRecord>, ConvertError>,
) -> bool {
    let keys = unique_keys(calls);
    match r {
        Ok(recs) => {
            &&& forall|j: int| 0 <= j < keys.len() ==> writable(#[trigger] keys[j])
            &&& recs@.len() == keys.len()
            &&& forall|j: int| 0 <= j < keys.len() ==> record_for(#[trigger] recs@[j], keys[j], calls, samples)
        },
        Err(e) => exists|j: int|
            0 <= j < keys.len() && error_for(e, #[trigger] keys[j]) && forall|t: int|
                0 <= t < j ==> writable(#[trigger] keys[t]),
    }
}

/// Builds the record of one variant from its carriers.
pub fn build_record(key: &VariantKey, carriers: &Vec<Vec<u8>>, samples: &Vec<Vec<u8>>) -> (r: Result<
    VariantRecord,
    ConvertError,
>)
    requires
        key.pos >= 1,
    ensures
        match r {
            Ok(rec) => writable(key@) && record_with_carriers(rec, key@, carriers@, samples@),
            Err(e) => !writable(key@) && error_for(e, key@),
        },
{
    let rid = match contig_index(&key.chrom) {
        Some(i) => i,
        None => {
            return Err(ConvertError::UnknownContig(key.duplicate()));
        },
    };
    if key.ref_allele.len() == 0 || key.alt_allele.len() == 0 {
        return Err(ConvertError::AlleleEncoding(key.duplicate()));
    }
    let mut alleles: Vec<Vec<u8>> = Vec::new();
    alleles.push(copy_bytes(&key.ref_allele));
    alleles.push(copy_bytes(&key.alt_allele));
    let genotypes = write_genotypes(samples, carriers);
    Ok(VariantRecord { rid, pos: key.pos - 1, alleles, genotypes })
}

/// Converts a call table into one record per distinct variant over `samples`.
pub fn build_records(calls: &Vec<CallRecord>, samples: &Vec<Vec<u8>>) -> (r: Result<
    Vec<VariantRecord>,
    ConvertError,
>)
    requires
        forall|i: int| 0 <= i < calls@.len() ==> (#[trigger] calls@[i]).key.pos >= 1,
    ensures
        converted(calls@, samples@, r),
{
    let index = group_calls(calls);
    let ghost keys = unique_keys(calls@);
    let mut recs: Vec<VariantRecord> = Vec::new();
    let mut j: usize = 0;
    while j < index.keys.len()
        invariant
            index.describes(calls@),
            0 <= j <= index.keys@.len(),
            keys == unique_keys(calls@),
            keys.len() == index.keys@.len(),
            forall|t: int| 0 <= t < index.keys@.len() ==> keys[t] == (#[trigger] index.keys@[t])@,
            forall|i: int| 0 <= i < calls@.len() ==> (#[trigger] calls@[i]).key.pos >= 1,
            recs@.len() == j,
            forall|t: int| 0 <= t < j ==> writable(#[trigger] keys[t]),
            forall|t: int| 0 <= t < j ==> record_for(#[trigger] recs@[t], keys[t], calls@, samples@),
        decreases index.keys@.len() - j,
    {
        proof {
            assert(keys[j as int] == index.keys@[j as int]@);
            crate::grouping::lemma_index_key_in_calls(index, calls@, j as int);
        }
        match build_record(&index.keys[j], &index.carriers[j], samples) {
            Ok(rec) => {
                assert(record_for(rec, keys[j as int], calls@, samples@)) by {
                    assert forall|i: int| 0 <= i < samples@.len() implies #[trigger] rec.genotypes@[i]
                        == (if is_carrier(calls@, keys[j as int], samples@[i]@) {
                        Genotype::Het
                    } else {
                        Genotype::HomRef
                    }) by {
                        assert(crate::variant::holds_bytes(index.carriers@[j as int]@, samples@[i]@)
                            == is_carrier(calls@, index.keys@[j as int]@, samples@[i]@));
                    }
                }
                recs.push(rec);
            },
            Err(e) => {
                return Err(e);
            },
        }
        j = j + 1;
    }
    Ok(recs)
}

/// What an error reports: whether the contig was unknown, and the variant.
pub open spec fn error_view(e: ConvertError) -> (bool, KeyView) {
    match e {
        ConvertError::UnknownContig(k) => (true, k@),
        ConvertError::AlleleEncoding(k) => (false, k@),
    }
}

/// The mathematical value of a conversion outcome.
pub open spec fn outcome_view(r: Result<Vec<VariantRecord>, ConvertError>) -> Result<
    Seq<RecordView>,
    (bool, KeyView),
> {
    match r {
        Ok(recs) => Ok(recs@.map_values(|rec: VariantRecord| rec@)),
        Err(e) => Err(error_view(e)),
    }
}

/// A successful conversion emits exactly one record per distinct variant of the table.
pub proof fn law_record_count(calls: Seq<CallRecord>, samples: Seq<Vec<u8>>, recs: Vec<VariantRecord>)
    requires
        converted(calls, samples, Ok(recs)),
    ensures
        recs@.len() == distinct_keys(calls).len(),
{
    law_unique_keys_are_distinct_keys(calls);
}

/// Converting the same table over the same samples twice gives the same outcome:
/// the same records with the same genotype vectors, or the same error.
pub proof fn law_conversion_is_deterministic(
    calls: Seq<CallRecord>,
    samples: Seq<Vec<u8>>,
    r1: Result<Vec<VariantRecord>, ConvertError>,
    r2: Result<Vec<VariantRecord>, ConvertError>,
)
    requires
        converted(calls, samples, r1),
        converted(calls, samples, r2),
    ensures
        outcome_view(r1) == outcome_view(r2),
{
    let keys = unique_keys(calls);
    match (r1, r2) {
        (Ok(a), Ok(b)) => {
            assert forall|j: int| 0 <= j < a@.len() implies #[trigger] a@[j]@ == b@[j]@ by {
                let (x, y) = (a@[j], b@[j]);
                assert(record_for(x, keys[j], calls, samples));
                assert(record_for(y, keys[j], calls, samples));
                if x.rid < y.rid {
                    assert(contig_name(x.rid as int) != keys[j].0);
                }
                if y.rid < x.rid {
                    assert(contig_name(y.rid as int) != keys[j].0);
                }
                assert(x.alleles@.map_values(|v: Vec<u8>| v@) =~= y.alleles@.map_values(|v: Vec<u8>| v@));
                assert(x.genotypes@ =~= y.genotypes@);
            }
            assert(a@.map_values(|rec: VariantRecord| rec@) =~= b@.map_values(|rec: VariantRecord| rec@));
        },
        (Ok(a), Err(e)) => {
            let j = choose|j: int| 0 <= j < keys.len() && error_for(e, #[trigger] keys[j]) && forall|t: int|
                0 <= t < j ==> writable(#[trigger] keys[t]);
            assert(writable(keys[j]));
        },
        (Err(e), Ok(b)) => {
            let j = choose|j: int| 0 <= j < keys.len() && error_for(e, #[trigger] keys[j]) && forall|t: int|
                0 <= t < j ==> writable(#[trigger] keys[t]);
            assert(writable(keys[j]));
        },
        (Err(e1), Err(e2)) => {
            let j1 = choose|j: int| 0 <= j < keys.len() && error_for(e1, #[trigger] keys[j]) && forall|t: int|
                0 <= t < j ==> writable(#[trigger] keys[t]);
            let j2 = choose|j: int| 0 <= j < keys.len() && error_for(e2, #[trigger] keys[j]) && forall|t: int|
                0 <= t < j ==> writable(#[trigger] keys[t]);
            if j1 < j2 {
                assert(writable(keys[j1]));
            }
            if j2 < j1 {
                assert(writable(keys[j2]));
            }
        },
    }
}

} // verus!
