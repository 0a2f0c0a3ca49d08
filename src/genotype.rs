use vstd::prelude::*;
use crate::variant::{contains_bytes, holds_bytes};

verus! {

/// The two genotype states a sample can have at a variant.
#[derive(Clone, Copy, Debug, PartialEq, Eq, Structural)]
pub enum Genotype {
    /// Homozygous reference: not a carrier.
    HomRef,
    /// Heterozygous: a carrier.
    Het,
}

/// One allele of an encoded genotype: an allele index, with or without the
/// phase flag.
#[derive(Clone, Copy, Debug, PartialEq, Eq, Structural)]
pub enum Allele {
    Phased(u32),
    Unphased(u32),
}

/// How the alleles of a heterozygous genotype are written.
#[derive(Clone, Copy, Debug, PartialEq, Eq, Structural)]
pub enum HetPhasing {
    /// `0|1`
    Phased,
    /// `0/1`
    Unphased,
}

/// The genotype of a sample given the carriers of a variant.
pub open spec fn genotype_of(carriers: Seq<Vec<u8>>, sample: Seq<u8>) -> Genotype {
    if holds_bytes(carriers, sample) {
        Genotype::Het
    } else {
        Genotype::HomRef
    }
}

/// The two alleles that encode a genotype.
pub open spec fn alleles_of(g: Genotype, phasing: HetPhasing) -> (Allele, Allele) {
    match g {
        Genotype::HomRef => (Allele::Phased(0), Allele::Phased(0)),
        Genotype::Het => match phasing {
            HetPhasing::Phased => (Allele::Phased(0), Allele::Phased(1)),
            HetPhasing::Unphased => (Allele::Unphased(0), Allele::Unphased(1)),
        },
    }
}

/// The genotype vector of one variant over all samples, in sample order.
pub fn write_genotypes(samples: &Vec<Vec<u8>>, carriers: &Vec<Vec<u8>>) -> (r: Vec<Genotype>)
    ensures
        r@.len() == samples@.len(),
        forall|i: int| 0 <= i < samples@.len() ==> #[trigger] r@[i] == genotype_of(carriers@, samples@[i]@),
{
    let mut r: Vec<Genotype> = Vec::new();
    let mut i: usize = 0;
    while i < samples.len()
        invariant
            0 <= i <= samples@.len(),
            r@.len() == i,
            forall|t: int| 0 <= t < i ==> #[trigger] r@[t] == genotype_of(carriers@, samples@[t]@),
        decreases samples@.len() - i,
    {
        if contains_bytes(carriers, &samples[i]) {
            r.push(Genotype::Het);
        } else {
            r.push(Genotype::HomRef);
        }
        i = i + 1;
    }
    r
}

/// The alleles of one genotype.
pub fn encode_genotype(g: Genotype, phasing: HetPhasing) -> (r: (Allele, Allele))
    ensures
        r == alleles_of(g, phasing),
{
    match g {
        Genotype::HomRef => (Allele::Phased(0), Allele::Phased(0)),
        Genotype::Het => match phasing {
            HetPhasing::Phased => (Allele::Phased(0), Allele::Phased(1)),
            HetPhasing::Unphased => (Allele::Unphased(0), Allele::Unphased(1)),
        },
    }
}

/// The alleles of a genotype vector laid end to end, two per sample.
pub fn encode_genotypes(gts: &Vec<Genotype>, phasing: HetPhasing) -> (r: Vec<Allele>)
    requires
        gts@.len() <= usize::MAX / 2,
    ensures
        r@.len() == 2 * gts@.len(),
        forall|i: int|
            0 <= i < gts@.len() ==> (r@[2 * i], r@[2 * i + 1]) == alleles_of(
                #[trigger] gts@[i],
                phasing,
            ),
{
    let mut r: Vec<Allele> = Vec::new();
    let mut i: usize = 0;
    while i < gts.len()
        invariant
            0 <= i <= gts@.len(),
            r@.len() == 2 * i,
            forall|t: int|
                0 <= t < i ==> (r@[2 * t], r@[2 * t + 1]) == alleles_of(#[trigger] gts@[t], phasing),
        decreases gts@.len() - i,
    {
        let (a, b) = encode_genotype(gts[i], phasing);
        r.push(a);
        r.push(b);
        i = i + 1;
    }
    r
}

} // verus!
