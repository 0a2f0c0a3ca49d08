use vstd::prelude::*;
use vstd::string::StringSliceAdditionalSpecFns;
use crate::bytes::copy_bytes;
use crate::catalog::{
    contig_length, contig_length_of, contig_name, contig_name_of, decimal, to_decimal,
    CONTIG_COUNT,
};

verus! {

/// Everything the output header declares, in the order it is declared:
/// the sample columns, the contig lines, and the genotype format line.
pub struct FileMetadata {
    pub samples: Vec<Vec<u8>>,
    pub contig_lines: Vec<Vec<u8>>,
    pub format_line: Vec<u8>,
}

/// The header line that declares the contig at catalog index `i`.
pub open spec fn contig_line(i: int) -> Seq<u8> {
    "##contig=<ID=".spec_bytes() + contig_name(i) + ",length=".spec_bytes() + decimal(
        contig_length(i) as nat,
    ) + ">".spec_bytes()
}

/// The header line that declares the genotype field.
pub open spec fn format_line() -> Seq<u8> {
    "##FORMAT=<ID=GT,Number=1,Type=String,Description=\"Genotype\">".spec_bytes()
}

/// Appends the bytes of `s` to `v`.
fn push_str(v: &mut Vec<u8>, s: &str)
    ensures
        final(v)@ == old(v)@ + s.spec_bytes(),
{
    let b = s.as_bytes();
    let mut i: usize = 0;
    while i < b.len()
        invariant
            0 <= i <= b@.len(),
            b@ == s.spec_bytes(),
            v@ == old(v)@ + b@.subrange(0, i as int),
        decreases b@.len() - i,
    {
        v.push(b[i]);
        i = i + 1;
        assert(v@ =~= old(v)@ + b@.subrange(0, i as int));
    }
    assert(b@.subrange(0, b@.len() as int) =~= b@);
}

/// Appends the bytes of `w` to `v`.
fn push_bytes(v: &mut Vec<u8>, w: &Vec<u8>)
    ensures
        final(v)@ == old(v)@ + w@,
{
    let mut i: usize = 0;
    while i < w.len()
        invariant
            0 <= i <= w@.len(),
            v@ == old(v)@ + w@.subrange(0, i as int),
        decreases w@.len() - i,
    {
        v.push(w[i]);
        i = i + 1;
        assert(v@ =~= old(v)@ + w@.subrange(0, i as int));
    }
    assert(w@.subrange(0, w@.len() as int) =~= w@);
}

/// The contig lines of the whole catalog, in catalog order.
pub fn write_contigs() -> (r: Vec<Vec<u8>>)
    ensures
        r@.len() == CONTIG_COUNT,
        forall|i: int| 0 <= i < CONTIG_COUNT ==> (#[trigger] r@[i])@ == contig_line(i),
{
    let mut r: Vec<Vec<u8>> = Vec::new();
    let mut i: usize = 0;
    while i < CONTIG_COUNT
        invariant
            0 <= i <= CONTIG_COUNT,
            r@.len() == i,
            forall|t: int| 0 <= t < i ==> (#[trigger] r@[t])@ == contig_line(t),
        decreases CONTIG_COUNT - i,
    {
        let mut line: Vec<u8> = Vec::new();
        push_str(&mut line, "##contig=<ID=");
        push_bytes(&mut line, &contig_name_of(i));
        push_str(&mut line, ",length=");
        push_bytes(&mut line, &to_decimal(contig_length_of(i)));
        push_str(&mut line, ">");
        r.push(line);
        i = i + 1;
    }
    r
}

/// The sample columns, in the given order, duplicates kept.
pub fn write_samples(samples: &Vec<Vec<u8>>) -> (r: Vec<Vec<u8>>)
    ensures
        r@.len() == samples@.len(),
        forall|i: int| 0 <= i < samples@.len() ==> (#[trigger] r@[i])@ == samples@[i]@,
{
    let mut r: Vec<Vec<u8>> = Vec::new();
    let mut i: usize = 0;
    while i < samples.len()
        invariant
            0 <= i <= samples@.len(),
            r@.len() == i,
            forall|t: int| 0 <= t < i ==> (#[trigger] r@[t])@ == samples@[t]@,
        decreases samples@.len() - i,
    {
        r.push(copy_bytes(&samples[i]));
        i = i + 1;
    }
    r
}

/// The header of a file over `samples`.
pub fn prepare_header(samples: &Vec<Vec<u8>>) -> (r: FileMetadata)
    ensures
        r.samples@.len() == samples@.len(),
        forall|i: int| 0 <= i < samples@.len() ==> (#[trigger] r.samples@[i])@ == samples@[i]@,
        r.contig_lines@.len() == CONTIG_COUNT,
        forall|i: int| 0 <= i < CONTIG_COUNT ==> (#[trigger] r.contig_lines@[i])@ == contig_line(i),
        r.format_line@ == format_line(),
{
    let mut gt_line: Vec<u8> = Vec::new();
    push_str(&mut gt_line, "##FORMAT=<ID=GT,Number=1,Type=String,Description=\"Genotype\">");
    assert(gt_line@ =~= format_line());
    FileMetadata { samples: write_samples(samples), contig_lines: write_contigs(), format_line: gt_line }
}

} // verus!
