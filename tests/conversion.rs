use carrier_bcf::catalog::{contig_index, contig_length_of, contig_name_of, to_decimal};
use carrier_bcf::genotype::{encode_genotype, encode_genotypes, write_genotypes, Allele, Genotype, HetPhasing};
use carrier_bcf::grouping::{find_unique_vars, group_calls};
use carrier_bcf::header::{prepare_header, write_contigs};
use carrier_bcf::record::{build_record, build_records, ConvertError, VariantRecord};
use carrier_bcf::samples::read_samples;
use carrier_bcf::variant::{CallRecord, VariantKey};

fn key(chrom: &str, pos: u32, r: &str, a: &str) -> VariantKey {
    VariantKey::new(chrom.as_bytes().to_vec(), pos, r.as_bytes().to_vec(), a.as_bytes().to_vec())
}

fn call(chrom: &str, pos: u32, r: &str, a: &str, carrier: &str) -> CallRecord {
    CallRecord::new(key(chrom, pos, r, a), carrier.as_bytes().to_vec())
}

fn ids(names: &[&str]) -> Vec<Vec<u8>> {
    names.iter().map(|s| s.as_bytes().to_vec()).collect()
}

use Genotype::{Het, HomRef};

#[test]
fn scenario_two_variants_three_samples() {
    let samples = ids(&["s1", "s2", "s3"]);
    let calls = vec![
        call("chr1", 100, "A", "T", "s1"),
        call("chr1", 100, "A", "T", "s3"),
        call("chr2", 50, "G", "C", "s2"),
    ];
    let recs = build_records(&calls, &samples).unwrap();
    assert_eq!(recs.len(), 2);
    assert_eq!(recs[0].rid, 0);
    assert_eq!(recs[0].pos, 99);
    assert_eq!(recs[0].alleles, ids(&["A", "T"]));
    assert_eq!(recs[0].genotypes, vec![Het, HomRef, Het]);
    assert_eq!(recs[1].rid, 1);
    assert_eq!(recs[1].pos, 49);
    assert_eq!(recs[1].alleles, ids(&["G", "C"]));
    assert_eq!(recs[1].genotypes, vec![HomRef, Het, HomRef]);
}

#[test]
fn duplicate_call_gives_one_het_entry() {
    let samples = ids(&["s1", "s2"]);
    let calls = vec![call("chr3", 7, "C", "G", "s2"), call("chr3", 7, "C", "G", "s2")];
    let recs = build_records(&calls, &samples).unwrap();
    assert_eq!(recs.len(), 1);
    assert_eq!(recs[0].genotypes, vec![HomRef, Het]);
}

#[test]
fn unknown_contig_aborts() {
    let samples = ids(&["s1"]);
    let calls = vec![
        call("chr1", 5, "A", "T", "s1"),
        call("chrUn", 9, "A", "T", "s1"),
        call("chr2", 5, "", "T", "s1"),
    ];
    match build_records(&calls, &samples) {
        Err(ConvertError::UnknownContig(k)) => assert_eq!(k, key("chrUn", 9, "A", "T")),
        other => panic!("unexpected outcome {:?}", other),
    }
}

#[test]
fn empty_allele_is_rejected() {
    let samples = ids(&["s1"]);
    let calls = vec![call("chr1", 5, "A", "T", "s1"), call("chr2", 5, "A", "", "s1")];
    match build_records(&calls, &samples) {
        Err(ConvertError::AlleleEncoding(k)) => assert_eq!(k, key("chr2", 5, "A", "")),
        other => panic!("unexpected outcome {:?}", other),
    }
    let empty_ref = build_record(&key("chrX", 3, "", "G"), &ids(&[]), &samples);
    assert!(matches!(empty_ref, Err(ConvertError::AlleleEncoding(_))));
}

#[test]
fn contig_checked_before_alleles() {
    let r = build_record(&key("chr99", 3, "", ""), &ids(&[]), &ids(&["a"]));
    assert!(matches!(r, Err(ConvertError::UnknownContig(_))));
}

#[test]
fn empty_table_gives_no_records() {
    let recs = build_records(&vec![], &ids(&["s1", "s2"])).unwrap();
    assert!(recs.is_empty());
}

#[test]
fn record_count_is_distinct_key_count() {
    let calls = vec![
        call("chr1", 1, "A", "T", "1"),
        call("chr1", 1, "A", "G", "1"),
        call("chr1", 1, "A", "T", "2"),
        call("chr1", 2, "A", "T", "2"),
        call("chr1", 1, "a", "T", "3"),
        call("chr1", 1, "A", "G", "3"),
    ];
    let recs = build_records(&calls, &ids(&["1", "2", "3"])).unwrap();
    assert_eq!(recs.len(), 4);
}

#[test]
fn records_follow_first_occurrence_without_sorting() {
    let calls = vec![
        call("chr2", 30, "C", "A", "x"),
        call("chr1", 10, "A", "T", "y"),
        call("chr2", 30, "C", "A", "y"),
        call("chr1", 5, "G", "T", "x"),
    ];
    let unique = find_unique_vars(&calls);
    assert_eq!(unique, vec![key("chr2", 30, "C", "A"), key("chr1", 10, "A", "T"), key("chr1", 5, "G", "T")]);
    let recs = build_records(&calls, &ids(&["x", "y"])).unwrap();
    let order: Vec<(usize, u32)> = recs.iter().map(|r| (r.rid, r.pos)).collect();
    assert_eq!(order, vec![(1, 29), (0, 9), (0, 4)]);
    assert_eq!(recs[0].genotypes, vec![Het, Het]);
    assert_eq!(recs[1].genotypes, vec![HomRef, Het]);
    assert_eq!(recs[2].genotypes, vec![Het, HomRef]);
}

#[test]
fn genotype_vector_follows_sample_order_with_duplicates() {
    let samples = ids(&["b", "a", "b", "c"]);
    let recs = build_records(&vec![call("chrM", 1, "A", "C", "b")], &samples).unwrap();
    assert_eq!(recs[0].genotypes.len(), 4);
    assert_eq!(recs[0].genotypes, vec![Het, HomRef, Het, HomRef]);
    assert_eq!(recs[0].rid, 24);
    assert_eq!(recs[0].pos, 0);
}

#[test]
fn carriers_match_by_exact_bytes() {
    let samples = ids(&["7", "07", "S1"]);
    let calls = vec![call("chr1", 2, "A", "T", "7"), call("chr1", 2, "A", "T", "s1")];
    let recs = build_records(&calls, &samples).unwrap();
    assert_eq!(recs[0].genotypes, vec![Het, HomRef, HomRef]);
}

#[test]
fn carrier_absent_from_samples_is_ignored() {
    let recs = build_records(&vec![call("chr5", 8, "T", "A", "zz")], &ids(&["s1"])).unwrap();
    assert_eq!(recs[0].genotypes, vec![HomRef]);
}

#[test]
fn position_is_stored_zero_based() {
    let r = build_record(&key("chr22", 1, "A", "T"), &ids(&[]), &ids(&[])).unwrap();
    assert_eq!(r.pos, 0);
    assert_eq!(r.rid, 21);
    let r = build_record(&key("chrY", 4294967295, "A", "T"), &ids(&[]), &ids(&[])).unwrap();
    assert_eq!(r.pos, 4294967294);
    assert_eq!(r.rid, 23);
}

#[test]
fn conversion_twice_gives_same_result() {
    let samples = ids(&["1", "2", "3"]);
    let calls = vec![call("chr1", 1, "A", "T", "1"), call("chr1", 2, "T", "G", "2"), call("chr2", 3, "C", "A", "1")];
    let a: Vec<VariantRecord> = build_records(&calls, &samples).unwrap();
    let b: Vec<VariantRecord> = build_records(&calls, &samples).unwrap();
    assert_eq!(a, b);
    let h1 = prepare_header(&samples);
    let h2 = prepare_header(&samples);
    assert_eq!(h1.samples, h2.samples);
    assert_eq!(h1.contig_lines, h2.contig_lines);
    assert_eq!(h1.format_line, h2.format_line);
}

#[test]
fn three_calls_two_chromosomes() {
    let samples = ids(&["1", "2", "3"]);
    let calls = vec![call("chr1", 1, "A", "T", "1"), call("chr1", 2, "T", "G", "2"), call("chr2", 3, "C", "A", "1")];
    let recs = build_records(&calls, &samples).unwrap();
    assert_eq!(recs.len(), 3);
    assert_eq!(recs[0].genotypes, vec![Het, HomRef, HomRef]);
    assert_eq!(recs[1].genotypes, vec![HomRef, Het, HomRef]);
    assert_eq!(recs[2].genotypes, vec![Het, HomRef, HomRef]);
    assert_eq!(recs[2].rid, 1);
    assert_eq!(recs[2].pos, 2);
}

#[test]
fn grouping_collects_carriers_per_variant() {
    let calls = vec![call("chr1", 1, "A", "T", "p"), call("chr2", 1, "A", "T", "q"), call("chr1", 1, "A", "T", "r")];
    let index = group_calls(&calls);
    assert_eq!(index.keys, vec![key("chr1", 1, "A", "T"), key("chr2", 1, "A", "T")]);
    assert_eq!(index.carriers[0], ids(&["p", "r"]));
    assert_eq!(index.carriers[1], ids(&["q"]));
}

#[test]
fn header_declares_samples_contigs_and_format() {
    let h = prepare_header(&ids(&["s2", "s1", "s2"]));
    assert_eq!(h.samples, ids(&["s2", "s1", "s2"]));
    assert_eq!(h.contig_lines.len(), 25);
    assert_eq!(h.contig_lines[0], b"##contig=<ID=chr1,length=248956422>".to_vec());
    assert_eq!(h.contig_lines[9], b"##contig=<ID=chr10,length=133797422>".to_vec());
    assert_eq!(h.contig_lines[22], b"##contig=<ID=chrX,length=156040895>".to_vec());
    assert_eq!(h.contig_lines[24], b"##contig=<ID=chrM,length=16569>".to_vec());
    assert_eq!(h.format_line, b"##FORMAT=<ID=GT,Number=1,Type=String,Description=\"Genotype\">".to_vec());
    assert_eq!(write_contigs(), h.contig_lines);
}

#[test]
fn catalog_names_lengths_and_lookup() {
    assert_eq!(contig_name_of(0), b"chr1".to_vec());
    assert_eq!(contig_name_of(21), b"chr22".to_vec());
    assert_eq!(contig_name_of(23), b"chrY".to_vec());
    assert_eq!(contig_length_of(19), 64444167);
    assert_eq!(contig_index(&b"chr17".to_vec()), Some(16));
    assert_eq!(contig_index(&b"chrM".to_vec()), Some(24));
    assert_eq!(contig_index(&b"1".to_vec()), None);
    assert_eq!(contig_index(&b"CHR1".to_vec()), None);
    assert_eq!(contig_index(&b"chr23".to_vec()), None);
}

#[test]
fn decimal_digits() {
    assert_eq!(to_decimal(0), b"0".to_vec());
    assert_eq!(to_decimal(16569), b"16569".to_vec());
    assert_eq!(to_decimal(u64::MAX), b"18446744073709551615".to_vec());
}

#[test]
fn sample_list_lines() {
    assert_eq!(read_samples(&b"s1\ns2\ns3\n".to_vec()), ids(&["s1", "s2", "s3"]));
    assert_eq!(read_samples(&b"s1\r\n\r\n\ns2\ns1".to_vec()), ids(&["s1", "s2", "s1"]));
    assert_eq!(read_samples(&b"".to_vec()), ids(&[]));
    assert_eq!(read_samples(&b"\n\n".to_vec()), ids(&[]));
    assert_eq!(read_samples(&b" a \n".to_vec()), ids(&[" a "]));
}

#[test]
fn genotype_encoding_both_phasings() {
    assert_eq!(encode_genotype(HomRef, HetPhasing::Unphased), (Allele::Phased(0), Allele::Phased(0)));
    assert_eq!(encode_genotype(HomRef, HetPhasing::Phased), (Allele::Phased(0), Allele::Phased(0)));
    assert_eq!(encode_genotype(Het, HetPhasing::Unphased), (Allele::Unphased(0), Allele::Unphased(1)));
    assert_eq!(encode_genotype(Het, HetPhasing::Phased), (Allele::Phased(0), Allele::Phased(1)));
    let flat = encode_genotypes(&vec![Het, HomRef], HetPhasing::Unphased);
    assert_eq!(flat, vec![Allele::Unphased(0), Allele::Unphased(1), Allele::Phased(0), Allele::Phased(0)]);
}

#[test]
fn genotypes_for_carrier_set() {
    let g = write_genotypes(&ids(&["a", "b", "c"]), &ids(&["c", "a"]));
    assert_eq!(g, vec![Het, HomRef, Het]);
    assert!(write_genotypes(&ids(&[]), &ids(&["a"])).is_empty());
}
