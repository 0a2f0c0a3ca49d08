use vstd::prelude::*;
use crate::bytes::bytes_equal;

verus! {

/// Number of contigs in the reference catalog: chr1 to chr22, chrX, chrY, chrM.
pub const CONTIG_COUNT: usize = 25;

/// The decimal digits of `n`, most significant first.
pub open spec fn decimal(n: nat) -> Seq<u8>
    decreases n,
{
    if n < 10 {
        seq![(48 + n) as u8]
    } else {
        decimal(n / 10).push((48 + n % 10) as u8)
    }
}

/// The name of the contig at catalog index `i`.
pub open spec fn contig_name(i: int) -> Seq<u8> {
    let suffix = if i < 22 {
        decimal((i + 1) as nat)
    } else if i == 22 {
        seq![88u8]
    } else if i == 23 {
        seq![89u8]
    } else {
        seq![77u8]
    };
    seq![99u8, 104u8, 114u8] + suffix
}

/// The GRCh38 length of the contig at catalog index `i`.
pub open spec fn contig_length(i: int) -> u64 {
    if i == 0 { 248956422 }
    else if i == 1 { 242193529 }
    else if i == 2 { 198295559 }
    else if i == 3 { 190214555 }
    else if i == 4 { 181538259 }
    else if i == 5 { 170805979 }
    else if i == 6 { 159345973 }
    else if i == 7 { 145138636 }
    else if i == 8 { 138394717 }
    else if i == 9 { 133797422 }
    else if i == 10 { 135086622 }
    else if i == 11 { 133275309 }
    else if i == 12 { 114364328 }
    else if i == 13 { 107043718 }
    else if i == 14 { 101991189 }
    else if i == 15 { 90338345 }
    else if i == 16 { 83257441 }
    else if i == 17 { 80373285 }
    else if i == 18 { 58617616 }
    else if i == 19 { 64444167 }
    else if i == 20 { 46709983 }
    else if i == 21 { 50818468 }
    else if i == 22 { 156040895 }
    else if i == 23 { 57227415 }
    else { 16569 }
}

/// The decimal digits of `n`.
pub fn to_decimal(n: u64) -> (r: Vec<u8>)
    ensures
        r@ == decimal(n as nat),
    decreases n,
{
    if n < 10 {
        let mut r: Vec<u8> = Vec::new();
        r.push(48u8 + n as u8);
        assert(r@ =~= decimal(n as nat));
        r
    } else {
        let mut r = to_decimal(n / 10);
        r.push(48u8 + (n % 10) as u8);
        r
    }
}

/// The name of the contig at catalog index `i`.
pub fn contig_name_of(i: usize) -> (r: Vec<u8>)
    requires
        i < CONTIG_COUNT,
    ensures
        r@ == contig_name(i as int),
{
    let mut r: Vec<u8> = Vec::new();
    r.push(99u8);
    r.push(104u8);
    r.push(114u8);
    let ghost head = r@;
    if i < 22 {
        let mut digits = to_decimal((i + 1) as u64);
        r.append(&mut digits);
    } else if i == 22 {
        r.push(88u8);
    } else if i == 23 {
        r.push(89u8);
    } else {
        r.push(77u8);
    }
    assert(head =~= seq![99u8, 104u8, 114u8]);
    assert(r@ =~= contig_name(i as int));
    r
}

/// The length of the contig at catalog index `i`.
pub fn contig_length_of(i: usize) -> (r: u64)
    requires
        i < CONTIG_COUNT,
    ensures
        r == contig_length(i as int),
{
    let lengths: [u64; 25] = [
        248956422, 242193529, 198295559, 190214555, 181538259, 170805979, 159345973, 145138636,
        138394717, 133797422, 135086622, 133275309, 114364328, 107043718, 101991189, 90338345,
        83257441, 80373285, 58617616, 64444167, 46709983, 50818468, 156040895, 57227415, 16569,
    ];
    lengths[i]
}

/// The catalog index of a contig name, if the catalog has it.
pub fn contig_index(chrom: &Vec<u8>) -> (r: Option<usize>)
    ensures
        match r {
            Some(i) => i < CONTIG_COUNT && contig_name(i as int) == chrom@ && forall|t: int|
                0 <= t < i ==> contig_name(t) != chrom@,
            None => forall|i: int| 0 <= i < CONTIG_COUNT ==> contig_name(i) != chrom@,
        },
{
    let mut i: usize = 0;
    while i < CONTIG_COUNT
        invariant
            0 <= i <= CONTIG_COUNT,
            forall|t: int| 0 <= t < i ==> contig_name(t) != chrom@,
        decreases CONTIG_COUNT - i,
    {
        let name = contig_name_of(i);
        if bytes_equal(&name, chrom) {
            return Some(i);
        }
        i = i + 1;
    }
    None
}

} // verus!
