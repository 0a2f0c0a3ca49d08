use vstd::prelude::*;

verus! {

/// A line without the carriage return that ends it, if any.
pub open spec fn strip_cr(line: Seq<u8>) -> Seq<u8> {
    if line.len() > 0 && line.last() == 13u8 {
        line.drop_last()
    } else {
        line
    }
}

/// Reading the first `n` bytes of a sample list: the identifiers of the
/// finished non-empty lines, and the bytes of the line still open.
pub open spec fn scan_samples(text: Seq<u8>, n: nat) -> (Seq<Seq<u8>>, Seq<u8>)
    decreases n,
{
    if n == 0 {
        (seq![], seq![])
    } else {
        let (done, open) = scan_samples(text, (n - 1) as nat);
        if text[n - 1] == 10u8 {
            if strip_cr(open).len() > 0 {
                (done.push(strip_cr(open)), seq![])
            } else {
                (done, seq![])
            }
        } else {
            (done, open.push(text[n - 1]))
        }
    }
}

/// The sample identifiers of a sample list: one per non-empty line, in file
/// order, duplicates kept. A line ends at a line feed, which drops a carriage
/// return before it; the last line needs no line feed.
pub open spec fn sample_lines(text: Seq<u8>) -> Seq<Seq<u8>> {
    let (done, open) = scan_samples(text, text.len());
    if open.len() > 0 {
        done.push(open)
    } else {
        done
    }
}

/// Parses a sample list into its identifiers.
pub fn read_samples(text: &Vec<u8>) -> (r: Vec<Vec<u8>>)
    ensures
        r@.len() == sample_lines(text@).len(),
        forall|i: int| 0 <= i < r@.len() ==> (#[trigger] r@[i])@ == sample_lines(text@)[i],
{
    let mut done: Vec<Vec<u8>> = Vec::new();
    let mut open: Vec<u8> = Vec::new();
    let mut i: usize = 0;
    while i < text.len()
        invariant
            0 <= i <= text@.len(),
            done@.len() == scan_samples(text@, i as nat).0.len(),
            forall|t: int| 0 <= t < done@.len() ==> (#[trigger] done@[t])@ == scan_samples(text@, i as nat).0[t],
            open@ == scan_samples(text@, i as nat).1,
        decreases text@.len() - i,
    {
        let c = text[i];
        if c == 10u8 {
            let mut line = open;
            if line.len() > 0 && line[line.len() - 1] == 13u8 {
                line.pop();
            }
            assert(line@ == strip_cr(scan_samples(text@, i as nat).1)) by {
                let o = scan_samples(text@, i as nat).1;
                if o.len() > 0 && o.last() == 13u8 {
                    assert(line@ =~= o.drop_last());
                }
            }
            if line.len() > 0 {
                done.push(line);
            }
            open = Vec::new();
        } else {
            open.push(c);
        }
        i = i + 1;
        assert(open@ =~= scan_samples(text@, i as nat).1);
    }
    if open.len() > 0 {
        done.push(open);
    }
    done
}

} // verus!
