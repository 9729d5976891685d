//! Small byte-buffer helpers shared across the crate.

use vstd::prelude::*;
use vstd::string::StringSliceAdditionalSpecFns;

verus! {

/// What a string's bytes look like after being right-padded with zero bytes
/// to `size`, or silently truncated when longer: the fixed-width form used
/// for memo, asset name and asset metadata fields.
pub open spec fn spec_pad_truncate(bytes: Seq<u8>, size: nat) -> Seq<u8> {
    Seq::new(size, |i: int| if i < bytes.len() { bytes[i] } else { 0u8 })
}

/// Copies a string into a fixed-size byte buffer. A short string is filled
/// out with zero bytes; an oversized one is cut at `size`. Truncation is a
/// deliberate policy for the fixed-width fields, not an error.
pub fn str_to_array(string: &str, size: usize) -> (r: Vec<u8>)
    ensures
        r@ == spec_pad_truncate(string.spec_bytes(), size as nat),
{
    let bytes = string.as_bytes();
    let n = if bytes.len() < size {
        bytes.len()
    } else {
        size
    };
    let mut arr: Vec<u8> = Vec::new();
    let mut i: usize = 0;
    while i < n
        invariant
            i <= n,
            n <= size,
            n <= bytes@.len(),
            arr@.len() == i,
            forall|j: int| 0 <= j < i ==> arr@[j] == bytes@[j],
        decreases n - i,
    {
        arr.push(bytes[i]);
        i = i + 1;
    }
    while i < size
        invariant
            n <= i <= size,
            n <= bytes@.len(),
            n == if bytes@.len() < size { bytes@.len() as int } else { size as int },
            arr@.len() == i,
            forall|j: int| 0 <= j < n ==> arr@[j] == bytes@[j],
            forall|j: int| n <= j < i ==> arr@[j] == 0u8,
        decreases size - i,
    {
        arr.push(0u8);
        i = i + 1;
    }
    proof {
        assert(arr@ =~= spec_pad_truncate(string.spec_bytes(), size as nat));
    }
    arr
}

/// Compares two byte strings for exact equality.
pub fn bytes_eq(a: &[u8], b: &[u8]) -> (r: bool)
    ensures
        r == (a@ == b@),
{
    if a.len() != b.len() {
        proof {
            assert(a@.len() != b@.len());
        }
        return false;
    }
    let mut i: usize = 0;
    while i < a.len()
        invariant
            i <= a@.len(),
            a@.len() == b@.len(),
            forall|j: int| 0 <= j < i ==> a@[j] == b@[j],
        decreases a@.len() - i,
    {
        if a[i] != b[i] {
            return false;
        }
        i = i + 1;
    }
    proof {
        assert(a@ =~= b@);
    }
    true
}

/// Copies `bytes[start..end]` into a fresh vector.
pub fn slice_range_to_vec(bytes: &[u8], start: usize, end: usize) -> (r: Vec<u8>)
    requires
        start <= end <= bytes@.len(),
    ensures
        r@ == bytes@.subrange(start as int, end as int),
{
    let mut out: Vec<u8> = Vec::new();
    let mut i: usize = start;
    while i < end
        invariant
            start <= i <= end <= bytes@.len(),
            out@ == bytes@.subrange(start as int, i as int),
        decreases end - i,
    {
        out.push(bytes[i]);
        proof {
            assert(out@ =~= bytes@.subrange(start as int, i + 1 as int));
        }
        i = i + 1;
    }
    out
}

} // verus!
