//! The end marker: sixty-four unset bits that follow the payload's bits and
//! tell a reader where the payload stops.

use vstd::prelude::*;

verus! {

/// The number of unset bits that make up the end marker.
pub const MARKER_BITS: usize = 64;

/// The end marker: sixty-four unset bits.
pub open spec fn marker() -> Seq<bool> {
    Seq::new(64, |i: int| false)
}

/// Whether the sixty-four bits of `bits` that start at `k` exist and are all unset.
pub open spec fn zeros_at(bits: Seq<bool>, k: int) -> bool {
    &&& 0 <= k
    &&& k + 64 <= bits.len()
    &&& forall|i: int| k <= i < k + 64 ==> !bits[i]
}

/// Whether `k` is where a reader of `bits` finds the payload to end: the first
/// place at which sixty-four unset bits start.
pub open spec fn is_marker_offset(bits: Seq<bool>, k: int) -> bool {
    &&& zeros_at(bits, k)
    &&& forall|j: int| 0 <= j < k ==> !zeros_at(bits, j)
}

/// The length of the payload that `bits` frames, if `bits` holds a marker.
pub open spec fn marker_offset(bits: Seq<bool>) -> Option<int> {
    if exists|k: int| is_marker_offset(bits, k) {
        Some(choose|k: int| is_marker_offset(bits, k))
    } else {
        None
    }
}

/// A stream has at most one marker offset, so one that is known is the offset.
pub proof fn lemma_marker_offset_found(bits: Seq<bool>, k: int)
    requires
        is_marker_offset(bits, k),
    ensures
        marker_offset(bits) == Some(k),
{
    let c = choose|c: int| is_marker_offset(bits, c);
    assert(is_marker_offset(bits, c));
    if c < k {
        assert(!zeros_at(bits, c));
    }
    if k < c {
        assert(!zeros_at(bits, k));
    }
}

/// A stream without a run of sixty-four unset bits has no marker offset.
pub proof fn lemma_marker_offset_absent(bits: Seq<bool>)
    requires
        forall|k: int| !zeros_at(bits, k),
    ensures
        marker_offset(bits) is None,
{
}

/// A stream with a run of sixty-four unset bits has a marker offset, at or in
/// front of that run.
pub proof fn lemma_marker_offset_exists(bits: Seq<bool>, j: int)
    requires
        zeros_at(bits, j),
    ensures
        marker_offset(bits) matches Some(k) && 0 <= k <= j && is_marker_offset(bits, k),
    decreases j,
{
    if exists|i: int| 0 <= i < j && zeros_at(bits, i) {
        let i = choose|i: int| 0 <= i < j && zeros_at(bits, i);
        lemma_marker_offset_exists(bits, i);
    } else {
        assert(is_marker_offset(bits, j));
        lemma_marker_offset_found(bits, j);
    }
}

/// Whether one of the sixty-four bits of `bits` that start at `j` is set.
pub open spec fn set_bit_within(bits: Seq<bool>, j: int) -> bool {
    exists|i: int| j <= i < j + 64 && 0 <= i < bits.len() && bits[i]
}

/// A reader stops only behind sixty-four unset bits, and behind the first
/// such run: a shorter run of unset bits inside the payload does not end it.
pub proof fn lemma_marker_offset_is_first_full_run(bits: Seq<bool>, k: int)
    requires
        marker_offset(bits) == Some(k),
    ensures
        0 <= k <= bits.len() - 64,
        forall|i: int| k <= i < k + 64 ==> !bits[i],
        forall|j: int| 0 <= j < k ==> set_bit_within(bits, j),
{
    assert(is_marker_offset(bits, k));
    assert forall|j: int| 0 <= j < k implies set_bit_within(bits, j) by {
        assert(!zeros_at(bits, j));
    }
}

/// Appends the end marker to `bits`.
pub fn append_marker(bits: &mut Vec<bool>)
    ensures
        final(bits)@ == old(bits)@ + marker(),
{
    let mut n: usize = 0;
    while n < MARKER_BITS
        invariant
            n <= MARKER_BITS,
            bits@.len() == old(bits)@.len() + n,
            forall|i: int| 0 <= i < old(bits)@.len() ==> bits@[i] == old(bits)@[i],
            forall|i: int| old(bits)@.len() <= i < bits@.len() ==> !bits@[i],
        decreases MARKER_BITS - n,
    {
        bits.push(false);
        n += 1;
    }
    assert(bits@ =~= old(bits)@ + marker());
}

} // verus!
