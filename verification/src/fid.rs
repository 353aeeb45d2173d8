//! The bit vector with rank and select that stores the tree, and what this
//! library takes for granted about it.
//!
//! Nothing in this file is proved. Each item states, over the counting model of
//! [`crate::bits`], what the `fid_rs` crate documents of one of its functions.

use fid_rs::Fid;
use vstd::prelude::*;

use crate::bits::{count_ones, count_zeros, is_nth_one, is_nth_zero};

verus! {

/// The bit vector of `fid_rs`, taken as it is: nothing inside it is visible to
/// the proofs.
#[verifier::external_type_specification]
#[verifier::external_body]
pub struct ExFid(Fid);

/// The bits that a `Fid` holds, first bit first.
pub uninterp spec fn fid_bits(fid: &Fid) -> Seq<bool>;

/// `Fid::clone`, which `Fid` derives: a `Fid` that holds the same bits.
pub assume_specification[ <Fid as Clone>::clone ](fid: &Fid) -> (copy: Fid)
    ensures
        fid_bits(&copy) == fid_bits(fid),
;

/// `Fid::len`: the number of bits held.
pub assume_specification[ Fid::len ](fid: &Fid) -> (n: u64)
    ensures
        n == fid_bits(fid).len(),
;

/// `Fid::rank`: how many of the bits at positions `0..=i` are set. It panics
/// for a position past the end, which `requires` leaves out.
pub assume_specification[ Fid::rank ](fid: &Fid, i: u64) -> (r: u64)
    requires
        i < fid_bits(fid).len(),
    ensures
        r == count_ones(fid_bits(fid), i + 1),
;

/// `Fid::rank0`: how many of the bits at positions `0..=i` are clear. It
/// panics for a position past the end, which `requires` leaves out.
pub assume_specification[ Fid::rank0 ](fid: &Fid, i: u64) -> (r: u64)
    requires
        i < fid_bits(fid).len(),
    ensures
        r == count_zeros(fid_bits(fid), i + 1),
;

/// `Fid::select`: the position of the `num`-th set bit, counted from 1, or
/// `None` when fewer than `num` bits are set. It panics for a `num` above the
/// length; `num == 0` is left out as well, since no bit is the zeroth.
pub assume_specification[ Fid::select ](fid: &Fid, num: u64) -> (r: Option<u64>)
    requires
        0 < num <= fid_bits(fid).len(),
    ensures
        match r {
            Some(p) => is_nth_one(fid_bits(fid), num as int, p as int),
            None => count_ones(fid_bits(fid), fid_bits(fid).len() as int) < num,
        },
;

/// `Fid::select0`: the position of the `num`-th clear bit, counted from 1, or
/// `None` when fewer than `num` bits are clear. It panics for a `num` above the
/// length; `num == 0` is left out as well, since no bit is the zeroth.
pub assume_specification[ Fid::select0 ](fid: &Fid, num: u64) -> (r: Option<u64>)
    requires
        0 < num <= fid_bits(fid).len(),
    ensures
        match r {
            Some(p) => is_nth_zero(fid_bits(fid), num as int, p as int),
            None => count_zeros(fid_bits(fid), fid_bits(fid).len() as int) < num,
        },
;

/// Indexing a `Fid` (`Index<u64>`): the bit at position `i`. It panics for a
/// position past the end, which `requires` leaves out.
#[verifier::external_body]
pub(crate) fn fid_get(fid: &Fid, i: u64) -> (bit: bool)
    requires
        i < fid_bits(fid).len(),
    ensures
        bit == fid_bits(fid)[i as int],
{
    fid[i]
}

/// `Fid::from(&[bool])`: a `Fid` that holds exactly `bits`. It panics on an
/// empty slice, which `requires` leaves out.
#[verifier::external_body]
pub(crate) fn fid_from_bits(bits: &[bool]) -> (fid: Fid)
    requires
        bits@.len() > 0,
    ensures
        fid_bits(&fid) == bits@,
{
    Fid::from(bits)
}

} // verus!
