//! Random choices, all drawn from the thread's random source.

use vstd::prelude::*;
use rand::seq::IteratorRandom;
use crate::synth::{byte_class_empty, char_class_empty, in_byte_class, in_char_class};

verus! {

/// Relies on rand's `Rng::gen_range` on `lo..=hi`, which returns a value
/// of that range (and panics on an empty one).
#[verifier::external_body]
pub(crate) fn random_in(lo: i64, hi: i64) -> (r: i64)
    requires
        lo <= hi,
    ensures
        lo <= r <= hi,
{
    rand::Rng::gen_range(&mut rand::thread_rng(), lo..=hi)
}

/// How many integers a range holds, at least one.
pub fn range_weight(r: &(i64, i64)) -> (w: u128)
    ensures
        w == if r.0 <= r.1 {
            r.1 - r.0 + 1
        } else {
            1
        },
{
    if r.0 <= r.1 {
        (r.1 as i128 - r.0 as i128 + 1) as u128
    } else {
        1
    }
}

/// Relies on rand's `SliceRandom::choose_weighted` with the weights of
/// `range_weight` (all at least one): an element of a non-empty slice.
#[verifier::external_body]
pub(crate) fn choose_weighted_range(ranges: &Vec<(i64, i64)>) -> (r: Option<(i64, i64)>)
    ensures
        ranges@.len() > 0 ==> r is Some,
        r matches Some(x) ==> ranges@.contains(x),
{
    rand::seq::SliceRandom::choose_weighted(ranges.as_slice(), &mut rand::thread_rng(), range_weight).ok().copied()
}

/// Relies on rand's `IteratorRandom::choose` over every byte of the
/// ranges in turn: one of them, `None` when there is none.
#[verifier::external_body]
pub(crate) fn choose_byte(rs: &Vec<(u8, u8)>) -> (r: Option<u8>)
    ensures
        r is None <==> byte_class_empty(rs@),
        r matches Some(b) ==> in_byte_class(rs@, b),
{
    rs.iter().flat_map(|&(lo, hi)| lo..=hi).choose(&mut rand::thread_rng())
}

/// Relies on rand's `IteratorRandom::choose` over every character of the
/// ranges in turn: one of them, `None` when there is none.
#[verifier::external_body]
pub(crate) fn choose_char(rs: &Vec<(char, char)>) -> (r: Option<char>)
    ensures
        r is None <==> char_class_empty(rs@),
        r matches Some(c) ==> in_char_class(rs@, c),
{
    rs.iter().flat_map(|&(lo, hi)| lo..=hi).choose(&mut rand::thread_rng())
}

/// Relies on rand's `IteratorRandom::choose` over `0..n`: a position
/// below `n`, `None` when `n` is zero.
#[verifier::external_body]
pub(crate) fn choose_below(n: usize) -> (r: Option<usize>)
    ensures
        r is None <==> n == 0,
        r matches Some(i) ==> i < n,
{
    (0..n).choose(&mut rand::thread_rng())
}

} // verus!
