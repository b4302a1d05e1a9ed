//! Host signal lines (`!`, `?xxx`).

use vstd::prelude::*;

use crate::bytes::{bang, is_bang, is_q_edm, is_q_pos, is_q_queue, q_edm, q_pos, q_queue};

verus! {

/// Query-like signal (`?...`).
#[derive(Clone, Copy, Debug, PartialEq, Eq, Structural)]
pub enum QuerySignal {
    Queue,
    Pos,
    Edm,
    /// Recognized `?` byte but unknown content.
    Unknown,
}

/// One signal (`!` or `?...`).
#[derive(Clone, Copy, Debug, PartialEq, Eq, Structural)]
pub enum Signal {
    Cancel,
    Query(QuerySignal),
}

/// Parse a signal. `bytes` holds the `!` or `?` but no blanks; anything
/// other than `!` and the three known queries is an unknown query.
pub fn parse(bytes: &[u8]) -> (r: Signal)
    ensures
        r == (if bytes@ == bang() {
            Signal::Cancel
        } else if bytes@ == q_queue() {
            Signal::Query(QuerySignal::Queue)
        } else if bytes@ == q_pos() {
            Signal::Query(QuerySignal::Pos)
        } else if bytes@ == q_edm() {
            Signal::Query(QuerySignal::Edm)
        } else {
            Signal::Query(QuerySignal::Unknown)
        }),
{
    if is_bang(bytes) {
        Signal::Cancel
    } else if is_q_queue(bytes) {
        Signal::Query(QuerySignal::Queue)
    } else if is_q_pos(bytes) {
        Signal::Query(QuerySignal::Pos)
    } else if is_q_edm(bytes) {
        Signal::Query(QuerySignal::Edm)
    } else {
        Signal::Query(QuerySignal::Unknown)
    }
}

} // verus!
