use crc16::{State, GENIBUS};
use vstd::prelude::*;

verus! {

/// The CRC-16/GENIBUS checksum of a byte sequence.
pub uninterp spec fn genibus_of(bytes: Seq<u8>) -> u16;

/// Relies on `crc16::State::<GENIBUS>::calculate`: the CRC-16/GENIBUS value of
/// `msg`, a function of its bytes alone.
#[verifier::external_body]
pub(crate) fn crc16_genibus(msg: &[u8]) -> (r: u16)
    ensures
        r == genibus_of(msg@),
{
    State::<GENIBUS>::calculate(msg)
}

} // verus!
