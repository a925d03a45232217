//! Framing of the bytes sent to the SSD1309 over I2C: every write is one
//! control byte (0x00 for commands, 0x40 for display RAM data) followed by
//! at most 255 payload bytes.

use vstd::prelude::*;

verus! {

/// Control byte that marks a command write.
pub const COMMAND_PREFIX: u8 = 0x00;
/// Control byte that marks a display RAM data write.
pub const DATA_PREFIX: u8 = 0x40;
/// Longest payload that one write may carry.
pub const MAX_PAYLOAD: usize = 255;

/// The bytes of one write: the control byte, then the payload.
pub open spec fn framed(control: u8, payload: Seq<u8>) -> Seq<u8> {
    seq![control] + payload
}

fn frame(control: u8, payload: &[u8]) -> (r: Option<Vec<u8>>)
    ensures
        match r {
            Some(v) => payload@.len() <= MAX_PAYLOAD && v@ == framed(control, payload@),
            None => payload@.len() > MAX_PAYLOAD,
        },
{
    if payload.len() > MAX_PAYLOAD {
        return None;
    }
    let mut out: Vec<u8> = Vec::with_capacity(payload.len() + 1);
    out.push(control);
    let mut i: usize = 0;
    while i < payload.len()
        invariant
            i <= payload@.len(),
            out@ == framed(control, payload@.take(i as int)),
        decreases payload@.len() - i,
    {
        proof {
            assert(payload@.take(i + 1) =~= payload@.take(i as int).push(payload@[i as int]));
        }
        out.push(payload[i]);
        i = i + 1;
    }
    proof {
        assert(payload@.take(i as int) =~= payload@);
    }
    Some(out)
}

/// The bytes of a command write, or `None` when `bytes` is longer than
/// 255 (the bus refuses such a write as invalid input).
pub fn command_frame(bytes: &[u8]) -> (r: Option<Vec<u8>>)
    ensures
        match r {
            Some(v) => bytes@.len() <= MAX_PAYLOAD && v@ == framed(COMMAND_PREFIX, bytes@),
            None => bytes@.len() > MAX_PAYLOAD,
        },
{
    frame(COMMAND_PREFIX, bytes)
}

/// The bytes of a display RAM data write, or `None` when `bytes` is longer
/// than 255 (the bus refuses such a write as invalid input).
pub fn data_frame(bytes: &[u8]) -> (r: Option<Vec<u8>>)
    ensures
        match r {
            Some(v) => bytes@.len() <= MAX_PAYLOAD && v@ == framed(DATA_PREFIX, bytes@),
            None => bytes@.len() > MAX_PAYLOAD,
        },
{
    frame(DATA_PREFIX, bytes)
}

} // verus!
