//! The meeting-stone queue's wire: the server's queue state and the leave request.

use vstd::prelude::*;
use vstd::slice::slice_subrange;

use crate::wire::{get_u32_le, le_u32, WireError};

verus! {

/// `SMSG 0x295`: the queued area and a status byte the client turns into a local message.
#[derive(Clone, Copy, Debug, PartialEq, Eq)]
pub struct MeetingStoneSetQueue {
    pub area: u32,
    pub status: u8,
}

/// The layout: `u32 areaId`, `u8 status` — five bytes.
pub open spec fn spec_meeting_stone_set_queue(b: Seq<u8>) -> Option<MeetingStoneSetQueue> {
    if b.len() < 5 {
        None
    } else {
        Some(MeetingStoneSetQueue { area: le_u32(b, 0), status: b[4] })
    }
}

/// Parse it off the front of `r`, advancing it past the five bytes. A short body is
/// `UnexpectedEof`, and then the reader is left empty.
pub fn read_meeting_stone_set_queue(r: &mut &[u8]) -> (res: Result<MeetingStoneSetQueue, WireError>)
    ensures
        res is Ok <==> spec_meeting_stone_set_queue(old(r)@) is Some,
        res matches Ok(q) ==> spec_meeting_stone_set_queue(old(r)@) == Some(q) && final(r)@
            == old(r)@.skip(5),
        res is Err ==> res == Err::<MeetingStoneSetQueue, WireError>(WireError::UnexpectedEof)
            && final(r)@.len() == 0,
{
    let data: &[u8] = *r;
    let n = data.len();
    if n < 5 {
        *r = slice_subrange(data, n, n);
        return Err(WireError::UnexpectedEof);
    }
    let area = get_u32_le(data, 0);
    let status = data[4];
    *r = slice_subrange(data, 5, n);
    Ok(MeetingStoneSetQueue { area, status })
}

/// Body of `CMSG 0x293`: empty.
pub fn meeting_stone_leave() -> (body: Vec<u8>)
    ensures
        body@.len() == 0,
{
    Vec::new()
}

} // verus!
