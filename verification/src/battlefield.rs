//! The battleground queue's wire: the server's per-slot status, the end-of-match scoreboard, and
//! the two bodies the client sends — the leave request and the port answer. Three queue slots
//! exist in the client, addressed 1-based from the UI and 0-based on the wire.

use vstd::prelude::*;
use vstd::slice::slice_subrange;

use crate::wire::{get_u32_le, get_u64_le, le_u32, le_u64, push_u32_le, u32_le_bytes, WireError};

verus! {

/// `SMSG_BATTLEFIELD_STATUS`, one slot's update.
#[derive(Clone, Debug, PartialEq, Eq)]
pub struct BattlefieldStatus {
    /// Which of the three slots, 0-based on the wire.
    pub slot: u32,
    /// The battleground's map id; zero clears the slot.
    pub map_id: u32,
    pub bracket: u8,
    /// A dword the client stores and no UI reader was found for.
    pub unknown: u32,
    pub status: u32,
    /// Status 2: the port deadline's delta, in ms.
    pub time_ms: Option<u32>,
    /// Status 3: the instance's expiration delta and its elapsed run time.
    pub in_progress: Option<(u32, u32)>,
    /// Status 1: the estimated wait and the time already waited.
    pub queued: Option<(u32, u32)>,
}

/// How many bytes the status-conditional tail takes: two dwords for status 1 and 3, one for
/// status 2, none otherwise.
pub open spec fn status_tail_len(status: u32) -> int {
    if status == 2 {
        4
    } else if status == 1 || status == 3 {
        8
    } else {
        0
    }
}

/// The layout of `SMSG_BATTLEFIELD_STATUS`: `u32 slot`, `u32 mapId`, and — only for a non-zero
/// map — `u8 bracket`, `u32`, `u32 status`, then the status-conditional tail. The result is the
/// status and how many bytes it takes; `None` when the body ends early.
pub open spec fn spec_battlefield_status(b: Seq<u8>) -> Option<(BattlefieldStatus, int)> {
    if b.len() < 8 {
        None
    } else if le_u32(b, 4) == 0 {
        Some(
            (
                BattlefieldStatus {
                    slot: le_u32(b, 0),
                    map_id: 0,
                    bracket: 0,
                    unknown: 0,
                    status: 0,
                    time_ms: None,
                    in_progress: None,
                    queued: None,
                },
                8,
            ),
        )
    } else if b.len() < 17 || b.len() < 17 + status_tail_len(le_u32(b, 13)) {
        None
    } else {
        let status = le_u32(b, 13);
        Some(
            (
                BattlefieldStatus {
                    slot: le_u32(b, 0),
                    map_id: le_u32(b, 4),
                    bracket: b[8],
                    unknown: le_u32(b, 9),
                    status,
                    time_ms: if status == 2 {
                        Some(le_u32(b, 17))
                    } else {
                        None
                    },
                    in_progress: if status == 3 {
                        Some((le_u32(b, 17), le_u32(b, 21)))
                    } else {
                        None
                    },
                    queued: if status == 1 {
                        Some((le_u32(b, 17), le_u32(b, 21)))
                    } else {
                        None
                    },
                },
                17 + status_tail_len(status),
            ),
        )
    }
}

/// Parse `SMSG_BATTLEFIELD_STATUS` off the front of `r`, advancing it past what was read. A body
/// that ends early is `UnexpectedEof`, and then the reader is left empty, as a byte slice's
/// `read_exact` leaves it.
pub fn read_battlefield_status(r: &mut &[u8]) -> (res: Result<BattlefieldStatus, WireError>)
    ensures
        res is Ok <==> spec_battlefield_status(old(r)@) is Some,
        res matches Ok(s) ==> {
            let (spec_s, n) = spec_battlefield_status(old(r)@).unwrap();
            &&& s == spec_s
            &&& final(r)@ == old(r)@.skip(n)
        },
        res is Err ==> res == Err::<BattlefieldStatus, WireError>(WireError::UnexpectedEof)
            && final(r)@.len() == 0,
{
    let data: &[u8] = *r;
    let n = data.len();
    if n < 8 {
        *r = slice_subrange(data, n, n);
        return Err(WireError::UnexpectedEof);
    }
    let slot = get_u32_le(data, 0);
    let map_id = get_u32_le(data, 4);
    if map_id == 0 {
        *r = slice_subrange(data, 8, n);
        return Ok(
            BattlefieldStatus {
                slot,
                map_id,
                bracket: 0,
                unknown: 0,
                status: 0,
                time_ms: None,
                in_progress: None,
                queued: None,
            },
        );
    }
    if n < 17 {
        *r = slice_subrange(data, n, n);
        return Err(WireError::UnexpectedEof);
    }
    let bracket = data[8];
    let unknown = get_u32_le(data, 9);
    let status = get_u32_le(data, 13);
    let tail: usize = if status == 2 {
        4
    } else if status == 1 || status == 3 {
        8
    } else {
        0
    };
    if n - 17 < tail {
        *r = slice_subrange(data, n, n);
        return Err(WireError::UnexpectedEof);
    }
    let time_ms = if status == 2 {
        Some(get_u32_le(data, 17))
    } else {
        None
    };
    let in_progress = if status == 3 {
        Some((get_u32_le(data, 17), get_u32_le(data, 21)))
    } else {
        None
    };
    let queued = if status == 1 {
        Some((get_u32_le(data, 17), get_u32_le(data, 21)))
    } else {
        None
    };
    *r = slice_subrange(data, 17 + tail, n);
    Ok(BattlefieldStatus { slot, map_id, bracket, unknown, status, time_ms, in_progress, queued })
}

/// One scoreboard row of `MSG_PVP_LOG_DATA`, in wire order.
#[derive(Clone, Debug, PartialEq, Eq)]
pub struct PvpLogRow {
    pub guid: u64,
    /// Wire field 2 — read before the kills.
    pub rank: u32,
    pub killing_blows: u32,
    pub honorable_kills: u32,
    pub deaths: u32,
    pub honor_gained: u32,
    /// The extra-stat dwords, at most eight kept — the rest are consumed and discarded.
    pub stats: Vec<u32>,
}

/// `MSG_PVP_LOG_DATA` inbound: the whole scoreboard, rows in wire order (nothing sorts).
#[derive(Clone, Debug, PartialEq, Eq, Default)]
pub struct PvpLogData {
    /// `u8 != 0` — the battleground has ended.
    pub ended: bool,
    /// Read only when `ended`: `0` = Horde, `1` = Alliance.
    pub winner: Option<u8>,
    pub rows: Vec<PvpLogRow>,
}

/// A scoreboard row as a mathematical value.
pub struct PvpLogRowView {
    pub guid: u64,
    pub rank: u32,
    pub killing_blows: u32,
    pub honorable_kills: u32,
    pub deaths: u32,
    pub honor_gained: u32,
    pub stats: Seq<u32>,
}

/// The scoreboard as a mathematical value.
pub struct PvpLogDataView {
    pub ended: bool,
    pub winner: Option<u8>,
    pub rows: Seq<PvpLogRowView>,
}

impl View for PvpLogRow {
    type V = PvpLogRowView;

    open spec fn view(&self) -> PvpLogRowView {
        PvpLogRowView {
            guid: self.guid,
            rank: self.rank,
            killing_blows: self.killing_blows,
            honorable_kills: self.honorable_kills,
            deaths: self.deaths,
            honor_gained: self.honor_gained,
            stats: self.stats@,
        }
    }
}

impl View for PvpLogData {
    type V = PvpLogDataView;

    open spec fn view(&self) -> PvpLogDataView {
        PvpLogDataView {
            ended: self.ended,
            winner: self.winner,
            rows: self.rows@.map_values(|r: PvpLogRow| r@),
        }
    }
}

/// How many stats a row keeps of the `count` it carries.
pub open spec fn kept_stats(count: u32) -> int {
    if count < 8 {
        count as int
    } else {
        8
    }
}

/// One row at `at`: `u64 guid, u32 rank, u32 kb, u32 hk, u32 deaths, u32 honor, u32 statCount,
/// statCount × u32`, of which the first eight stats are kept. The result is the row and where the
/// next one starts.
pub open spec fn spec_pvp_row(b: Seq<u8>, at: int) -> Option<(PvpLogRowView, int)> {
    if at + 32 > b.len() {
        None
    } else {
        let count = le_u32(b, at + 28);
        if at + 32 + 4 * count > b.len() {
            None
        } else {
            Some(
                (
                    PvpLogRowView {
                        guid: le_u64(b, at),
                        rank: le_u32(b, at + 8),
                        killing_blows: le_u32(b, at + 12),
                        honorable_kills: le_u32(b, at + 16),
                        deaths: le_u32(b, at + 20),
                        honor_gained: le_u32(b, at + 24),
                        stats: Seq::new(kept_stats(count) as nat, |i: int| le_u32(b, at + 32 + 4 * i)),
                    },
                    at + 32 + 4 * count,
                ),
            )
        }
    }
}

/// `count` rows back to back from `at`, and where they end.
pub open spec fn spec_pvp_rows(b: Seq<u8>, at: int, count: nat) -> Option<(Seq<PvpLogRowView>, int)>
    decreases count,
{
    if count == 0 {
        Some((Seq::empty(), at))
    } else {
        match spec_pvp_row(b, at) {
            None => None,
            Some((row, next)) => match spec_pvp_rows(b, next, (count - 1) as nat) {
                None => None,
                Some((rest, end)) => Some((seq![row] + rest, end)),
            },
        }
    }
}

/// The layout of `MSG_PVP_LOG_DATA`: `u8 ended`, `u8 winner` iff ended, `u32 count`, then
/// `count` rows. The result is the scoreboard and how many bytes it takes.
pub open spec fn spec_pvp_log_data(b: Seq<u8>) -> Option<(PvpLogDataView, int)> {
    if b.len() < 1 {
        None
    } else {
        let ended = b[0] != 0;
        let head: int = if ended { 2 } else { 1 };
        if b.len() < head + 4 {
            None
        } else {
            match spec_pvp_rows(b, head + 4, le_u32(b, head) as nat) {
                None => None,
                Some((rows, end)) => Some(
                    (
                        PvpLogDataView {
                            ended,
                            winner: if ended { Some(b[1]) } else { None },
                            rows,
                        },
                        end,
                    ),
                ),
            }
        }
    }
}

/// Prepend `prefix` to a parse of the rest.
pub open spec fn rows_after(prefix: Seq<PvpLogRowView>, rest: Option<(Seq<PvpLogRowView>, int)>) -> Option<(Seq<PvpLogRowView>, int)> {
    match rest {
        None => None,
        Some((rows, end)) => Some((prefix + rows, end)),
    }
}

/// Parse one row at `pos`; `None` when the body ends inside it.
fn read_pvp_row(data: &[u8], pos: usize) -> (res: Option<(PvpLogRow, usize)>)
    requires
        pos <= data@.len(),
    ensures
        match res {
            None => spec_pvp_row(data@, pos as int) is None,
            Some((row, next)) => spec_pvp_row(data@, pos as int) == Some((row@, next as int)),
        },
{
    let n = data.len();
    if n - pos < 32 {
        return None;
    }
    let guid = get_u64_le(data, pos);
    let rank = get_u32_le(data, pos + 8);
    let killing_blows = get_u32_le(data, pos + 12);
    let honorable_kills = get_u32_le(data, pos + 16);
    let deaths = get_u32_le(data, pos + 20);
    let honor_gained = get_u32_le(data, pos + 24);
    let count = get_u32_le(data, pos + 28);
    let room = (n - pos - 32) / 4;
    if (count as usize) > room {
        return None;
    }
    let kept: u32 = if count < 8 { count } else { 8 };
    let mut stats: Vec<u32> = Vec::new();
    let mut i: u32 = 0;
    while i < kept
        invariant
            n == data@.len(),
            pos + 32 + 4 * count <= n,
            kept as int == kept_stats(count),
            i <= kept,
            stats@ =~= Seq::new(i as nat, |k: int| le_u32(data@, pos + 32 + 4 * k)),
        decreases kept - i,
    {
        let v = get_u32_le(data, pos + 32 + 4 * (i as usize));
        stats.push(v);
        i = i + 1;
    }
    let row = PvpLogRow { guid, rank, killing_blows, honorable_kills, deaths, honor_gained, stats };
    Some((row, pos + 32 + 4 * (count as usize)))
}

/// Parse `MSG_PVP_LOG_DATA` off the front of `r`, advancing it past what was read: every row
/// the wire carries, in wire order, each keeping at most eight stats while consuming them all.
/// A body that ends early is `UnexpectedEof`, and then the reader is left empty.
pub fn read_pvp_log_data(r: &mut &[u8]) -> (res: Result<PvpLogData, WireError>)
    ensures
        res is Ok <==> spec_pvp_log_data(old(r)@) is Some,
        res matches Ok(d) ==> {
            let (spec_d, n) = spec_pvp_log_data(old(r)@).unwrap();
            &&& d@ == spec_d
            &&& final(r)@ == old(r)@.skip(n)
        },
        res is Err ==> res == Err::<PvpLogData, WireError>(WireError::UnexpectedEof)
            && final(r)@.len() == 0,
{
    let data: &[u8] = *r;
    let n = data.len();
    if n < 1 {
        *r = slice_subrange(data, n, n);
        return Err(WireError::UnexpectedEof);
    }
    let ended = data[0] != 0;
    let head: usize = if ended { 2 } else { 1 };
    if n < head + 4 {
        *r = slice_subrange(data, n, n);
        return Err(WireError::UnexpectedEof);
    }
    let winner = if ended { Some(data[1]) } else { None };
    let count = get_u32_le(data, head);
    let mut rows: Vec<PvpLogRow> = Vec::new();
    let mut pos = head + 4;
    let mut i: u32 = 0;
    while i < count
        invariant
            data@ == old(r)@,
            n == data@.len(),
            head + 4 <= pos <= n,
            i <= count,
            count == le_u32(data@, head as int),
            head == (if data@[0] != 0 { 2int } else { 1int }),
            spec_pvp_rows(data@, head + 4, count as nat) == rows_after(
                rows@.map_values(|r: PvpLogRow| r@),
                spec_pvp_rows(data@, pos as int, (count - i) as nat),
            ),
        decreases count - i,
    {
        match read_pvp_row(data, pos) {
            None => {
                *r = slice_subrange(data, n, n);
                return Err(WireError::UnexpectedEof);
            },
            Some((row, next)) => {
                let ghost before = rows@.map_values(|r: PvpLogRow| r@);
                rows.push(row);
                assert(rows@.map_values(|r: PvpLogRow| r@) =~= before + seq![row@]);
                let ghost tail = spec_pvp_rows(data@, next as int, (count - i - 1) as nat);
                assert(spec_pvp_rows(data@, pos as int, (count - i) as nat) == rows_after(seq![row@], tail));
                proof {
                    match tail {
                        Some((rs, e)) => {
                            assert(before + (seq![row@] + rs) =~= (before + seq![row@]) + rs);
                        },
                        None => {},
                    }
                }
                pos = next;
                i = i + 1;
            },
        }
    }
    assert(rows@.map_values(|r: PvpLogRow| r@) + Seq::<PvpLogRowView>::empty() =~= rows@.map_values(|r: PvpLogRow| r@));
    *r = slice_subrange(data, pos, n);
    Ok(PvpLogData { ended, winner, rows })
}

/// Body of `CMSG_LEAVE_BATTLEFIELD`: `u32 mapId` — the active slot's map, or 0 when no slot is
/// active.
pub fn leave_battlefield(map_id: u32) -> (body: Vec<u8>)
    ensures
        body@ == u32_le_bytes(map_id),
{
    let mut body = Vec::new();
    push_u32_le(&mut body, map_id);
    assert(body@ =~= u32_le_bytes(map_id));
    body
}

/// Body of `CMSG_BATTLEFIELD_PORT`: `u32 mapId` then a one-byte `accept`, normalised to 0/1.
pub fn battlefield_port(map_id: u32, accept: bool) -> (body: Vec<u8>)
    ensures
        body@ == u32_le_bytes(map_id).push(if accept { 1u8 } else { 0u8 }),
{
    let mut body = leave_battlefield(map_id);
    body.push(if accept { 1u8 } else { 0u8 });
    body
}

} // verus!
