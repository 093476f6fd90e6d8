use benilla::battlefield::{battlefield_port, leave_battlefield, read_battlefield_status, read_pvp_log_data};
use benilla::meeting_stone::{meeting_stone_leave, read_meeting_stone_set_queue, MeetingStoneSetQueue};
use benilla::wire::WireError;
use benilla::world_writer::{OutboundPacket, WorldWriter, WriteError, CMSG_BATTLEFIELD_PORT};

#[test]
fn status_reads_the_conditional_tails() {
    let mut body = vec![
        1u8, 0, 0, 0, 30, 0, 0, 0, 5, 7, 0, 0, 0, 2, 0, 0, 0, 100, 0, 0, 0,
    ];
    let s = read_battlefield_status(&mut body.as_slice()).unwrap();
    assert_eq!(
        (s.slot, s.map_id, s.bracket, s.unknown, s.status),
        (1, 30, 5, 7, 2)
    );
    assert_eq!(s.time_ms, Some(100));
    body = vec![0u8, 0, 0, 0, 0, 0, 0, 0];
    let s = read_battlefield_status(&mut body.as_slice()).unwrap();
    assert_eq!(
        s.map_id, 0,
        "a zero map clears the slot and ends the packet"
    );
}

#[test]
fn port_is_a_map_id_and_one_byte() {
    assert_eq!(battlefield_port(489, true), vec![0xE9, 1, 0, 0, 1]);
    assert_eq!(battlefield_port(489, false), vec![0xE9, 1, 0, 0, 0]);
}

#[test]
fn the_scoreboard_reads_its_conditional_winner_and_keeps_eight_stats() {
    let mut body = vec![1u8, 0u8, 1, 0, 0, 0];
    body.extend_from_slice(&7u64.to_le_bytes());
    for v in [5u32, 3, 9, 2, 120, 9] {
        body.extend_from_slice(&v.to_le_bytes());
    }
    for v in 1u32..=9 {
        body.extend_from_slice(&v.to_le_bytes());
    }
    let d = read_pvp_log_data(&mut body.as_slice()).unwrap();
    assert!(d.ended);
    assert_eq!(d.winner, Some(0));
    assert_eq!(d.rows.len(), 1);
    let r = &d.rows[0];
    assert_eq!(
        (
            r.guid,
            r.rank,
            r.killing_blows,
            r.honorable_kills,
            r.deaths,
            r.honor_gained
        ),
        (7, 5, 3, 9, 2, 120)
    );
    assert_eq!(r.stats, vec![1, 2, 3, 4, 5, 6, 7, 8]);

    let body = vec![0u8, 0, 0, 0, 0];
    let d = read_pvp_log_data(&mut body.as_slice()).unwrap();
    assert!(!d.ended && d.winner.is_none() && d.rows.is_empty());
    assert_eq!(leave_battlefield(489), vec![0xE9, 1, 0, 0]);
}

#[test]
fn a_queued_status_carries_its_wait_pair() {
    let mut body = vec![0u8, 0, 0, 0];
    body.extend_from_slice(&489u32.to_le_bytes());
    body.push(3);
    body.extend_from_slice(&0u32.to_le_bytes());
    body.extend_from_slice(&1u32.to_le_bytes());
    body.extend_from_slice(&30000u32.to_le_bytes());
    body.extend_from_slice(&5000u32.to_le_bytes());
    let s = read_battlefield_status(&mut body.as_slice()).unwrap();
    assert_eq!(s.status, 1);
    assert_eq!(s.queued, Some((30000, 5000)));
    assert!(s.time_ms.is_none() && s.in_progress.is_none());
}

#[test]
fn an_in_progress_status_carries_both_deltas_and_the_reader_advances() {
    let mut body = vec![2u8, 0, 0, 0];
    body.extend_from_slice(&529u32.to_le_bytes());
    body.push(1);
    body.extend_from_slice(&9u32.to_le_bytes());
    body.extend_from_slice(&3u32.to_le_bytes());
    body.extend_from_slice(&60000u32.to_le_bytes());
    body.extend_from_slice(&1234u32.to_le_bytes());
    body.extend_from_slice(&[0xAA, 0xBB]);
    let mut r = body.as_slice();
    let s = read_battlefield_status(&mut r).unwrap();
    assert_eq!((s.slot, s.map_id, s.bracket, s.unknown, s.status), (2, 529, 1, 9, 3));
    assert_eq!(s.in_progress, Some((60000, 1234)));
    assert!(s.time_ms.is_none() && s.queued.is_none());
    assert_eq!(r, &[0xAA, 0xBB], "exactly the packet is consumed");
}

#[test]
fn an_unknown_status_has_no_tail() {
    let body = vec![0u8, 0, 0, 0, 30, 0, 0, 0, 5, 7, 0, 0, 0, 4, 0, 0, 0, 0x11];
    let mut r = body.as_slice();
    let s = read_battlefield_status(&mut r).unwrap();
    assert_eq!(s.status, 4);
    assert!(s.time_ms.is_none() && s.in_progress.is_none() && s.queued.is_none());
    assert_eq!(r, &[0x11]);
}

#[test]
fn a_short_status_is_unexpected_eof_and_empties_the_reader() {
    let body = vec![1u8, 0, 0, 0, 30, 0, 0, 0, 5, 7, 0, 0, 0, 2, 0, 0, 0, 100, 0];
    let mut r = body.as_slice();
    assert_eq!(read_battlefield_status(&mut r), Err(WireError::UnexpectedEof));
    assert!(r.is_empty());
    let mut r: &[u8] = &[1, 0, 0];
    assert_eq!(read_battlefield_status(&mut r), Err(WireError::UnexpectedEof));
    let mut r: &[u8] = &[1, 0, 0, 0, 30, 0, 0, 0, 5];
    assert_eq!(read_battlefield_status(&mut r), Err(WireError::UnexpectedEof));
}

#[test]
fn a_scoreboard_cut_inside_its_stats_is_unexpected_eof() {
    let mut body = vec![0u8, 1, 0, 0, 0];
    body.extend_from_slice(&7u64.to_le_bytes());
    for v in [5u32, 3, 9, 2, 120, 3] {
        body.extend_from_slice(&v.to_le_bytes());
    }
    body.extend_from_slice(&1u32.to_le_bytes());
    body.extend_from_slice(&2u32.to_le_bytes());
    let mut r = body.as_slice();
    assert_eq!(read_pvp_log_data(&mut r), Err(WireError::UnexpectedEof));
    assert!(r.is_empty());
    body.extend_from_slice(&3u32.to_le_bytes());
    let d = read_pvp_log_data(&mut body.as_slice()).unwrap();
    assert_eq!(d.winner, None);
    assert_eq!(d.rows[0].stats, vec![1, 2, 3]);
}

#[test]
fn two_rows_come_back_in_wire_order() {
    let mut body = vec![1u8, 1, 2, 0, 0, 0];
    for guid in [11u64, 12] {
        body.extend_from_slice(&guid.to_le_bytes());
        for v in [1u32, 2, 3, 4, 5, 0] {
            body.extend_from_slice(&v.to_le_bytes());
        }
    }
    let d = read_pvp_log_data(&mut body.as_slice()).unwrap();
    assert_eq!(d.winner, Some(1));
    assert_eq!(d.rows.iter().map(|r| r.guid).collect::<Vec<_>>(), vec![11, 12]);
    assert!(d.rows.iter().all(|r| r.stats.is_empty()));
}

#[test]
fn the_meeting_stone_reads_an_area_and_a_status_and_leaves_with_nothing() {
    let mut r: &[u8] = &[0x10, 0x27, 0, 0, 3, 9];
    assert_eq!(
        read_meeting_stone_set_queue(&mut r),
        Ok(MeetingStoneSetQueue { area: 10000, status: 3 })
    );
    assert_eq!(r, &[9]);
    let mut r: &[u8] = &[0x10, 0x27, 0, 0];
    assert_eq!(read_meeting_stone_set_queue(&mut r), Err(WireError::UnexpectedEof));
    assert!(meeting_stone_leave().is_empty());
}

#[test]
fn the_writer_queues_the_port_answer_under_its_opcode() {
    let mut w = WorldWriter::new();
    assert_eq!(w.battlefield_port(489, true), Ok(()));
    assert_eq!(w.battlefield_port(30, false), Ok(()));
    assert_eq!(
        w.take_outbox(),
        vec![
            OutboundPacket { opcode: CMSG_BATTLEFIELD_PORT, body: vec![0xE9, 1, 0, 0, 1] },
            OutboundPacket { opcode: 0x2D5, body: vec![30, 0, 0, 0, 0] },
        ]
    );
    assert!(w.take_outbox().is_empty(), "drained");
}

#[test]
fn the_writer_refuses_a_body_its_header_cannot_size() {
    let mut w = WorldWriter::new();
    assert_eq!(w.send(0x293, &vec![0u8; 0xFFFF - 4]), Ok(()));
    assert_eq!(w.send(0x293, &vec![0u8; 0xFFFF - 3]), Err(WriteError::BodyTooLarge));
    assert_eq!(w.take_outbox().len(), 1);
}
