use benilla::chat_cache::{
    parse, render, restore, save_due, zone_bit, ChatTypeColor, ChatWindowLook, MessageGroup,
    Parsed, cache_header,
};

/// The message-group table the tests read with: ten groups for the first window, then the
/// combat window's, two of which the file's version 2 added.
fn groups() -> Vec<MessageGroup> {
    let general = [
        "SYSTEM", "SAY", "EMOTE", "YELL", "WHISPER", "PARTY", "RAID", "GUILD", "OFFICER", "CHANNEL",
    ];
    let mut out: Vec<MessageGroup> = general
        .iter()
        .map(|n| MessageGroup { name: n.to_string(), on: true, version: 0 })
        .collect();
    for i in 0..32 {
        out.push(MessageGroup { name: format!("COMBAT_{i}"), on: true, version: 0 });
    }
    out.push(MessageGroup { name: "COMBAT_FACTION_CHANGE".into(), on: true, version: 2 });
    out.push(MessageGroup { name: "MONEY".into(), on: true, version: 2 });
    out.push(MessageGroup { name: "LOOT".into(), on: false, version: 0 });
    out
}

/// The seven windows' boot records: window 1 shown and floating with the ten general groups,
/// window 2 shown at dock position 1 with the 34 combat groups, the rest hidden and empty; all
/// locked.
fn boot_table() -> Vec<ChatWindowLook> {
    let names: Vec<String> = groups().into_iter().map(|g| g.name).collect();
    (0..7)
        .map(|i| {
            let mut l = ChatWindowLook { locked: true, ..ChatWindowLook::default() };
            if i == 0 {
                l.shown = true;
                l.messages = names[..10].to_vec();
            } else if i == 1 {
                l.shown = true;
                l.docked = Some(1);
                l.messages = names[10..44].to_vec();
            }
            l
        })
        .collect()
}

fn stock(i: usize) -> ChatWindowLook {
    boot_table()[i].clone()
}

/// A record for WINDOW `n` (1-based): the window's own boot row with the look fields set.
fn look(n: usize, r: u8, g: u8, b: u8, a: u8, font_size: i32) -> ChatWindowLook {
    ChatWindowLook { r, g, b, a, font_size, locked: true, ..stock(n - 1) }
}

fn rows() -> Vec<(u32, String)> {
    vec![
        (1, "General".to_string()),
        (2, "Trade".to_string()),
        (24, "LookingForGroup".to_string()),
    ]
}

fn colors(rows: &[(&str, [u8; 3])]) -> Vec<ChatTypeColor> {
    rows.iter().map(|(n, rgb)| ChatTypeColor { name: (*n).to_string(), rgb: *rgb }).collect()
}

fn read(text: &str) -> Parsed {
    parse(text, &boot_table(), &rows(), &groups())
}

#[test]
fn the_file_round_trips() {
    let mut named = look(3, 9, 8, 7, 6, 12);
    named.name = "Loot & Trade".into();
    named.shown = true;
    named.messages = vec!["LOOT".into(), "MONEY".into()];
    named.channels = vec![("MyChan".into(), 0), ("Trade".into(), 2)];
    let looks = vec![look(1, 0, 0, 0, 64, 14), look(2, 255, 128, 0, 255, 0), named];
    let colors = colors(&[("SAY", [1, 2, 3]), ("CHANNEL7", [4, 5, 6])]);
    let joined = vec![
        ("General - Elwynn Forest".to_string(), 1),
        ("Trade - City".to_string(), 2),
        ("MyChan".to_string(), 0),
    ];
    let text = render(&looks, &colors, &joined);
    assert!(text.contains("\nCHANNELS\nMyChan\nEND\n\nZONECHANNELS 3\n"), "{text}");
    let parsed = read(&text);
    let mut expect = looks.clone();
    expect[2].channels = vec![("MyChan".into(), 0), ("Trade".into(), 2)];
    assert_eq!(
        parsed.looks,
        vec![(0, expect[0].clone()), (1, expect[1].clone()), (2, expect[2].clone())],
        "0-based indices, values intact"
    );
    assert_eq!(
        parsed.colors,
        vec![("SAY".to_string(), [1, 2, 3]), ("CHANNEL7".to_string(), [4, 5, 6])]
    );
    assert_eq!(parsed.joined, vec!["MyChan".to_string()]);
}

#[test]
fn a_windows_zone_bits_are_masked_by_the_joined_set() {
    let mut w = look(1, 0, 0, 0, 0, 0);
    w.channels = vec![("General".into(), 1), ("Trade".into(), 2)];
    let text = render(&[w], &[], &[("General - Elwynn Forest".to_string(), 1)]);
    let windows: Vec<&str> = text.split("WINDOW 1").collect();
    assert!(windows[1].contains("ZONECHANNELS 1\n"), "{text}");
}

#[test]
fn the_header_is_skipped_not_parsed() {
    assert!(render(&[ChatWindowLook::default()], &[], &[]).starts_with('#'));
    assert_eq!(read(&cache_header()), Parsed::default());
}

#[test]
fn the_pre_1948_one_line_rows_still_parse() {
    let got = read(
        "window 1  size 16  color 10 20 30 40\n\
         WINDOW 2  SHOWN 0  COLOR 1 2 3 4  DOCKED 2  BOGUS 9\n\
         WINDOW 3  SIZE 12\n",
    );
    let mut w2 = look(2, 1, 2, 3, 4, 0);
    w2.shown = false;
    w2.docked = Some(2);
    assert_eq!(
        got.looks,
        vec![(0, look(1, 10, 20, 30, 40, 16)), (1, w2), (2, look(3, 0, 0, 0, 0, 12))]
    );
    assert!(got.looks[1].1.messages.iter().any(|m| m == "MONEY"));
}

#[test]
fn a_stock_reference_file_parses() {
    let text = "VERSION 2\n\nADDEDVERSION 2\n\nOPTION_GUILD_RECRUITMENT_CHANNEL AUTO\n\n\
                CHANNELS\nMyGuildChat\nEND\n\nZONECHANNELS 8388611\n\n\
                COLORS\nSAY 255 255 255\nSYSTEM 200 200 0\nEND\n\n\
                WINDOW 1\nSIZE 0\nCOLOR 0 0 0 0\nLOCKED 1\nDOCKED 1\nSHOWN 1\n\n\
                MESSAGES\nSYSTEM\nSAY\nEND\n\nCHANNELS\nMyGuildChat\nEND\n\n\
                ZONECHANNELS 8388611\n\nEND\n\n\
                WINDOW 2\nNAME Combat Log\nSIZE 0\nCOLOR 0 0 0 0\nLOCKED 1\nDOCKED 2\nSHOWN 0\n\n\
                MESSAGES\nCOMBAT_XP_GAIN\nEND\n\nCHANNELS\nEND\n\nZONECHANNELS 0\n\nEND\n";
    let got = read(text);
    assert_eq!(
        got.colors,
        vec![("SAY".to_string(), [255, 255, 255]), ("SYSTEM".to_string(), [200, 200, 0])]
    );
    assert_eq!(got.joined, vec!["MyGuildChat".to_string()]);
    assert_eq!(got.looks.len(), 2);
    let (i, w1) = &got.looks[0];
    assert_eq!(*i, 0);
    assert!(w1.shown && w1.name.is_empty());
    assert_eq!(w1.messages, vec!["SYSTEM".to_string(), "SAY".to_string()]);
    assert_eq!(
        w1.channels,
        vec![
            ("MyGuildChat".to_string(), 0),
            ("General".to_string(), 1),
            ("Trade".to_string(), 2),
            ("LookingForGroup".to_string(), 24),
        ],
        "bits 0, 1 and 23 of 8388611 — the shortcut rows, in catalog order"
    );
    let (_, w2) = &got.looks[1];
    assert!(!w2.shown);
    assert_eq!(w2.name, "Combat Log");
    assert_eq!(w2.docked, Some(2));
    assert_eq!(w2.messages, vec!["COMBAT_XP_GAIN".to_string()]);
}

#[test]
fn the_lock_round_trips_and_an_absent_key_stays_locked() {
    let unlocked = ChatWindowLook { locked: false, ..look(1, 0, 0, 0, 64, 14) };
    let text = render(std::slice::from_ref(&unlocked), &[], &[]);
    assert!(text.contains("LOCKED 0"));
    assert_eq!(read(&text).looks, vec![(0, unlocked.clone())]);
    assert_eq!(
        read("WINDOW 1\nSIZE 14\nCOLOR 0 0 0 64\nEND\n").looks,
        vec![(0, look(1, 0, 0, 0, 64, 14))],
        "no LOCKED key = the boot record's lock"
    );
}

#[test]
fn dock_positions_round_trip_and_an_absent_key_keeps_the_init() {
    let moved = ChatWindowLook { docked: Some(3), ..look(1, 0, 0, 0, 0, 0) };
    let text = render(std::slice::from_ref(&moved), &[], &[]);
    assert!(text.contains("DOCKED 3"));
    assert_eq!(read(&text).looks, vec![(0, moved.clone())]);
    let got = read("WINDOW 1  SIZE 0\nWINDOW 2  SIZE 0\nWINDOW 3  SIZE 0\n");
    assert_eq!(
        got.looks.iter().map(|(_, l)| (l.docked, l.shown, l.messages.len())).collect::<Vec<_>>(),
        vec![(None, true, 10), (Some(1), true, 34), (None, false, 0)]
    );
}

#[test]
fn junk_costs_only_its_own_line() {
    let got = read("WINDOW\nnot a window line\nWINDOW 0 SIZE 1\nWINDOW 2 SIZE 18\n");
    assert_eq!(got.looks, vec![(1, look(2, 0, 0, 0, 0, 18))]);
}

#[test]
fn an_empty_messages_block_is_an_empty_set() {
    let got = read("ADDEDVERSION 2\nWINDOW 1\nMESSAGES\nEND\nEND\n");
    assert!(got.looks[0].1.messages.is_empty());
}

#[test]
fn zone_bits_cover_ids_one_to_thirty_two() {
    assert_eq!(zone_bit(0), 0);
    assert_eq!(zone_bit(1), 1);
    assert_eq!(zone_bit(24), 1 << 23);
    assert_eq!(zone_bit(32), 1 << 31);
    assert_eq!(zone_bit(33), 0);
}

#[test]
fn an_old_file_gets_the_newer_groups_back_filled_into_the_combat_window() {
    let got = read("WINDOW 2\nMESSAGES\nCOMBAT_0\nEND\nEND\n");
    assert_eq!(
        got.looks[0].1.messages,
        vec!["COMBAT_0".to_string(), "COMBAT_FACTION_CHANGE".to_string(), "MONEY".to_string()]
    );
    let current = read("ADDEDVERSION 2\nWINDOW 2\nMESSAGES\nCOMBAT_0\nEND\nEND\n");
    assert_eq!(current.looks[0].1.messages, vec!["COMBAT_0".to_string()]);
}

#[test]
fn a_window_past_the_boot_table_starts_at_rest() {
    let got = read("WINDOW 9  SIZE 11\n");
    assert_eq!(got.looks, vec![(8, ChatWindowLook { font_size: 11, ..ChatWindowLook::default() })]);
}

#[test]
fn values_are_read_leniently() {
    let got = read(
        "ADDEDVERSION 2\nWINDOW 1\nSIZE -4\nCOLOR 300 +7 x\nDOCKED 0\nLOCKED\nSHOWN 0\nNAME   Spaced  Out  \nEND\n",
    );
    let w = &got.looks[0].1;
    assert_eq!(w.font_size, 0, "a negative size reads as 0");
    assert_eq!((w.r, w.g, w.b, w.a), (0, 7, 0, 0), "past a byte, signed or junk reads as 0");
    assert_eq!(w.docked, None, "dock position 0 is floating");
    assert!(w.locked, "a flag with no value sets it");
    assert!(!w.shown);
    assert_eq!(w.name, "Spaced  Out");
}

#[test]
fn the_writer_lays_out_a_window_block() {
    let mut w = ChatWindowLook { font_size: -3, r: 1, g: 2, b: 3, a: 4, ..ChatWindowLook::default() };
    w.name = "Log".into();
    w.docked = Some(2);
    w.messages = vec!["SAY".into()];
    w.channels = vec![("Mine".into(), 0), ("General".into(), 1)];
    let text = render(&[w], &[], &[("General".to_string(), 1)]);
    let body = text.split("END\n\n").skip(2).collect::<Vec<_>>().join("END\n\n");
    assert_eq!(
        body,
        "WINDOW 1\nNAME Log\nSIZE -3\nCOLOR 1 2 3 4\nLOCKED 0\nDOCKED 2\nSHOWN 0\n\nMESSAGES\nSAY\n\
         END\n\nCHANNELS\nMine\nEND\n\nZONECHANNELS 1\n\nEND\n\n"
    );
}

#[test]
fn with_no_file_the_first_window_carries_the_auto_joined_rows() {
    let auto = vec![(1, "General".to_string()), (22, "LocalDefense".to_string())];
    let got = restore(None, &boot_table(), &rows(), &groups(), &auto);
    let mut general = stock(0);
    general.channels = vec![("General".into(), 1), ("LocalDefense".into(), 22)];
    assert_eq!(got.looks, vec![(0, general)]);
    assert!(got.colors.is_empty() && got.joined.is_empty());
    let from_file = restore(Some("WINDOW 2 SIZE 9\n"), &boot_table(), &rows(), &groups(), &auto);
    assert_eq!(from_file, read("WINDOW 2 SIZE 9\n"));
}

#[test]
fn a_save_waits_for_a_quiet_second_unless_exiting() {
    assert!(!save_due(false, true, None), "nothing changed, nothing owed");
    assert!(!save_due(true, false, Some(999)));
    assert!(save_due(true, false, Some(1000)));
    assert!(save_due(true, true, Some(0)), "the exit flushes at once");
    assert!(save_due(true, false, None));
}

#[test]
fn the_boot_records_zone_channels_come_first_on_reading_back() {
    let mut boot = boot_table();
    boot[0].channels = vec![("General".into(), 1)];
    let mut w = look(1, 0, 0, 0, 0, 0);
    w.channels = vec![("Mine".into(), 0)];
    let text = render(&[w.clone()], &[], &[]);
    let got = parse(&text, &boot, &rows(), &groups());
    let mut expect = w;
    expect.channels = vec![("General".into(), 1), ("Mine".into(), 0)];
    assert_eq!(got.looks, vec![(0, expect)]);
}

#[test]
fn a_window_channel_of_several_words_reads_back_as_its_first_word() {
    let mut w = look(1, 1, 2, 3, 4, 10);
    w.name = "Spaced".into();
    w.channels = vec![("two words".into(), 0), ("Solo".into(), 0)];
    let text = render(&[w.clone()], &[], &[]);
    let parsed = read(&text);
    let mut expect = w;
    expect.channels = vec![("two".into(), 0), ("Solo".into(), 0)];
    assert_eq!(parsed.looks, vec![(0, expect)]);
}
