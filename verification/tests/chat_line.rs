use benilla::chat_line::{
    compose, compose_notice, get_pattern, replace_pct, strip_zone, ChannelNotice, ChatLine,
    ChatLineKind,
};

fn line(text: &str, sender: &str) -> ChatLine {
    ChatLine {
        text: text.into(),
        sender: sender.into(),
        channel: String::new(),
        flag: String::new(),
        language: String::new(),
        target: String::new(),
        notice: None,
    }
}

#[test]
fn a_say_links_the_sender() {
    let got = compose(&line("hello", "Bob"), ChatLineKind::Say, "Common");
    assert_eq!(got.as_deref(), Some("|Hplayer:Bob|h[Bob]|h says: hello"));
}

#[test]
fn channel_speech_drops_the_zone_tail_and_tags_a_foreign_tongue() {
    let mut e = line("wts", "Bob");
    e.channel = "2. Trade - City".into();
    e.language = "Orcish".into();
    let got = compose(&e, ChatLineKind::Channel, "Common");
    assert_eq!(got.as_deref(), Some("[2. Trade] |Hplayer:Bob|h[Bob]|h: [Orcish] wts"));
    e.language = "Common".into();
    let own = compose(&e, ChatLineKind::Channel, "Common");
    assert_eq!(own.as_deref(), Some("[2. Trade] |Hplayer:Bob|h[Bob]|h: wts"));
}

#[test]
fn the_flag_prefixes_the_sender() {
    let mut e = line("brb", "Ann");
    e.flag = "AFK".into();
    assert_eq!(
        compose(&e, ChatLineKind::Whisper, "").as_deref(),
        Some("<AFK>|Hplayer:Ann|h[Ann]|h whispers: brb")
    );
    e.flag = "GM".into();
    assert_eq!(
        compose(&e, ChatLineKind::Emote, "").as_deref(),
        Some("<GM>Ann brb"),
        "an emote's sender is bare"
    );
}

#[test]
fn a_creature_emote_carries_its_own_name_slot() {
    let got = compose(&line("%s growls at %s.", "Hogger"), ChatLineKind::MonsterEmote, "");
    assert_eq!(got.as_deref(), Some("Hogger growls at Hogger."));
    let said = compose(&line("Grr!", "Hogger"), ChatLineKind::MonsterSay, "");
    assert_eq!(said.as_deref(), Some("Hogger says: Grr!"));
}

#[test]
fn verbatim_kinds_print_their_text() {
    for kind in [ChatLineKind::System, ChatLineKind::Loot, ChatLineKind::CombatLog] {
        assert_eq!(compose(&line("You receive loot.", ""), kind, "").as_deref(), Some("You receive loot."));
    }
}

#[test]
fn ignore_and_list_lines() {
    assert_eq!(
        compose(&line("", "Bob"), ChatLineKind::Ignored, "").as_deref(),
        Some("Bob is ignoring you.")
    );
    let mut e = line("Ann Bob", "");
    e.channel = "General - Elwynn Forest".into();
    assert_eq!(
        compose(&e, ChatLineKind::ChannelList, "").as_deref(),
        Some("[General - Elwynn Forest] Ann Bob"),
        "the list line keeps the channel's name whole"
    );
}

#[test]
fn notices_keep_the_channel_name_whole() {
    let mut e = line("", "Ann");
    e.channel = "1. General - Elwynn Forest".into();
    e.target = "Bob".into();
    e.notice = Some(ChannelNotice::YouJoined);
    assert_eq!(
        compose(&e, ChatLineKind::ChannelNotice, "").as_deref(),
        Some("Joined Channel: [1. General - Elwynn Forest]")
    );
    e.notice = Some(ChannelNotice::PlayerKicked);
    assert_eq!(
        compose_notice(&e).as_deref(),
        Some("[1. General - Elwynn Forest] Player Ann kicked by Bob.")
    );
    e.notice = Some(ChannelNotice::Invite);
    assert_eq!(
        compose_notice(&e).as_deref(),
        Some("Ann has invited you to join the channel '1. General - Elwynn Forest'.")
    );
    e.notice = Some(ChannelNotice::ModeChange);
    assert_eq!(compose(&e, ChatLineKind::ChannelNoticeUser, ""), None, "a mode change is silent");
    e.notice = None;
    assert_eq!(compose_notice(&e), None, "an unknown notice prints nothing");
}

#[test]
fn patterns_and_replacement() {
    assert_eq!(get_pattern(ChatLineKind::RaidWarning), "[Raid Warning] %s: ");
    assert_eq!(get_pattern(ChatLineKind::Other), "%s");
    assert_eq!(replace_pct("%s and %s", "X"), "X and X");
    assert_eq!(replace_pct("%%s%", "Y"), "%Y%");
    assert_eq!(replace_pct("", "Y"), "");
}

#[test]
fn the_zone_tail_is_cut_at_the_first_separator() {
    assert_eq!(strip_zone("General"), "General");
    assert_eq!(strip_zone("2. Trade - City"), "2. Trade");
    assert_eq!(strip_zone("a - b - c"), "a");
    assert_eq!(strip_zone("a -"), "a -");
    assert_eq!(strip_zone(" - x"), "");
}
