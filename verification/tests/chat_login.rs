use benilla::chat_cache::Parsed;
use benilla::chat_login::{login_actions, ChatFileSession, LoginAction};

#[test]
fn a_character_is_restored_once_per_vm() {
    let mut session = ChatFileSession::new();
    assert!(!session.dirty());
    assert!(session.claim("Realm", "Hero"), "first login into this VM restores");
    assert!(!session.claim("Realm", "Hero"), "the same character again: already restored");
    session.mark_dirty();
    assert!(session.claim("Realm", "Other"), "another character restores again");
    assert!(!session.dirty(), "a restore starts with nothing to save");
    assert!(session.claim("Elsewhere", "Other"), "the realm is part of the identity");
    let mut fresh = ChatFileSession::new();
    assert!(fresh.claim("Realm", "Hero"), "a fresh VM restores the same character again");
}

#[test]
fn a_dirty_session_stays_dirty_across_a_repeated_claim_until_saved() {
    let mut session = ChatFileSession::new();
    assert!(session.claim("R", "C"));
    session.mark_dirty();
    assert!(!session.claim("R", "C"));
    assert!(session.dirty());
    session.mark_saved();
    assert!(!session.dirty());
}

#[test]
fn the_login_hands_over_fires_the_events_then_rejoins_in_order() {
    let parsed = Parsed {
        looks: vec![],
        colors: vec![],
        joined: vec!["MyChan".to_string(), "Other".to_string()],
    };
    let actions = login_actions(&parsed);
    assert_eq!(actions.len(), 6);
    assert!(matches!(actions[0], LoginAction::SetChatColors));
    assert!(matches!(actions[1], LoginAction::SetChatWindowLooks));
    assert!(matches!(actions[2], LoginAction::FireUpdateChatWindows));
    assert!(matches!(actions[3], LoginAction::FireUpdateChatColors));
    assert!(matches!(&actions[4], LoginAction::JoinChannel(n) if n == "MyChan"));
    assert!(matches!(&actions[5], LoginAction::JoinChannel(n) if n == "Other"));
}

#[test]
fn with_nothing_to_rejoin_the_login_still_fires_both_events() {
    let actions = login_actions(&Parsed { looks: vec![], colors: vec![], joined: vec![] });
    assert_eq!(actions.len(), 4);
    assert!(matches!(actions[2], LoginAction::FireUpdateChatWindows));
    assert!(matches!(actions[3], LoginAction::FireUpdateChatColors));
}
