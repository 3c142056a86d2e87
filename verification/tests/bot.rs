use omniscientia::bot::{
    already_submitted, bot_base, onboard_step, pairing_text, retry_wait_secs, sender_name, session_or_new,
    step_prompt_text, take_update, updates_url, BotEvent, PollFailure, TgMessage, TgSender, TgUpdate,
};
use omniscientia::cli::parse_pairing_text;
use omniscientia::records::{OnboardSession, PendingUser};

fn pending(chat: &str, status: &str) -> PendingUser {
    PendingUser {
        id: 1,
        username: "u".to_string(),
        real_name: String::new(),
        email: String::new(),
        tech_stack: String::new(),
        role_requested: "Employee".to_string(),
        channel: "telegram".to_string(),
        channel_user_id: chat.to_string(),
        status: status.to_string(),
        created_at: String::new(),
    }
}

const ALREADY: &str = "Your pairing request is already submitted! The admin will review it soon.";

#[test]
fn sender_name_prefers_username() {
    assert_eq!(sender_name(Some("al".to_string()), Some("Alice".to_string())), "al");
    assert_eq!(sender_name(None, Some("Alice".to_string())), "Alice");
    assert_eq!(sender_name(None, None), "");
}

#[test]
fn new_session_is_a_fresh_telegram_session() {
    let s = session_or_new(None, "42", "al");
    assert_eq!((s.chat_id.as_str(), s.channel.as_str(), s.step, s.tg_username.as_str()), ("42", "telegram", 0, "al"));
    let mut stored = OnboardSession::default();
    stored.step = 3;
    assert_eq!(session_or_new(Some(stored), "42", "al").step, 3);
}

#[test]
fn full_onboarding_conversation() {
    let mut s = session_or_new(None, "42", "al");
    let answers = ["hi", "  Alice Smith ", "alice@example.com", "Rust, Python", " Manager "];
    let mut event = None;
    for (k, a) in answers.iter().enumerate() {
        let out = onboard_step(s, a, "al", false, 42);
        assert_eq!(out.reply, step_prompt_text(k));
        s = out.save.expect("the session is stored");
        assert_eq!(s.step, k as i32 + 1);
        if out.event.is_some() {
            event = out.event;
        }
    }
    assert_eq!(s.real_name, "Alice Smith");
    assert_eq!(s.role_requested, "Manager");
    match event {
        Some(BotEvent::TelegramPairing { chat_id, username, text }) => {
            assert_eq!(chat_id, 42);
            assert_eq!(username, "al");
            assert_eq!(text, "name=Alice Smith | email=alice@example.com | tech=Rust, Python | role=Manager");
        }
        _ => panic!("expected the pairing event"),
    }
    let after = onboard_step(s, "again?", "al", false, 42);
    assert_eq!(after.reply, ALREADY);
    assert!(after.save.is_none());
    assert!(after.event.is_none());
}

#[test]
fn already_submitted_chat_is_not_asked_again() {
    let list = vec![pending("7", "denied"), pending("42", "approved")];
    assert!(already_submitted(&list, "42"));
    assert!(!already_submitted(&list, "7"));
    assert!(!already_submitted(&list, "8"));
    let out = onboard_step(session_or_new(None, "42", "al"), "hi", "al", true, 42);
    assert_eq!(out.reply, ALREADY);
    assert!(out.save.is_none());
}

#[test]
fn emitted_summary_reads_back_into_the_answers() {
    let mut s = OnboardSession::default();
    s.real_name = "Bob = B".to_string();
    s.email = "b@x.io".to_string();
    s.tech_stack = "Go".to_string();
    s.role_requested = "Admin".to_string();
    let d = parse_pairing_text(&pairing_text(&s));
    assert_eq!((d.name.as_str(), d.email.as_str(), d.tech.as_str(), d.role.as_str()), ("Bob = B", "b@x.io", "Go", "Admin"));
}

#[test]
fn negative_step_is_treated_as_done() {
    let mut s = OnboardSession::default();
    s.step = -1;
    assert_eq!(onboard_step(s, "x", "u", false, 1).reply, ALREADY);
}

#[test]
fn updates_advance_the_offset_and_keep_text_messages() {
    let u = TgUpdate {
        update_id: 41,
        message: Some(TgMessage {
            chat_id: -100,
            from: Some(TgSender { username: None, first_name: "Ann".to_string() }),
            text: Some("hi".to_string()),
        }),
    };
    let step = take_update(u);
    assert_eq!(step.offset, 42);
    let m = step.incoming.unwrap();
    assert_eq!((m.chat_id, m.chat_key.as_str(), m.sender.as_str(), m.text.as_str()), (-100, "-100", "Ann", "hi"));
    let no_text = TgUpdate {
        update_id: 7,
        message: Some(TgMessage { chat_id: 1, from: None, text: None }),
    };
    let step = take_update(no_text);
    assert_eq!(step.offset, 8);
    assert!(step.incoming.is_none());
    let empty = take_update(TgUpdate { update_id: 0, message: None });
    assert_eq!(empty.offset, 1);
    assert!(empty.incoming.is_none());
}

#[test]
fn poll_urls_and_waits() {
    let base = bot_base("T0K");
    assert_eq!(base, "https://api.telegram.org/botT0K");
    assert_eq!(updates_url(&base, 12), "https://api.telegram.org/botT0K/getUpdates?offset=12&timeout=30");
    assert_eq!(retry_wait_secs(PollFailure::Request), 5);
    assert_eq!(retry_wait_secs(PollFailure::Parse), 2);
    assert_eq!(retry_wait_secs(PollFailure::NotOk), 2);
}
