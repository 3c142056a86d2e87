use omniscientia::bot::BotEvent;
use omniscientia::tui::{
    completions, line_kind, message_count, visible_range, AppState, Dispatch, Key, LineKind,
    PairingAction, Screen, WizStep, Wizard, WizardAction,
};
use omniscientia::records::PendingUser;

fn state() -> AppState {
    AppState::new("Admin".to_string(), "llama3", "http://localhost:11434", &[], None)
}

fn user(id: i64, name: &str) -> PendingUser {
    PendingUser {
        id,
        username: name.to_string(),
        real_name: String::new(),
        email: String::new(),
        tech_stack: String::new(),
        role_requested: "Employee".to_string(),
        channel: "telegram".to_string(),
        channel_user_id: id.to_string(),
        status: "pending".to_string(),
        created_at: String::new(),
    }
}

fn type_text(s: &mut AppState, t: &str, users: &[String]) {
    for c in t.chars() {
        assert_eq!(s.on_chat(Key::Char(c), users), None);
    }
}

#[test]
fn new_state_shows_welcome_and_history() {
    let hist = vec![
        ("user".to_string(), "hi".to_string()),
        ("assistant".to_string(), "hello".to_string()),
    ];
    let s = AppState::new("Admin".to_string(), "llama3", "http://x", &hist, Some(7));
    assert!(s.running);
    assert_eq!(s.screen, Screen::Home);
    assert_eq!(s.messages[0], "Welcome to Omniscientia, Admin!");
    assert_eq!(s.messages[1], "Model: llama3  |  http://x");
    assert_eq!(s.messages[3], "-".repeat(50));
    assert_eq!(s.messages[4], "Admin: hi");
    assert_eq!(s.messages[5], "omni: hello");
    assert_eq!(s.messages.len(), 6);
    assert_eq!(s.server_pid, Some(7));
}

#[test]
fn home_menu_moves_and_opens() {
    let mut s = state();
    s.on_home(Key::Up);
    assert_eq!(s.home_sel, 0);
    for _ in 0..6 {
        s.on_home(Key::Down);
    }
    assert_eq!(s.home_sel, 3);
    s.on_home(Key::Enter);
    assert_eq!(s.screen, Screen::DevMenu);
    s.home_sel = 0;
    s.on_home(Key::Enter);
    assert_eq!(s.screen, Screen::Chat);
    s.on_home(Key::Char('q'));
    assert!(!s.running);
}

#[test]
fn dev_menu_toggles_server_and_goes_back() {
    let mut s = state();
    s.screen = Screen::DevMenu;
    assert!(!s.on_dev(Key::Down));
    assert!(!s.on_dev(Key::Down));
    assert!(s.on_dev(Key::Enter));
    assert_eq!(s.screen, Screen::DevMenu);
    s.dev_sel = 0;
    assert!(!s.on_dev(Key::Enter));
    assert_eq!(s.screen, Screen::DbViewer);
    s.on_stub(Key::Esc);
    assert_eq!(s.screen, Screen::DevMenu);
    assert!(!s.on_dev(Key::Esc));
    assert_eq!(s.screen, Screen::Home);
}

#[test]
fn pairing_screen_actions() {
    let mut s = state();
    s.screen = Screen::Pairing;
    assert!(matches!(s.on_pairing(Key::Char('a')), PairingAction::Stay));
    s.pairing_list = vec![user(10, "al"), user(11, "bo")];
    assert!(matches!(s.on_pairing(Key::Down), PairingAction::Stay));
    assert_eq!(s.pairing_sel, 1);
    s.on_pairing(Key::Down);
    assert_eq!(s.pairing_sel, 1);
    match s.on_pairing(Key::Char('a')) {
        PairingAction::Approve { id, username } => {
            assert_eq!(id, 11);
            assert_eq!(username, "bo");
        }
        _ => panic!("expected approve"),
    }
    s.on_pairing(Key::Up);
    assert!(matches!(s.on_pairing(Key::Char('d')), PairingAction::Deny { id: 10 }));
    s.pairing_sel = 1;
    assert!(matches!(s.on_pairing(Key::Char('r')), PairingAction::Refresh));
    assert_eq!(s.pairing_sel, 0);
    s.on_pairing(Key::Esc);
    assert_eq!(s.screen, Screen::Home);
}

#[test]
fn chat_typing_and_submit() {
    let mut s = state();
    s.screen = Screen::Chat;
    type_text(&mut s, "hallo", &[]);
    assert_eq!(s.input, "hallo");
    assert_eq!(s.cursor, 5);
    s.on_chat(Key::Left, &[]);
    s.on_chat(Key::Backspace, &[]);
    assert_eq!(s.input, "halo");
    assert_eq!(s.cursor, 3);
    s.on_chat(Key::Home, &[]);
    s.on_chat(Key::Delete, &[]);
    assert_eq!(s.input, "alo");
    s.on_chat(Key::End, &[]);
    assert_eq!(s.cursor, 3);
    let sent = s.on_chat(Key::Enter, &[]);
    assert_eq!(sent, Some("alo".to_string()));
    assert_eq!(s.input, "");
    assert_eq!(s.cursor, 0);
}

#[test]
fn chat_scroll_and_escape() {
    let mut s = state();
    s.screen = Screen::Chat;
    s.on_chat(Key::PageUp, &[]);
    s.on_chat(Key::Up, &[]);
    assert_eq!(s.scroll, 2);
    s.on_chat(Key::Down, &[]);
    assert_eq!(s.scroll, 1);
    s.on_chat(Key::Esc, &[]);
    assert_eq!(s.screen, Screen::Home);
}

#[test]
fn chat_waiting_ignores_typing() {
    let mut s = state();
    s.screen = Screen::Chat;
    s.waiting = true;
    assert_eq!(s.on_chat(Key::Char('x'), &[]), None);
    assert_eq!(s.input, "");
    assert_eq!(s.on_chat(Key::Enter, &[]), None);
}

#[test]
fn slash_completion_opens_and_picks() {
    let mut s = state();
    s.screen = Screen::Chat;
    type_text(&mut s, "/c", &[]);
    assert_eq!(s.ac_items, Some(vec!["/clear".to_string(), "/config".to_string()]));
    assert_eq!(s.ac_sel, 0);
    s.on_chat(Key::Down, &[]);
    assert_eq!(s.ac_sel, 1);
    s.on_chat(Key::Down, &[]);
    assert_eq!(s.ac_sel, 1);
    s.on_chat(Key::Tab, &[]);
    assert_eq!(s.input, "/config");
    assert_eq!(s.cursor, 7);
    assert_eq!(s.ac_items, None);
}

#[test]
fn mention_completion_replaces_from_at() {
    let users = vec!["alice".to_string(), "bob".to_string(), "alan".to_string()];
    let mut s = state();
    s.screen = Screen::Chat;
    type_text(&mut s, "hi @al", &users);
    assert_eq!(s.ac_items, Some(vec!["@alice".to_string(), "@alan".to_string()]));
    s.on_chat(Key::Enter, &users);
    assert_eq!(s.input, "hi @alice");
    s.on_chat(Key::Esc, &users);
    assert_eq!(s.screen, Screen::Home);
}

#[test]
fn completion_escape_closes_popup() {
    let mut s = state();
    s.screen = Screen::Chat;
    type_text(&mut s, "/", &[]);
    assert_eq!(s.ac_items.as_ref().map(|v| v.len()), Some(6));
    s.on_chat(Key::Esc, &[]);
    assert_eq!(s.ac_items, None);
    assert_eq!(s.screen, Screen::Chat);
}

#[test]
fn completions_function_directly() {
    let before: Vec<char> = "x /he".chars().collect();
    assert_eq!(completions(&before, &[]), Some(vec!["/help".to_string()]));
    let before: Vec<char> = "plain".chars().collect();
    assert_eq!(completions(&before, &["plain".to_string()]), None);
    let before: Vec<char> = "/zz @b".chars().collect();
    assert_eq!(completions(&before, &["bob".to_string()]), Some(vec!["@bob".to_string()]));
}

#[test]
fn dispatch_commands_and_messages() {
    let mut s = state();
    let n = s.messages.len();
    assert!(matches!(s.dispatch("   "), Dispatch::Handled));
    assert_eq!(s.messages.len(), n);
    assert!(matches!(s.dispatch("/help"), Dispatch::Handled));
    assert_eq!(s.messages[n], "── Commands ──");
    assert_eq!(s.messages[n + 1], "  /quit");
    assert_eq!(s.messages.len(), n + 7);
    assert!(matches!(s.dispatch("hello"), Dispatch::Ask));
    assert!(s.waiting);
    assert_eq!(s.messages.last().unwrap(), "Admin: hello");
    s.add_reply("hi there");
    s.done_waiting();
    assert!(!s.waiting);
    assert_eq!(s.messages.last().unwrap(), "omni: hi there");
    assert!(matches!(s.dispatch(" /clear "), Dispatch::Handled));
    assert!(s.messages.iter().all(|m| !m.starts_with("Admin:")));
    assert!(s.messages.iter().any(|m| m == "omni: hi there"));
    assert!(matches!(s.dispatch("/quit"), Dispatch::Handled));
    assert!(!s.running);
}

#[test]
fn clear_drops_welcome_and_own_lines() {
    let mut s = state();
    s.messages = vec![
        "Omniscientia: x".to_string(),
        "Admin: q".to_string(),
        "omni: a".to_string(),
        "[Bot] b".to_string(),
    ];
    s.dispatch("/clear");
    assert_eq!(s.messages, vec!["omni: a".to_string(), "[Bot] b".to_string()]);
}

#[test]
fn added_lines_have_their_prefixes() {
    let mut s = state();
    s.add_error("boom");
    assert_eq!(s.messages.last().unwrap(), "[ERROR] boom");
    s.add_bot_event(&BotEvent::Info("up".to_string()));
    assert_eq!(s.messages.last().unwrap(), "[Bot] up");
    s.add_bot_event(&BotEvent::TelegramPairing { chat_id: 1, username: "al".to_string(), text: "t".to_string() });
    assert_eq!(s.messages.last().unwrap(), "[TG] @al wants to pair: t");
    s.add_tool_note("read_file", "short");
    assert_eq!(s.messages.last().unwrap(), "[Tool] read_file → short");
    let long = "y".repeat(200);
    s.add_tool_note("t", &long);
    assert_eq!(s.messages.last().unwrap(), &format!("[Tool] t → {}", "y".repeat(120)));
}

#[test]
fn line_kinds() {
    assert!(matches!(line_kind("Admin: hi", "Admin"), LineKind::User));
    match line_kind("omni:   **bold**", "Admin") {
        LineKind::Reply(t) => assert_eq!(t, "**bold**"),
        _ => panic!("expected a reply"),
    }
    assert!(matches!(line_kind("[TG] @x wants", "Admin"), LineKind::Pairing));
    assert!(matches!(line_kind("[DC] @x wants", "Admin"), LineKind::Pairing));
    assert!(matches!(line_kind("[Bot] up", "Admin"), LineKind::Bot));
    assert!(matches!(line_kind("[Tool] t", "Admin"), LineKind::Tool));
    assert!(matches!(line_kind("[ERROR] e", "Admin"), LineKind::Error));
    assert!(matches!(line_kind("-----", "Admin"), LineKind::Rule));
    assert!(matches!(line_kind("── Commands ──", "Admin"), LineKind::Rule));
    assert!(matches!(line_kind("hello", "Admin"), LineKind::Plain));
}

#[test]
fn visible_rows_and_counts() {
    assert_eq!(visible_range(100, 10, 0), (90, 100));
    assert_eq!(visible_range(100, 10, 5), (85, 95));
    assert_eq!(visible_range(5, 10, 0), (0, 5));
    assert_eq!(visible_range(5, 10, 8), (0, 0));
    let msgs = vec!["a: b".to_string(), "no colon".to_string(), "── x: y".to_string(), "c:".to_string()];
    assert_eq!(message_count(&msgs), 2);
}

#[test]
fn wizard_flow() {
    let mut w = Wizard::new();
    assert_eq!(w.step_number(), 1);
    assert_eq!(w.status, "Enter Ollama URL then press Enter");
    assert!(matches!(w.on_key(Key::Enter), WizardAction::FetchModels));
    assert_eq!(w.url, "http://localhost:11434");
    w.models_arrived(vec![]);
    assert_eq!(w.step, WizStep::Model);
    assert_eq!(w.models.len(), 4);
    assert_eq!(w.status, "⚠ Unreachable — pick a default");
    w.on_key(Key::Down);
    w.on_key(Key::Down);
    assert_eq!(w.selected, Some(2));
    w.on_key(Key::Up);
    assert_eq!(w.selected, Some(1));
    w.on_key(Key::Enter);
    assert_eq!(w.step_number(), 3);
    for c in "tok".chars() {
        w.on_key(Key::Char(c));
    }
    w.on_key(Key::Backspace);
    w.on_key(Key::Enter);
    assert_eq!(w.step, WizStep::Discord);
    w.on_key(Key::Char('d'));
    w.on_key(Key::Enter);
    assert!(w.done);
    let (cfg, sec) = w.result();
    assert_eq!(cfg.ollama_base, "http://localhost:11434");
    assert_eq!(cfg.model_name, "llama3");
    assert_eq!(sec.telegram_token, "to");
    assert_eq!(sec.discord_token, "d");
}

#[test]
fn wizard_found_models_and_typed_url() {
    let mut w = Wizard::new();
    for c in "http://h:1".chars() {
        w.on_key(Key::Char(c));
    }
    assert!(matches!(w.on_key(Key::Enter), WizardAction::FetchModels));
    assert_eq!(w.url, "http://h:1");
    w.models_arrived(vec!["m1".to_string(), "m2".to_string()]);
    assert_eq!(w.status, "✓ 2 model(s) found");
    assert_eq!(w.selected, Some(0));
    w.on_key(Key::Esc);
    assert!(w.done);
    assert_eq!(w.result().0.model_name, "m1");
}

#[test]
fn backspace_undoes_typing_even_with_popup() {
    let mut s = state();
    s.screen = Screen::Chat;
    type_text(&mut s, "ab", &[]);
    s.on_chat(Key::Left, &[]);
    s.on_chat(Key::Char('/'), &[]);
    assert!(s.ac_items.is_some());
    s.on_chat(Key::Backspace, &[]);
    assert_eq!(s.input, "ab");
    assert_eq!(s.cursor, 1);
}

#[test]
fn menu_selection_stays_in_range() {
    let mut s = state();
    for k in [Key::Down, Key::Down, Key::Down, Key::Down, Key::Up, Key::Down, Key::Down] {
        s.on_home(k);
        assert!(s.home_sel <= 3);
        s.on_dev(k);
        assert!(s.dev_sel <= 3);
    }
}

#[test]
fn typing_in_the_middle_inserts_at_the_cursor() {
    let mut s = state();
    s.screen = Screen::Chat;
    type_text(&mut s, "ac", &[]);
    s.on_chat(Key::Left, &[]);
    s.on_chat(Key::Char('b'), &[]);
    assert_eq!(s.input, "abc");
    assert_eq!(s.cursor, 2);
    for k in [Key::Right, Key::Right, Key::Right, Key::End, Key::Backspace, Key::Delete, Key::Home, Key::Delete] {
        s.on_chat(k, &[]);
        assert!(s.cursor <= s.input.len());
    }
    assert_eq!(s.input, "b");
}
