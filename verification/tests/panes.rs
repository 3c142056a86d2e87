use omniscientia::panes::{
    chat_title, dev_menu, home_menu, input_line, input_title, pad_chars, pairing_screen_header,
    pairing_screen_row, pairing_screen_title, pairing_table_header, pairing_table_row,
    pending_count, server_badge, status_bar, wiz_field, wizard_hint, wizard_lines,
    wizard_models_title,
};
use omniscientia::provider::model_names;
use omniscientia::records::PendingUser;
use omniscientia::tui::{Key, Wizard};

fn req(id: i64, name: &str, status: &str, created: &str) -> PendingUser {
    PendingUser {
        id,
        username: name.to_string(),
        real_name: String::new(),
        email: String::new(),
        tech_stack: String::new(),
        role_requested: "Employee".to_string(),
        channel: "telegram".to_string(),
        channel_user_id: "1".to_string(),
        status: status.to_string(),
        created_at: created.to_string(),
    }
}

#[test]
fn padding_matches_format_width() {
    let s: Vec<char> = "ab".chars().collect();
    let p: String = pad_chars(&s, 5).into_iter().collect();
    assert_eq!(p, format!("{:<5}", "ab"));
    let long: Vec<char> = "abcdef".chars().collect();
    let p: String = pad_chars(&long, 3).into_iter().collect();
    assert_eq!(p, "abcdef");
    let wide: Vec<char> = "✓x".chars().collect();
    let p: String = pad_chars(&wide, 4).into_iter().collect();
    assert_eq!(p, format!("{:<4}", "✓x"));
}

#[test]
fn pairing_screen_table() {
    assert_eq!(
        pairing_screen_header(),
        format!("  {:<4} {:<20} {:<10} {:<10}", "ID", "Username", "Channel", "Status")
    );
    let u = req(12, "alice", "pending", "2024-01-02 03:04:05");
    assert_eq!(
        pairing_screen_row(&u),
        format!("  {:<4} {:<20} {:<10} {:<10}", 12, "alice", "telegram", "pending")
    );
    let v = req(-3, "bo", "denied", "");
    assert_eq!(
        pairing_screen_row(&v),
        format!("  {:<4} {:<20} {:<10} {:<10}", -3, "bo", "telegram", "denied")
    );
    let list = vec![u, v, req(4, "c", "pending", "")];
    assert_eq!(pending_count(&list), 2);
    assert_eq!(pairing_screen_title(&list), " Pairing Requests  (2 pending) ");
    assert_eq!(pairing_screen_title(&[]), " Pairing Requests  (0 pending) ");
}

#[test]
fn pairing_cli_table() {
    assert_eq!(
        pairing_table_header(),
        format!("{:<4} {:<20} {:<10} {:<10} {:<20}", "ID", "Username", "Channel", "Status", "Created")
    );
    let u = req(7, "alice", "approved", "2024-01-02 03:04:05.123");
    assert_eq!(
        pairing_table_row(&u),
        format!(
            "{:<4} {:<20} {:<10} {:<10} {:<20}",
            7, "alice", "telegram", "approved", "2024-01-02 03:04:05"
        )
    );
    let short = req(8, "b", "pending", "2024");
    assert_eq!(
        pairing_table_row(&short),
        format!("{:<4} {:<20} {:<10} {:<10} {:<20}", 8, "b", "telegram", "pending", "2024")
    );
}

#[test]
fn menus_mark_the_selection() {
    let home = home_menu(1);
    assert_eq!(home.len(), 4);
    assert_eq!(home[0], (format!("    {:<20}", "[>] Chat"), "  Start or continue the admin chat".to_string(), false));
    assert_eq!(home[1], (format!(" >> {:<20}", "[*] Config"), "  Edit model, URL and API tokens".to_string(), true));
    let dev = dev_menu(2, true);
    assert_eq!(dev[2].0, format!(" >> {:<24}", "[S] Stop Server"));
    assert!(dev[2].2);
    let dev = dev_menu(0, false);
    assert_eq!(dev[2].0, format!("    {:<24}", "[S] Start Server"));
    assert_eq!(dev[3].1, "  Return to the main menu");
    assert_eq!(server_badge(true), " [SERVER: RUNNING] ");
    assert_eq!(server_badge(false), " [SERVER: STOPPED] ");
}

#[test]
fn chat_titles() {
    assert_eq!(status_bar("Admin", "llama3", "12:30"), " ◈ Omniscientia  │  Admin  │  llama3  │  12:30 ");
    assert_eq!(chat_title(3, true), " ↑ scrolled 3  |  ↓/PgDn to return ");
    assert_eq!(chat_title(0, true), " ⟳ Thinking… ");
    assert_eq!(chat_title(0, false), " Chat  —  Esc for menu ");
    assert_eq!(input_title(true, "abc"), " ⟳ Please wait… ");
    assert_eq!(input_title(false, "héllo"), " › message  /command  @mention  [6 chars] ");
}

#[test]
fn wizard_form_lines() {
    assert_eq!(wiz_field("1. Ollama URL", "", true), "▶ 1. Ollama URL: —");
    assert_eq!(wiz_field("3. Telegram Token", "abc", false), "  3. Telegram Token: abc");
    let mut w = Wizard::new();
    w.on_key(Key::Char('h'));
    assert_eq!(wizard_hint(&w), " Step 1/4 — Ollama base URL  |  ↑↓ models  |  Enter  |  Esc skip");
    let lines = wizard_lines(&w);
    assert_eq!(lines.len(), 6);
    assert_eq!(lines[0], "▶ 1. Ollama URL: h");
    assert_eq!(lines[1], "  2. AI Model: —");
    assert_eq!(lines[4], "");
    assert_eq!(lines[5], "> h_");
    w.on_key(Key::Enter);
    w.models_arrived(vec!["m1".to_string(), "m2".to_string()]);
    w.on_key(Key::Down);
    assert_eq!(wizard_hint(&w), " Step 2/4 — Pick model  |  ↑↓ models  |  Enter  |  Esc skip");
    let lines = wizard_lines(&w);
    assert_eq!(lines[1], "▶ 2. AI Model: m2");
    assert_eq!(lines[5], "↑↓ select  Enter confirm");
    assert_eq!(wizard_models_title(&w), " Models — ✓ 2 model(s) found ");
    w.on_key(Key::Enter);
    w.on_key(Key::Char('t'));
    let lines = wizard_lines(&w);
    assert_eq!(lines[2], "▶ 3. Telegram Token: t");
    assert_eq!(lines[5], "> t_");
}

#[test]
fn model_names_from_tags_reply() {
    let body = r#"{"models":[{"name":"llama3:latest","size":1},{"size":2},{"name":"mistral"}]}"#;
    assert_eq!(model_names(body), vec!["llama3:latest".to_string(), "mistral".to_string()]);
    assert!(model_names(r#"{"error":"x"}"#).is_empty());
    assert!(model_names("not json").is_empty());
}

#[test]
fn input_line_marks_the_cursor() {
    let l = input_line("héy", 1, false);
    assert_eq!(l.chars, vec![('h', false), ('é', true), ('y', false)]);
    assert!(!l.block_cursor);
    let l = input_line("ab", 2, false);
    assert_eq!(l.chars, vec![('a', false), ('b', false)]);
    assert!(l.block_cursor);
    assert!(!input_line("ab", 2, true).block_cursor);
    assert!(!input_line("é", 1, false).block_cursor);
    assert!(input_line("é", 2, false).block_cursor);
}
