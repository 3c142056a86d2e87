use omniscientia::bot::{pairing_text, BotEvent};
use omniscientia::cli::{
    i64_to_decimal, ids_for_username, parse_pairing_text, parse_pid, server_event_action, status_filter,
    systemd_unit, ServerAction,
};
use omniscientia::records::{OnboardSession, PendingUser};

fn user(id: i64, name: &str) -> PendingUser {
    PendingUser {
        id,
        username: name.to_string(),
        real_name: String::new(),
        email: String::new(),
        tech_stack: String::new(),
        role_requested: "Employee".to_string(),
        channel: "telegram".to_string(),
        channel_user_id: id.to_string(),
        status: "pending".to_string(),
        created_at: String::new(),
    }
}

#[test]
fn pairing_text_fields_and_defaults() {
    let d = parse_pairing_text("name=Ann | email=a@b.c | tech=Rust | role=Admin");
    assert_eq!((d.name.as_str(), d.email.as_str(), d.tech.as_str(), d.role.as_str()), ("Ann", "a@b.c", "Rust", "Admin"));
    let d = parse_pairing_text("email=x | junk | other=1");
    assert_eq!((d.name.as_str(), d.email.as_str(), d.tech.as_str(), d.role.as_str()), ("", "x", "", "Employee"));
    let d = parse_pairing_text("");
    assert_eq!(d.role, "Employee");
}

#[test]
fn pid_files() {
    assert_eq!(parse_pid("1234\n"), Some(1234));
    assert_eq!(parse_pid("  +7 "), Some(7));
    assert_eq!(parse_pid("4294967295"), Some(4294967295));
    assert_eq!(parse_pid("4294967296"), None);
    assert_eq!(parse_pid("-1"), None);
    assert_eq!(parse_pid("+"), None);
    assert_eq!(parse_pid(""), None);
    assert_eq!(parse_pid("12a"), None);
}

#[test]
fn list_filters() {
    assert_eq!(status_filter(Some("--pending")), Some("pending".to_string()));
    assert_eq!(status_filter(Some("--approved")), Some("approved".to_string()));
    assert_eq!(status_filter(Some("--denied")), Some("denied".to_string()));
    assert_eq!(status_filter(Some("--all")), None);
    assert_eq!(status_filter(None), None);
}

#[test]
fn approve_targets_every_request_of_the_user() {
    let users = vec![user(1, "a"), user(2, "b"), user(3, "a")];
    assert_eq!(ids_for_username(&users, "a"), vec![1, 3]);
    assert!(ids_for_username(&users, "c").is_empty());
}

#[test]
fn unit_file() {
    let u = systemd_unit("/usr/bin/omni", "/srv/o");
    assert_eq!(
        u,
        "[Unit]\nDescription=Omniscientia Background Bot Server\nAfter=network.target\n\n[Service]\nType=simple\nExecStart=/usr/bin/omni server start\nWorkingDirectory=/srv/o\nRestart=on-failure\nRestartSec=5\nStandardOutput=journal\nStandardError=journal\n\n[Install]\nWantedBy=multi-user.target\n"
    );
}

#[test]
fn decimal_text() {
    assert_eq!(i64_to_decimal(0), "0");
    assert_eq!(i64_to_decimal(-42), "-42");
    assert_eq!(i64_to_decimal(i64::MAX), i64::MAX.to_string());
    assert_eq!(i64_to_decimal(i64::MIN), i64::MIN.to_string());
}

#[test]
fn server_handles_bot_events() {
    let e = BotEvent::TelegramPairing {
        chat_id: -100,
        username: "al".to_string(),
        text: "name=A | email=E | tech=T | role=R".to_string(),
    };
    match server_event_action(&e) {
        ServerAction::AddPendingFull { username, details, channel, channel_user_id } => {
            assert_eq!(username, "al");
            assert_eq!(details.name, "A");
            assert_eq!(details.role, "R");
            assert_eq!(channel, "telegram");
            assert_eq!(channel_user_id, "-100");
        }
        _ => panic!("expected a full request"),
    }
    let d = BotEvent::DiscordPairing { channel_id: "c9".to_string(), username: "z".to_string(), text: "t".to_string() };
    match server_event_action(&d) {
        ServerAction::AddPending { username, channel, channel_user_id } => {
            assert_eq!((username.as_str(), channel.as_str(), channel_user_id.as_str()), ("z", "discord", "c9"));
        }
        _ => panic!("expected a bare request"),
    }
    match server_event_action(&BotEvent::Info("up".to_string())) {
        ServerAction::Log(m) => assert_eq!(m, "up"),
        _ => panic!("expected a log line"),
    }
}

#[test]
fn written_pid_reads_back() {
    for n in [0u32, 7, 10, 4242, u32::MAX] {
        assert_eq!(parse_pid(&n.to_string()), Some(n));
        assert_eq!(parse_pid(&format!("{}\n", n)), Some(n));
    }
}

#[test]
fn summary_reads_back_answers_with_bars() {
    let mut s = OnboardSession::default();
    s.real_name = "a|b".to_string();
    s.email = "x |y".to_string();
    s.tech_stack = "Rust |".to_string() + "x";
    s.role_requested = "Admin |".to_string();
    let d = parse_pairing_text(&pairing_text(&s));
    assert_eq!((d.name.as_str(), d.email.as_str(), d.tech.as_str(), d.role.as_str()), ("a|b", "x |y", "Rust |x", "Admin |"));
}
