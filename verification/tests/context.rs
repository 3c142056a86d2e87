use omniscientia::context::{plan_context, tool_followup, ContextPlan};
use omniscientia::records::DbMessage;

fn msg(id: i64, role: &str, content: &str) -> DbMessage {
    DbMessage { id, user_id: 1, role: role.to_string(), content: content.to_string(), timestamp: String::new() }
}

#[test]
fn short_history_is_passed_whole_with_latest_summary() {
    let all = vec![
        msg(1, "summary", "old"),
        msg(2, "user", "hi"),
        msg(3, "summary", "newer"),
        msg(4, "assistant", "hello"),
    ];
    match plan_context("BASE", &all) {
        ContextPlan::Ready { system, messages } => {
            assert_eq!(system, "BASE\n\n[MEMORY SUMMARY]\nnewer");
            assert_eq!(messages, vec![("user".to_string(), "hi".to_string()), ("assistant".to_string(), "hello".to_string())]);
        }
        _ => panic!("expected a ready context"),
    }
}

#[test]
fn at_most_twenty_recent_turns() {
    let all: Vec<DbMessage> = (0..25).map(|i| msg(i, "user", &format!("m{}", i))).collect();
    match plan_context("B", &all) {
        ContextPlan::Ready { system, messages } => {
            assert_eq!(system, "B");
            assert_eq!(messages.len(), 20);
            assert_eq!(messages[0].1, "m5");
            assert_eq!(messages[19].1, "m24");
        }
        _ => panic!("expected a ready context"),
    }
}

#[test]
fn long_history_is_summarised() {
    let all: Vec<DbMessage> = (0..31).map(|i| msg(i + 100, if i % 2 == 0 { "user" } else { "assistant" }, &format!("t{}", i))).collect();
    match plan_context("B", &all) {
        ContextPlan::Summarise { system, prompt, archive_before } => {
            assert_eq!(system, "You are a concise assistant. Produce a short factual summary only.");
            assert_eq!(archive_before, 120);
            assert!(prompt.starts_with("Summarise the following conversation concisely (key decisions, facts, user preferences). Keep it under 200 words.\n\n---\nuser: t0\nassistant: t1\n"));
            assert!(prompt.ends_with("user: t20\n---"));
        }
        _ => panic!("expected a summary request"),
    }
}

#[test]
fn tool_followup_appends_the_exchange() {
    let ctx = vec![("user".to_string(), "earlier".to_string())];
    let r = tool_followup(ctx, "do it", "```tool_call```", "done");
    assert_eq!(
        r,
        vec![
            ("user".to_string(), "earlier".to_string()),
            ("user".to_string(), "do it".to_string()),
            ("assistant".to_string(), "```tool_call```".to_string()),
            ("user".to_string(), "[tool_result]\ndone".to_string()),
        ]
    );
}
