use omniscientia::executor::{
    python_reply, read_reply, reply_step, shell_reply, tool_call_block, write_reply, Executor, ProcessOutput,
    PythonOutcome, ReplyStep, ToolAction, ToolArgs, ToolCall,
};

fn no_args() -> ToolArgs {
    ToolArgs {
        path: None,
        content: None,
        command: None,
        args: None,
        script: None,
        channel: None,
        user: None,
        message: None,
    }
}

fn call(tool: &str, args: ToolArgs) -> ToolCall {
    ToolCall { tool: tool.to_string(), args }
}

fn reply(a: ToolAction) -> String {
    match a {
        ToolAction::Reply(s) => s,
        _ => panic!("expected a reply"),
    }
}

#[test]
fn finds_the_tool_call_block() {
    let r = "Sure.\n```tool_call\n  {\"tool\": \"read_file\"}  \n```\nDone.";
    assert_eq!(tool_call_block(r), Some("{\"tool\": \"read_file\"}".to_string()));
    assert_eq!(tool_call_block("```tool_call {\"tool\":1}"), None);
    assert_eq!(tool_call_block("no block here"), None);
}

#[test]
fn parses_a_tool_call_with_arguments() {
    let r = "```tool_call\n{\"tool\": \"shell_exec\", \"args\": {\"command\": \"ls\", \"args\": [\"-la\", 3, \"/tmp\"], \"path\": 7}}\n```";
    let c = Executor::parse_tool_call(r).expect("a tool call");
    assert_eq!(c.tool, "shell_exec");
    assert_eq!(c.args.command, Some("ls".to_string()));
    assert_eq!(c.args.args, Some(vec![Some("-la".to_string()), None, Some("/tmp".to_string())]));
    assert_eq!(c.args.path, None);
    assert_eq!(c.args.script, None);
}

#[test]
fn rejects_invalid_json_or_missing_tool() {
    assert!(Executor::parse_tool_call("```tool_call\n{not json}\n```").is_none());
    assert!(Executor::parse_tool_call("```tool_call\n{\"tool\": 5}\n```").is_none());
    assert!(Executor::parse_tool_call("```tool_call\n{\"args\": {}}\n```").is_none());
}

#[test]
fn new_keeps_the_access_level() {
    assert_eq!(Executor::new(2).access_level, 2);
}

#[test]
fn read_file_is_open_to_everyone() {
    let mut a = no_args();
    a.path = Some("notes.txt".to_string());
    match Executor::new(0).execute(&call("read_file", a)) {
        ToolAction::ReadFile(p) => assert_eq!(p, "notes.txt"),
        _ => panic!("expected a read"),
    }
    assert_eq!(
        reply(Executor::new(0).execute(&call("read_file", no_args()))),
        "[ERROR] read_file requires 'path' argument."
    );
}

#[test]
fn write_file_needs_admin() {
    let mut a = no_args();
    a.path = Some("out.txt".to_string());
    a.content = Some("hi".to_string());
    let c = call("write_file", a);
    assert_eq!(reply(Executor::new(2).execute(&c)), "[DENIED] write_file requires Admin access.");
    match Executor::new(3).execute(&c) {
        ToolAction::WriteFile(p, body) => {
            assert_eq!(p, "out.txt");
            assert_eq!(body, "hi");
        }
        _ => panic!("expected a write"),
    }
    let mut only_path = no_args();
    only_path.path = Some("x".to_string());
    assert_eq!(
        reply(Executor::new(3).execute(&call("write_file", only_path))),
        "[ERROR] write_file requires 'content' argument."
    );
    assert_eq!(
        reply(Executor::new(3).execute(&call("write_file", no_args()))),
        "[ERROR] write_file requires 'path' argument."
    );
}

#[test]
fn processes_need_manager() {
    let mut a = no_args();
    a.command = Some("ls".to_string());
    a.args = Some(vec![Some("-l".to_string()), None, Some("/".to_string())]);
    let c = call("shell_exec", a);
    assert_eq!(
        reply(Executor::new(1).execute(&c)),
        "[DENIED] shell_exec requires Manager or Admin access."
    );
    match Executor::new(2).execute(&c) {
        ToolAction::ShellExec(cmd, args) => {
            assert_eq!(cmd, "ls");
            assert_eq!(args, vec!["-l".to_string(), "/".to_string()]);
        }
        _ => panic!("expected a shell command"),
    }
    assert_eq!(
        reply(Executor::new(2).execute(&call("shell_exec", no_args()))),
        "[ERROR] shell_exec requires 'command' argument."
    );
    assert_eq!(
        reply(Executor::new(0).execute(&call("python_exec", no_args()))),
        "[DENIED] python_exec requires Manager or Admin access."
    );
    assert_eq!(
        reply(Executor::new(3).execute(&call("python_exec", no_args()))),
        "[ERROR] python_exec requires 'script' argument."
    );
    let mut s = no_args();
    s.script = Some("print(1)".to_string());
    match Executor::new(2).execute(&call("python_exec", s)) {
        ToolAction::PythonExec(src) => assert_eq!(src, "print(1)"),
        _ => panic!("expected a script"),
    }
}

#[test]
fn notifications() {
    let mut a = no_args();
    a.channel = Some("telegram".to_string());
    a.user = Some("alice".to_string());
    a.message = Some("Report ready".to_string());
    assert_eq!(
        reply(Executor::new(3).execute(&call("send_notification", a))),
        "[NOTIFICATION] → alice on telegram channel: \"Report ready\""
    );
    assert_eq!(
        reply(Executor::new(2).execute(&call("send_notification", no_args()))),
        "[NOTIFICATION] → unknown on unknown channel: \"(no message)\""
    );
    assert_eq!(
        reply(Executor::new(1).execute(&call("send_notification", no_args()))),
        "[DENIED] send_notification requires Manager or Admin access."
    );
}

#[test]
fn unknown_tools_are_reported() {
    assert_eq!(reply(Executor::new(3).execute(&call("fly", no_args()))), "[ERROR] Unknown tool: fly");
}

#[test]
fn parsed_call_runs_end_to_end() {
    let r = "```tool_call\n{\"tool\": \"read_file\", \"args\": {\"path\": \"memory/SOLE.md\"}}\n```";
    let c = Executor::parse_tool_call(r).unwrap();
    match Executor::new(1).execute(&c) {
        ToolAction::ReadFile(p) => assert_eq!(p, "memory/SOLE.md"),
        _ => panic!("expected a read"),
    }
}

#[test]
fn serialized_tool_call_reads_back() {
    let mut args = serde_json::Map::new();
    args.insert("path".to_string(), serde_json::Value::String("notes/a.txt".to_string()));
    args.insert("content".to_string(), serde_json::Value::String("hi | there".to_string()));
    let mut obj = serde_json::Map::new();
    obj.insert("tool".to_string(), serde_json::Value::String("write_file".to_string()));
    obj.insert("args".to_string(), serde_json::Value::Object(args));
    let body = serde_json::to_string(&serde_json::Value::Object(obj)).unwrap();
    let reply_text = format!("I'll save it.\n```tool_call\n{}\n```", body);
    assert_eq!(tool_call_block(&reply_text), Some(body.clone()));
    let c = Executor::parse_tool_call(&reply_text).unwrap();
    assert_eq!(c.tool, "write_file");
    assert_eq!(c.args.path.as_deref(), Some("notes/a.txt"));
    assert_eq!(c.args.content.as_deref(), Some("hi | there"));
}

#[test]
fn written_path_is_read_path() {
    let mut w = no_args();
    w.path = Some("f.txt".to_string());
    w.content = Some("data".to_string());
    match Executor::new(3).execute(&call("write_file", w)) {
        ToolAction::WriteFile(p, c) => assert_eq!((p.as_str(), c.as_str()), ("f.txt", "data")),
        _ => panic!("expected a write"),
    }
    for level in 0..4u8 {
        let mut r = no_args();
        r.path = Some("f.txt".to_string());
        match Executor::new(level).execute(&call("read_file", r)) {
            ToolAction::ReadFile(p) => assert_eq!(p, "f.txt"),
            _ => panic!("expected a read"),
        }
    }
}

#[test]
fn reply_step_runs_tools_or_shows_text() {
    match reply_step("ok\n```tool_call\n{\"tool\":\"read_file\",\"args\":{\"path\":\"x\"}}\n```") {
        ReplyStep::RunTool(c) => {
            assert_eq!(c.tool, "read_file");
            assert_eq!(c.args.path.as_deref(), Some("x"));
        }
        ReplyStep::Show(_) => panic!("expected a tool run"),
    }
    match reply_step("just **text**") {
        ReplyStep::Show(t) => assert_eq!(t, "just **text**"),
        ReplyStep::RunTool(_) => panic!("expected text"),
    }
    match reply_step("```tool_call\n{\"args\":{}}\n```") {
        ReplyStep::Show(t) => assert_eq!(t, "```tool_call\n{\"args\":{}}\n```"),
        ReplyStep::RunTool(_) => panic!("a block without a tool is shown"),
    }
}

#[test]
fn tool_outcomes_become_replies() {
    assert_eq!(read_reply("a.txt", Ok("body".to_string())), "body");
    assert_eq!(read_reply("a.txt", Err("No such file".to_string())), "[ERROR] Could not read 'a.txt': No such file");
    assert_eq!(write_reply("a.txt", "héllo", Ok(())), "Written 6 bytes to 'a.txt'.");
    assert_eq!(write_reply("a.txt", "x", Err("denied".to_string())), "[ERROR] Could not write 'a.txt': denied");
    let ok = ProcessOutput { success: true, stdout: "out\n".to_string(), stderr: "warn".to_string() };
    assert_eq!(shell_reply("ls", Ok(ok)), "out\n");
    let bad = ProcessOutput { success: false, stdout: "out".to_string(), stderr: "boom".to_string() };
    assert_eq!(shell_reply("ls", Ok(bad)), "[STDERR] boom");
    assert_eq!(shell_reply("nope", Err("not found".to_string())), "[ERROR] Failed to run 'nope': not found");
    assert_eq!(python_reply(PythonOutcome::Ran("42\n".to_string())), "42\n");
    assert_eq!(python_reply(PythonOutcome::NotStarted("x".to_string())), "[ERROR] python3 failed: x");
    assert_eq!(
        python_reply(PythonOutcome::ScriptNotWritten("full".to_string())),
        "[ERROR] Could not write temp script: full"
    );
}
