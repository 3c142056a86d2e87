//! Tool calls requested by the model: finding them in a reply and deciding,
//! by the caller's access level, what running one amounts to.
use vstd::prelude::*;
use crate::json;
use crate::json::opt_view;
use crate::text;
use crate::text::{chars_of, concat_chars, string_of, str_then};
use crate::cli::{digits, u64_to_digits};

verus! {

/// The arguments of a tool call that the tools read, each as found in the
/// call's `args` object.
pub struct ToolArgs {
    /// `args.path`, when it is a string.
    pub path: Option<String>,
    /// `args.content`, when it is a string.
    pub content: Option<String>,
    /// `args.command`, when it is a string.
    pub command: Option<String>,
    /// `args.args`, when it is an array: each element, when it is a string.
    pub args: Option<Vec<Option<String>>>,
    /// `args.script`, when it is a string.
    pub script: Option<String>,
    /// `args.channel`, when it is a string.
    pub channel: Option<String>,
    /// `args.user`, when it is a string.
    pub user: Option<String>,
    /// `args.message`, when it is a string.
    pub message: Option<String>,
}

/// A tool call parsed from the LLM response.
pub struct ToolCall {
    pub tool: String,
    pub args: ToolArgs,
}

/// Runs tool calls on behalf of a user with a given access level
/// (0 = Guest, 1 = Employee, 2 = Manager, 3 = Admin).
pub struct Executor {
    pub access_level: u8,
}

/// What a tool call comes to: a reply that needs no outside work, or the
/// file or process operation to perform.
pub enum ToolAction {
    Reply(String),
    ReadFile(String),
    WriteFile(String, String),
    ShellExec(String, Vec<String>),
    PythonExec(String),
}

/// A `ToolAction` over character sequences.
pub enum ToolActionV {
    Reply(Seq<char>),
    ReadFile(Seq<char>),
    WriteFile(Seq<char>, Seq<char>),
    ShellExec(Seq<char>, Seq<Seq<char>>),
    PythonExec(Seq<char>),
}

impl View for ToolAction {
    type V = ToolActionV;

    open spec fn view(&self) -> ToolActionV {
        match self {
            ToolAction::Reply(s) => ToolActionV::Reply(s@),
            ToolAction::ReadFile(p) => ToolActionV::ReadFile(p@),
            ToolAction::WriteFile(p, c) => ToolActionV::WriteFile(p@, c@),
            ToolAction::ShellExec(c, a) => ToolActionV::ShellExec(
                c@,
                a@.map_values(|x: String| x@),
            ),
            ToolAction::PythonExec(s) => ToolActionV::PythonExec(s@),
        }
    }
}

/// The text between the first "```tool_call" marker of `response` and the
/// next "```" after it, trimmed.
pub open spec fn spec_tool_call_block(response: Seq<char>) -> Option<Seq<char>> {
    match text::find(response, "```tool_call"@) {
        None => None,
        Some(i) => {
            let rest = response.skip(i + "```tool_call"@.len());
            match text::find(rest, "```"@) {
                None => None,
                Some(e) => Some(text::trim(rest.take(e))),
            }
        },
    }
}

/// The elements of a JSON array view that are strings, in order.
pub open spec fn keep_strings(s: Seq<Option<Seq<char>>>) -> Seq<Seq<char>>
    decreases s.len(),
{
    if s.len() == 0 {
        seq![]
    } else {
        keep_strings(s.drop_last()) + match s.last() {
            Some(x) => seq![x],
            None => seq![],
        }
    }
}

/// The view of an optional list of optional strings.
pub open spec fn opt_list_view(o: Option<Vec<Option<String>>>) -> Option<Seq<Option<Seq<char>>>> {
    match o {
        Some(v) => Some(v@.map_values(|x: Option<String>| opt_view(x))),
        None => None,
    }
}

/// `a` holds what the JSON document `block` has under `args`.
pub open spec fn args_of_block(a: ToolArgs, block: Seq<char>) -> bool {
    &&& opt_view(a.path) == json::json_str_at(block, "/args/path"@)
    &&& opt_view(a.content) == json::json_str_at(block, "/args/content"@)
    &&& opt_view(a.command) == json::json_str_at(block, "/args/command"@)
    &&& opt_list_view(a.args) == json::json_str_list_at(block, "/args/args"@)
    &&& opt_view(a.script) == json::json_str_at(block, "/args/script"@)
    &&& opt_view(a.channel) == json::json_str_at(block, "/args/channel"@)
    &&& opt_view(a.user) == json::json_str_at(block, "/args/user"@)
    &&& opt_view(a.message) == json::json_str_at(block, "/args/message"@)
}

/// `o`'s text, or `default` when there is none.
pub open spec fn or_default(o: Option<String>, default: Seq<char>) -> Seq<char> {
    match o {
        Some(s) => s@,
        None => default,
    }
}

/// The confirmation of a notification.
pub open spec fn spec_notification(a: ToolArgs) -> Seq<char> {
    "[NOTIFICATION] → "@ + or_default(a.user, "unknown"@) + " on "@ + or_default(
        a.channel,
        "unknown"@,
    ) + " channel: \""@ + or_default(a.message, "(no message)"@) + "\""@
}

/// What running `tool` with arguments `a` comes to for access level `level`.
pub open spec fn spec_execute(level: u8, tool: Seq<char>, a: ToolArgs) -> ToolActionV {
    if tool == "read_file"@ {
        match a.path {
            Some(p) => ToolActionV::ReadFile(p@),
            None => ToolActionV::Reply("[ERROR] read_file requires 'path' argument."@),
        }
    } else if tool == "write_file"@ {
        if level < 3 {
            ToolActionV::Reply("[DENIED] write_file requires Admin access."@)
        } else {
            match (a.path, a.content) {
                (None, _) => ToolActionV::Reply("[ERROR] write_file requires 'path' argument."@),
                (Some(_), None) => ToolActionV::Reply(
                    "[ERROR] write_file requires 'content' argument."@,
                ),
                (Some(p), Some(c)) => ToolActionV::WriteFile(p@, c@),
            }
        }
    } else if tool == "shell_exec"@ {
        if level < 2 {
            ToolActionV::Reply("[DENIED] shell_exec requires Manager or Admin access."@)
        } else {
            match a.command {
                None => ToolActionV::Reply("[ERROR] shell_exec requires 'command' argument."@),
                Some(c) => ToolActionV::ShellExec(
                    c@,
                    match opt_list_view(a.args) {
                        Some(l) => keep_strings(l),
                        None => seq![],
                    },
                ),
            }
        }
    } else if tool == "python_exec"@ {
        if level < 2 {
            ToolActionV::Reply("[DENIED] python_exec requires Manager or Admin access."@)
        } else {
            match a.script {
                None => ToolActionV::Reply("[ERROR] python_exec requires 'script' argument."@),
                Some(s) => ToolActionV::PythonExec(s@),
            }
        }
    } else if tool == "send_notification"@ {
        if level < 2 {
            ToolActionV::Reply("[DENIED] send_notification requires Manager or Admin access."@)
        } else {
            ToolActionV::Reply(spec_notification(a))
        }
    } else {
        ToolActionV::Reply("[ERROR] Unknown tool: "@ + tool)
    }
}

/// The JSON text of the first "```tool_call" block of `response`.
pub fn tool_call_block(response: &str) -> (r: Option<String>)
    ensures
        opt_view(r) == spec_tool_call_block(response@),
{
    let s = chars_of(response);
    let tag = chars_of("```tool_call");
    match text::find_from_chars(&s, 0, &tag) {
        None => None,
        Some(i) => {
            proof {
                text::lemma_find_from(s@, 0, tag@);
                assert(text::matches_at(s@, i as int, tag@));
                assert(i + tag@.len() <= s@.len());
            }
            assert(i + tag.len() <= s.len());
            let rest = text::sub_chars(&s, i + tag.len(), s.len());
            assert(rest@ =~= response@.skip(i + tag@.len()));
            let fence = chars_of("```");
            match text::find_from_chars(&rest, 0, &fence) {
                None => None,
                Some(e) => {
                    proof {
                        text::lemma_find_from(rest@, 0, fence@);
                        assert(text::matches_at(rest@, e as int, fence@));
                    }
                    let body = text::sub_chars(&rest, 0, e);
                    assert(body@ =~= rest@.take(e as int));
                    let t = text::trim_chars(&body);
                    Some(string_of(&t))
                },
            }
        },
    }
}

pub(crate) fn strings_only(list: &Vec<Option<String>>) -> (out: Vec<String>)
    ensures
        out@.map_values(|x: String| x@) == keep_strings(
            list@.map_values(|x: Option<String>| opt_view(x)),
        ),
{
    let ghost l = list@.map_values(|x: Option<String>| opt_view(x));
    let mut out: Vec<String> = Vec::new();
    let mut i: usize = 0;
    while i < list.len()
        invariant
            i <= list.len(),
            l == list@.map_values(|x: Option<String>| opt_view(x)),
            out@.map_values(|x: String| x@) == keep_strings(l.take(i as int)),
        decreases list.len() - i,
    {
        let ghost before = out@.map_values(|x: String| x@);
        assert(l.take(i + 1).drop_last() =~= l.take(i as int));
        match &list[i] {
            Some(x) => {
                out.push(x.clone());
                assert(out@.map_values(|x: String| x@) =~= before + seq![x@]);
            },
            None => {
                assert(out@.map_values(|x: String| x@) =~= before + Seq::<Seq<char>>::empty());
            },
        }
        i = i + 1;
    }
    assert(l.take(list.len() as int) =~= l);
    out
}

fn reply(lit: &str) -> (out: ToolAction)
    ensures
        out@ == ToolActionV::Reply(lit@),
{
    ToolAction::Reply(string_of(&chars_of(lit)))
}

fn text_or(o: &Option<String>, default: &str) -> (out: Vec<char>)
    ensures
        out@ == or_default(*o, default@),
{
    match o {
        Some(s) => chars_of(s.as_str()),
        None => chars_of(default),
    }
}

impl Executor {
    /// An executor acting with `access_level`.
    pub fn new(access_level: u8) -> (r: Self)
        ensures
            r.access_level == access_level,
    {
        Self { access_level }
    }

    /// Parses the first `tool_call` JSON block from an LLM response string:
    /// the text between "```tool_call" and the next "```", which must be a
    /// JSON document whose `tool` is a string.
    #[verifier::rlimit(30)]
    pub fn parse_tool_call(response: &str) -> (r: Option<ToolCall>)
        ensures
            match r {
                None => spec_tool_call_block(response@) is None || json::json_str_at(
                    spec_tool_call_block(response@)->0,
                    "/tool"@,
                ) is None,
                Some(call) => {
                    &&& spec_tool_call_block(response@) is Some
                    &&& json::json_str_at(spec_tool_call_block(response@)->0, "/tool"@) == Some(
                        call.tool@,
                    )
                    &&& args_of_block(call.args, spec_tool_call_block(response@)->0)
                },
            },
    {
        let block = match tool_call_block(response) {
            Some(b) => b,
            None => return None,
        };
        let b = block.as_str();
        let tool = match json::json_pointer_str(b, "/tool") {
            Some(t) => t,
            None => return None,
        };
        let args = ToolArgs {
            path: json::json_pointer_str(b, "/args/path"),
            content: json::json_pointer_str(b, "/args/content"),
            command: json::json_pointer_str(b, "/args/command"),
            args: json::json_pointer_str_list(b, "/args/args"),
            script: json::json_pointer_str(b, "/args/script"),
            channel: json::json_pointer_str(b, "/args/channel"),
            user: json::json_pointer_str(b, "/args/user"),
            message: json::json_pointer_str(b, "/args/message"),
        };
        Some(ToolCall { tool, args })
    }

    /// What running `call` comes to: tools that change files, run processes or
    /// notify need Manager (2) or, for `write_file`, Admin (3) access; missing
    /// arguments and unknown tools give an error reply.
    #[verifier::rlimit(30)]
    pub fn execute(&self, call: &ToolCall) -> (r: ToolAction)
        ensures
            r@ == spec_execute(self.access_level, call.tool@, call.args),
    {
        let tool = chars_of(call.tool.as_str());
        let a = &call.args;
        if text::eq_str(&tool, "read_file") {
            match &a.path {
                Some(p) => ToolAction::ReadFile(p.clone()),
                None => reply("[ERROR] read_file requires 'path' argument."),
            }
        } else if text::eq_str(&tool, "write_file") {
            if self.access_level < 3 {
                return reply("[DENIED] write_file requires Admin access.");
            }
            match (&a.path, &a.content) {
                (None, _) => reply("[ERROR] write_file requires 'path' argument."),
                (Some(_), None) => reply("[ERROR] write_file requires 'content' argument."),
                (Some(p), Some(c)) => ToolAction::WriteFile(p.clone(), c.clone()),
            }
        } else if text::eq_str(&tool, "shell_exec") {
            if self.access_level < 2 {
                return reply("[DENIED] shell_exec requires Manager or Admin access.");
            }
            match &a.command {
                None => reply("[ERROR] shell_exec requires 'command' argument."),
                Some(c) => {
                    let extra = match &a.args {
                        Some(l) => strings_only(l),
                        None => Vec::new(),
                    };
                    assert(extra@.map_values(|x: String| x@) =~= match opt_list_view(a.args) {
                        Some(l) => keep_strings(l),
                        None => seq![],
                    });
                    ToolAction::ShellExec(c.clone(), extra)
                },
            }
        } else if text::eq_str(&tool, "python_exec") {
            if self.access_level < 2 {
                return reply("[DENIED] python_exec requires Manager or Admin access.");
            }
            match &a.script {
                None => reply("[ERROR] python_exec requires 'script' argument."),
                Some(s) => ToolAction::PythonExec(s.clone()),
            }
        } else if text::eq_str(&tool, "send_notification") {
            if self.access_level < 2 {
                return reply("[DENIED] send_notification requires Manager or Admin access.");
            }
            let user = text_or(&a.user, "unknown");
            let channel = text_or(&a.channel, "unknown");
            let message = text_or(&a.message, "(no message)");
            let t1 = str_then("[NOTIFICATION] → ", &user);
            let t2 = concat_chars(&t1, &chars_of(" on "));
            let t3 = concat_chars(&t2, &channel);
            let t4 = concat_chars(&t3, &chars_of(" channel: \""));
            let t5 = concat_chars(&t4, &message);
            let t6 = concat_chars(&t5, &chars_of("\""));
            ToolAction::Reply(string_of(&t6))
        } else {
            let t = str_then("[ERROR] Unknown tool: ", &tool);
            ToolAction::Reply(string_of(&t))
        }
    }
}

/// How a finished process went: whether it exited successfully, and its
/// standard output and error as text.
pub struct ProcessOutput {
    pub success: bool,
    pub stdout: String,
    pub stderr: String,
}

/// How running the Python tool went.
pub enum PythonOutcome {
    /// The script could not be written to its temporary file: the error.
    ScriptNotWritten(String),
    /// `python3` could not be started: the error.
    NotStarted(String),
    /// `python3` ran: its standard output.
    Ran(String),
}

/// The reply of a `read_file` call for `path`: the file's content, or the
/// error that reading it gave.
pub fn read_reply(path: &str, result: Result<String, String>) -> (r: String)
    ensures
        r@ == match result {
            Ok(c) => c@,
            Err(e) => "[ERROR] Could not read '"@ + path@ + "': "@ + e@,
        },
{
    match result {
        Ok(c) => c,
        Err(e) => {
            let out = concat_chars(&str_then("[ERROR] Could not read '", &chars_of(path)), &str_then("': ", &chars_of(e.as_str())));
            string_of(&out)
        },
    }
}

/// The reply of a `write_file` call that wrote `content` to `path`: the
/// number of bytes written, or the error that writing gave.
pub fn write_reply(path: &str, content: &str, result: Result<(), String>) -> (r: String)
    ensures
        r@ == match result {
            Ok(_) => "Written "@ + digits(content.len() as nat) + " bytes to '"@ + path@ + "'."@,
            Err(e) => "[ERROR] Could not write '"@ + path@ + "': "@ + e@,
        },
{
    match result {
        Ok(_) => {
            let n = content.len();
            let out = concat_chars(&str_then("Written ", &u64_to_digits(n as u64)), &str_then(" bytes to '", &chars_of(path)));
            string_of(&concat_chars(&out, &chars_of("'.")))
        },
        Err(e) => {
            let out = concat_chars(&str_then("[ERROR] Could not write '", &chars_of(path)), &str_then("': ", &chars_of(e.as_str())));
            string_of(&out)
        },
    }
}

/// The reply of a `shell_exec` call of `command`: its output when it exited
/// successfully, else its error output after "[STDERR] ", or the error that
/// kept it from starting.
pub fn shell_reply(command: &str, result: Result<ProcessOutput, String>) -> (r: String)
    ensures
        r@ == match result {
            Ok(o) => if o.success {
                o.stdout@
            } else {
                "[STDERR] "@ + o.stderr@
            },
            Err(e) => "[ERROR] Failed to run '"@ + command@ + "': "@ + e@,
        },
{
    match result {
        Ok(o) => if o.success {
            o.stdout
        } else {
            string_of(&str_then("[STDERR] ", &chars_of(o.stderr.as_str())))
        },
        Err(e) => {
            let out = concat_chars(&str_then("[ERROR] Failed to run '", &chars_of(command)), &str_then("': ", &chars_of(e.as_str())));
            string_of(&out)
        },
    }
}

/// The reply of a `python_exec` call: the script's output, or the error that
/// kept it from being written or run.
pub fn python_reply(outcome: PythonOutcome) -> (r: String)
    ensures
        r@ == match outcome {
            PythonOutcome::ScriptNotWritten(e) => "[ERROR] Could not write temp script: "@ + e@,
            PythonOutcome::NotStarted(e) => "[ERROR] python3 failed: "@ + e@,
            PythonOutcome::Ran(out) => out@,
        },
{
    match outcome {
        PythonOutcome::ScriptNotWritten(e) => string_of(&str_then("[ERROR] Could not write temp script: ", &chars_of(e.as_str()))),
        PythonOutcome::NotStarted(e) => string_of(&str_then("[ERROR] python3 failed: ", &chars_of(e.as_str()))),
        PythonOutcome::Ran(out) => out,
    }
}

/// What a model's reply leads to in a chat turn.
pub enum ReplyStep {
    /// The reply asks for a tool: run it, note its result, and ask the model
    /// to summarise that result.
    RunTool(ToolCall),
    /// The reply is the answer: store it and show it.
    Show(String),
}

/// The reply holds a "```tool_call" block whose JSON names a tool.
pub open spec fn spec_reply_calls_tool(response: Seq<char>) -> bool {
    spec_tool_call_block(response) is Some && json::json_str_at(
        spec_tool_call_block(response)->0,
        "/tool"@,
    ) is Some
}

/// Decides what a model's reply leads to: a tool run when it holds a tool
/// call, else the reply itself is shown.
pub fn reply_step(response: &str) -> (r: ReplyStep)
    ensures
        match r {
            ReplyStep::Show(t) => !spec_reply_calls_tool(response@) && t@ == response@,
            ReplyStep::RunTool(call) => {
                &&& spec_reply_calls_tool(response@)
                &&& json::json_str_at(spec_tool_call_block(response@)->0, "/tool"@) == Some(
                    call.tool@,
                )
                &&& args_of_block(call.args, spec_tool_call_block(response@)->0)
            },
        },
{
    match Executor::parse_tool_call(response) {
        Some(call) => ReplyStep::RunTool(call),
        None => ReplyStep::Show(string_of(&chars_of(response))),
    }
}

/// Guests and Employees (levels below 2) can only read files: every other
/// tool call is answered without touching files or processes.
pub proof fn law_low_access_only_reads(level: u8, tool: Seq<char>, a: ToolArgs)
    requires
        level < 2,
    ensures
        spec_execute(level, tool, a) is Reply || spec_execute(level, tool, a) is ReadFile,
{
}

/// Writing a file is only ever done for Admins.
pub proof fn law_write_needs_admin(level: u8, tool: Seq<char>, a: ToolArgs)
    ensures
        spec_execute(level, tool, a) is WriteFile ==> level >= 3,
{
}

/// Running a process (shell or Python) is only ever done for Managers and Admins.
pub proof fn law_process_needs_manager(level: u8, tool: Seq<char>, a: ToolArgs)
    ensures
        (spec_execute(level, tool, a) is ShellExec || spec_execute(level, tool, a) is PythonExec)
            ==> level >= 2,
{
}

/// A path written by an Admin's `write_file` call is the path that a
/// `read_file` call for it reads, at every access level.
pub proof fn law_write_then_read_same_path(level: u8, w: ToolArgs, r: ToolArgs)
    requires
        w.path is Some,
        w.content is Some,
        r.path is Some,
        r.path->0@ == w.path->0@,
    ensures
        spec_execute(3, "write_file"@, w) == ToolActionV::WriteFile(w.path->0@, w.content->0@),
        spec_execute(level, "read_file"@, r) == ToolActionV::ReadFile(w.path->0@),
{
    reveal_strlit("read_file");
    reveal_strlit("write_file");
    assert("write_file"@.len() != "read_file"@.len());
}

/// The first "```tool_call" of `pre` + the marker + `rest` is the marker,
/// when `pre` holds none.
proof fn lemma_marker_first(pre: Seq<char>, rest: Seq<char>)
    requires
        forall|j: int| !text::matches_at(pre, j, "```tool_call"@),
    ensures
        text::find(pre + "```tool_call"@ + rest, "```tool_call"@) == Some(pre.len() as int),
        (pre + "```tool_call"@ + rest).skip(pre.len() + 12int) == rest,
{
    reveal_strlit("```tool_call");
    let m = "```tool_call"@;
    let w = pre + m + rest;
    let n = pre.len() as int;
    assert(w.subrange(n, n + 12) =~= m);
    assert(m.len() == 12);
    assert(m[0] == '`' && m[1] == '`' && m[2] == '`' && m[3] == 't');
    assert(forall|q: int| 3 <= q < 12 ==> m[q] != '`');
    assert forall|j: int| 0 <= j < n implies !text::matches_at(w, j, m) by {
        if text::matches_at(w, j, m) {
            let win = w.subrange(j, j + 12);
            assert(win == m);
            if j + 12 <= n {
                assert(pre.subrange(j, j + 12) =~= win);
                assert(text::matches_at(pre, j, m));
            } else if j >= n - 2 {
                let q = 3 - (n - j);
                assert(w[n + q] == w.subrange(n, n + 12)[q]);
                assert(win[3] == w[j + 3]);
                assert(m[q] == '`');
            } else {
                let q = n - j;
                assert(w[n] == w.subrange(n, n + 12)[0]);
                assert(win[q] == w[n]);
                assert(m[q] != '`');
            }
        }
    }
    text::lemma_find_first(w, m, n);
    assert(w.skip(n + 12) =~= rest);
}

/// In "\n" + `body` + "\n" + "```", the first "```" is the closing one,
/// when `body` holds none.
proof fn lemma_closing_first(body: Seq<char>)
    requires
        forall|j: int| !text::matches_at(body, j, "```"@),
    ensures
        text::find(seq!['\n'] + body + seq!['\n'] + "```"@, "```"@) == Some(body.len() + 2int),
        (seq!['\n'] + body + seq!['\n'] + "```"@).take(body.len() + 2int) == seq!['\n'] + body
            + seq!['\n'],
{
    reveal_strlit("```");
    let e = "```"@;
    let rest = seq!['\n'] + body + seq!['\n'] + e;
    let b = body.len() as int;
    assert(rest.subrange(b + 2, b + 5) =~= e);
    assert(e.len() == 3 && e[0] == '`' && e[1] == '`' && e[2] == '`');
    assert(rest[0] == '\n' && rest[b + 1] == '\n');
    assert forall|j: int| 0 <= j < b + 2 implies !text::matches_at(rest, j, e) by {
        if text::matches_at(rest, j, e) {
            let win = rest.subrange(j, j + 3);
            assert(win == e);
            if j == 0 {
                assert(win[0] == rest[0]);
            } else if j + 2 <= b {
                assert(body.subrange(j - 1, j + 2) =~= win);
                assert(text::matches_at(body, j - 1, e));
            } else {
                let q = b + 1 - j;
                assert(win[q] == rest[b + 1]);
            }
        }
    }
    text::lemma_find_first(rest, e, b + 2);
    assert(rest.take(b + 2) =~= seq!['\n'] + body + seq!['\n']);
}

/// Trimming "\n" + `body` + "\n" gives `body` when `body` neither starts nor
/// ends with whitespace.
proof fn lemma_trim_wrapped(body: Seq<char>)
    requires
        body.len() > 0 ==> !text::is_ws(body[0]) && !text::is_ws(body.last()),
    ensures
        text::trim(seq!['\n'] + body + seq!['\n']) == body,
{
    let inner = seq!['\n'] + body + seq!['\n'];
    assert(text::is_ws('\n'));
    assert(inner.drop_first() =~= body + seq!['\n']);
    assert(text::trim_start(inner) == text::trim_start(body + seq!['\n']));
    if body.len() > 0 {
        assert((body + seq!['\n'])[0] == body[0]);
        assert(text::trim_start(body + seq!['\n']) == body + seq!['\n']);
        assert((body + seq!['\n']).drop_last() =~= body);
        assert(text::trim_end(body + seq!['\n']) == text::trim_end(body));
        assert(text::trim_end(body) == body);
    } else {
        assert(body + seq!['\n'] =~= seq!['\n']);
        assert(seq!['\n'].drop_first() =~= Seq::<char>::empty());
        assert(text::trim_start(Seq::<char>::empty()) == Seq::<char>::empty());
        assert(text::trim_start(seq!['\n']) == Seq::<char>::empty());
        assert(text::trim_end(Seq::<char>::empty()) =~= body);
    }
}

/// A reply that puts a JSON text `body` in a "```tool_call" block after a
/// preamble `pre` hands exactly `body` to the JSON reader, as long as `pre`
/// holds no "```tool_call", `body` holds no "```" and `body` neither starts
/// nor ends with whitespace.
pub proof fn law_tool_call_block_round_trip(pre: Seq<char>, body: Seq<char>)
    requires
        forall|j: int| !text::matches_at(pre, j, "```tool_call"@),
        forall|j: int| !text::matches_at(body, j, "```"@),
        body.len() > 0 ==> !text::is_ws(body[0]) && !text::is_ws(body.last()),
    ensures
        spec_tool_call_block(pre + "```tool_call"@ + seq!['\n'] + body + seq!['\n'] + "```"@)
            == Some(body),
{
    let rest = seq!['\n'] + body + seq!['\n'] + "```"@;
    assert(pre + "```tool_call"@ + seq!['\n'] + body + seq!['\n'] + "```"@ =~= pre + "```tool_call"@
        + rest);
    reveal_strlit("```tool_call");
    lemma_marker_first(pre, rest);
    lemma_closing_first(body);
    lemma_trim_wrapped(body);
    let w = pre + "```tool_call"@ + rest;
    assert(text::find(w, "```tool_call"@) == Some(pre.len() as int));
    assert(w.skip((pre.len() + "```tool_call"@.len()) as int) == rest);
}

} // verus!
