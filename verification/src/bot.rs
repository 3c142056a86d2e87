//! The Telegram onboarding conversation: a chat answers four questions, one
//! per message, and the completed answers become a pairing request.
//!
//! The conversation state is an `OnboardSession` stored per chat, so that a
//! restart never asks a question again and a finished chat is not onboarded
//! twice.
use vstd::prelude::*;
use crate::records::{OnboardSession, PendingUser, SessionView};
use crate::text;
use crate::text::{chars_of, concat_chars, string_of, str_then};
use crate::cli::{decimal, i64_to_decimal};
use crate::json::opt_view;

verus! {

/// Events the bot server reports.
#[derive(Debug, Clone)]
pub enum BotEvent {
    TelegramPairing { chat_id: i64, username: String, text: String },
    DiscordPairing { channel_id: String, username: String, text: String },
    Info(String),
}

/// What one incoming message leads to: the reply to send, the session to
/// store (if any) and the event to report (if any).
pub struct OnboardOutcome {
    pub reply: String,
    pub save: Option<OnboardSession>,
    pub event: Option<BotEvent>,
}

/// The question (or, for step 4, the closing note) sent at step `k`.
pub open spec fn step_prompt(k: int) -> Seq<char> {
    if k == 0 {
        "👋 Hello! I'm the Omniscientia onboarding bot.\n\nWhat is your full name?"@
    } else if k == 1 {
        "📧 Thanks! What is your email address?"@
    } else if k == 2 {
        "🛠 What is your tech stack? (e.g. Rust, Python, React)"@
    } else if k == 3 {
        "🎯 What role are you requesting?\n\nOptions: Employee / Manager / Admin"@
    } else {
        "✅ All done! Your pairing request has been submitted.\nThe admin will review it shortly and notify you."@
    }
}

/// The reply to a chat whose request is already in.
pub open spec fn already_submitted_reply() -> Seq<char> {
    "Your pairing request is already submitted! The admin will review it soon."@
}

/// The summary of a finished onboarding, as the server reads it back.
pub open spec fn spec_pairing_text(s: SessionView) -> Seq<char> {
    "name="@ + s.real_name + " | email="@ + s.email + " | tech="@ + s.tech_stack + " | role="@
        + s.role_requested
}

/// The name shown for a Telegram sender: the username, else the first name,
/// else nothing.
pub open spec fn spec_sender_name(username: Option<Seq<char>>, first_name: Option<Seq<char>>) -> Seq<char> {
    match username {
        Some(u) => u,
        None => match first_name {
            Some(f) => f,
            None => seq![],
        },
    }
}

/// A chat with a request that is pending or approved.
pub open spec fn spec_already_submitted(pending: Seq<PendingUser>, chat_key: Seq<char>) -> bool {
    exists|i: int|
        0 <= i < pending.len() && pending[i].channel_user_id@ == chat_key && (
        pending[i].status@ == "pending"@ || pending[i].status@ == "approved"@)
}

/// `o` is a session whose view is `v`.
pub open spec fn saves(o: Option<OnboardSession>, v: SessionView) -> bool {
    match o {
        Some(n) => n@ == v,
        None => false,
    }
}

/// `e` is the Telegram pairing event of chat `chat_id`, sender `username`
/// and summary `text`.
pub open spec fn reports_pairing(e: Option<BotEvent>, chat_id: i64, username: Seq<char>, text: Seq<char>) -> bool {
    match e {
        Some(BotEvent::TelegramPairing { chat_id: c, username: u, text: x }) => c == chat_id
            && u@ == username && x@ == text,
        _ => false,
    }
}

/// The reply to a message in a session at `v.step`: the question of the
/// step, or, for a chat whose request is in or a finished session, the note
/// that it is in.
pub open spec fn onboard_reply(v: SessionView, already_done: bool) -> Seq<char> {
    if (v.step == 0 && already_done) || v.step < 0 || v.step > 4 {
        already_submitted_reply()
    } else {
        step_prompt(v.step as int)
    }
}

/// The session stored after the message `text` from `uname`, if any: each
/// step records its (trimmed) answer and moves on by one.
pub open spec fn onboard_next(v: SessionView, text: Seq<char>, uname: Seq<char>, already_done: bool) -> Option<SessionView> {
    let t = text::trim(text);
    if v.step == 0 {
        if already_done {
            None
        } else {
            Some(SessionView { tg_username: uname, step: 1, ..v })
        }
    } else if v.step == 1 {
        Some(SessionView { real_name: t, step: 2, ..v })
    } else if v.step == 2 {
        Some(SessionView { email: t, step: 3, ..v })
    } else if v.step == 3 {
        Some(SessionView { tech_stack: t, step: 4, ..v })
    } else if v.step == 4 {
        Some(SessionView { role_requested: t, step: 5, ..v })
    } else {
        None
    }
}

/// The stored session's view, if one is stored.
pub open spec fn saved_view(o: Option<OnboardSession>) -> Option<SessionView> {
    match o {
        Some(n) => Some(n@),
        None => None,
    }
}

/// The prompt sent at step `k`.
pub fn step_prompt_text(k: usize) -> (r: String)
    requires
        k < 5,
    ensures
        r@ == step_prompt(k as int),
{
    let t = if k == 0 {
        "👋 Hello! I'm the Omniscientia onboarding bot.\n\nWhat is your full name?"
    } else if k == 1 {
        "📧 Thanks! What is your email address?"
    } else if k == 2 {
        "🛠 What is your tech stack? (e.g. Rust, Python, React)"
    } else if k == 3 {
        "🎯 What role are you requesting?\n\nOptions: Employee / Manager / Admin"
    } else {
        "✅ All done! Your pairing request has been submitted.\nThe admin will review it shortly and notify you."
    };
    string_of(&chars_of(t))
}

fn owned(s: &str) -> (r: String)
    ensures
        r@ == s@,
{
    string_of(&chars_of(s))
}

/// The name shown for a Telegram sender: `username` when the sender has one,
/// else `first_name` (absent when the message has no sender), else "".
pub fn sender_name(username: Option<String>, first_name: Option<String>) -> (r: String)
    ensures
        r@ == spec_sender_name(crate::json::opt_view(username), crate::json::opt_view(first_name)),
{
    match username {
        Some(u) => u,
        None => match first_name {
            Some(f) => f,
            None => String::new(),
        },
    }
}

/// The stored session of a chat, or a fresh Telegram session for it.
pub fn session_or_new(loaded: Option<OnboardSession>, chat_key: &str, tg_uname: &str) -> (r: OnboardSession)
    ensures
        match loaded {
            Some(s) => r@ == s@,
            None => r@ == (SessionView {
                chat_id: chat_key@,
                channel: "telegram"@,
                step: 0,
                tg_username: tg_uname@,
                real_name: seq![],
                email: seq![],
                tech_stack: seq![],
                role_requested: seq![],
            }),
        },
{
    match loaded {
        Some(s) => s,
        None => OnboardSession {
            chat_id: owned(chat_key),
            channel: owned("telegram"),
            step: 0,
            tg_username: owned(tg_uname),
            real_name: String::new(),
            email: String::new(),
            tech_stack: String::new(),
            role_requested: String::new(),
        },
    }
}

/// Whether the chat `chat_key` already has a pending or approved request.
pub fn already_submitted(pending: &[PendingUser], chat_key: &str) -> (r: bool)
    ensures
        r == spec_already_submitted(pending@, chat_key@),
{
    let key = chars_of(chat_key);
    let mut i: usize = 0;
    while i < pending.len()
        invariant
            i <= pending.len(),
            key@ == chat_key@,
            forall|j: int|
                0 <= j < i ==> !(pending@[j].channel_user_id@ == chat_key@ && (
                pending@[j].status@ == "pending"@ || pending@[j].status@ == "approved"@)),
        decreases pending.len() - i,
    {
        let u = &pending[i];
        let id = chars_of(u.channel_user_id.as_str());
        let st = chars_of(u.status.as_str());
        if text::eq_chars(&id, &key) && (text::eq_str(&st, "pending") || text::eq_str(&st, "approved")) {
            return true;
        }
        i = i + 1;
    }
    false
}

/// The summary line of a finished onboarding:
/// "name=… | email=… | tech=… | role=…".
pub fn pairing_text(s: &OnboardSession) -> (r: String)
    ensures
        r@ == spec_pairing_text(s@),
{
    let a = str_then("name=", &chars_of(s.real_name.as_str()));
    let b = concat_chars(&a, &str_then(" | email=", &chars_of(s.email.as_str())));
    let c = concat_chars(&b, &str_then(" | tech=", &chars_of(s.tech_stack.as_str())));
    let d = concat_chars(&c, &str_then(" | role=", &chars_of(s.role_requested.as_str())));
    string_of(&d)
}

/// Advances the onboarding conversation of one chat by one incoming message
/// `text` from the sender `tg_uname`; `already_done` tells whether the chat
/// already has a pending or approved request.
///
/// At step 0 the first question is asked (unless a request is already in);
/// at steps 1 to 4 the trimmed answer is stored and the next question asked;
/// after step 4 the pairing event is emitted and the session marked done
/// (step 5). A finished session is only told that its request is in.
#[verifier::rlimit(30)]
pub fn onboard_step(
    session: OnboardSession,
    text: &str,
    tg_uname: &str,
    already_done: bool,
    chat_id: i64,
) -> (out: OnboardOutcome)
    ensures
        ({
            let v = session@;
            let t = text::trim(text@);
            &&& (v.step == 0 && already_done) ==> out.reply@ == already_submitted_reply()
                && out.save is None && out.event is None
            &&& (v.step == 0 && !already_done) ==> out.reply@ == step_prompt(0) && out.event is None
                && saves(out.save, SessionView { tg_username: tg_uname@, step: 1, ..v })
            &&& v.step == 1 ==> out.reply@ == step_prompt(1) && out.event is None
                && saves(out.save, SessionView { real_name: t, step: 2, ..v })
            &&& v.step == 2 ==> out.reply@ == step_prompt(2) && out.event is None
                && saves(out.save, SessionView { email: t, step: 3, ..v })
            &&& v.step == 3 ==> out.reply@ == step_prompt(3) && out.event is None
                && saves(out.save, SessionView { tech_stack: t, step: 4, ..v })
            &&& v.step == 4 ==> out.reply@ == step_prompt(4)
                && saves(out.save, SessionView { role_requested: t, step: 5, ..v })
                && reports_pairing(out.event, chat_id, v.tg_username,
                    spec_pairing_text(SessionView { role_requested: t, step: 5, ..v }))
            &&& (v.step < 0 || v.step > 4) ==> out.reply@ == already_submitted_reply()
                && out.save is None && out.event is None
        }),
        out.reply@ == onboard_reply(session@, already_done),
        saved_view(out.save) == onboard_next(session@, text@, tg_uname@, already_done),
{
    let mut session = session;
    let answer = string_of(&text::trim_chars(&chars_of(text)));
    if session.step == 0 {
        if already_done {
            return OnboardOutcome {
                reply: owned("Your pairing request is already submitted! The admin will review it soon."),
                save: None,
                event: None,
            };
        }
        session.tg_username = owned(tg_uname);
        session.step = 1;
        OnboardOutcome { reply: step_prompt_text(0), save: Some(session), event: None }
    } else if session.step == 1 {
        session.real_name = answer;
        session.step = 2;
        OnboardOutcome { reply: step_prompt_text(1), save: Some(session), event: None }
    } else if session.step == 2 {
        session.email = answer;
        session.step = 3;
        OnboardOutcome { reply: step_prompt_text(2), save: Some(session), event: None }
    } else if session.step == 3 {
        session.tech_stack = answer;
        session.step = 4;
        OnboardOutcome { reply: step_prompt_text(3), save: Some(session), event: None }
    } else if session.step == 4 {
        session.role_requested = answer;
        session.step = 5;
        let summary = pairing_text(&session);
        let event = BotEvent::TelegramPairing {
            chat_id,
            username: session.tg_username.clone(),
            text: summary,
        };
        OnboardOutcome { reply: step_prompt_text(4), save: Some(session), event: Some(event) }
    } else {
        OnboardOutcome {
            reply: owned("Your pairing request is already submitted! The admin will review it soon."),
            save: None,
            event: None,
        }
    }
}

/// A chat that answers the bot hears each of its five prompts once and in
/// order, ends with its answers (trimmed) and its sender's name stored in a
/// finished session, and from then on only hears that its request is in.
pub proof fn law_onboarding_in_order(start: SessionView, msgs: Seq<Seq<char>>, uname: Seq<char>)
    requires
        start.step == 0,
        msgs.len() == 6,
    ensures
        ({
            let s1 = onboard_next(start, msgs[0], uname, false)->0;
            let s2 = onboard_next(s1, msgs[1], uname, false)->0;
            let s3 = onboard_next(s2, msgs[2], uname, false)->0;
            let s4 = onboard_next(s3, msgs[3], uname, false)->0;
            let s5 = onboard_next(s4, msgs[4], uname, false)->0;
            &&& onboard_next(start, msgs[0], uname, false) is Some
            &&& onboard_next(s1, msgs[1], uname, false) is Some
            &&& onboard_next(s2, msgs[2], uname, false) is Some
            &&& onboard_next(s3, msgs[3], uname, false) is Some
            &&& onboard_next(s4, msgs[4], uname, false) is Some
            &&& onboard_reply(start, false) == step_prompt(0)
            &&& onboard_reply(s1, false) == step_prompt(1)
            &&& onboard_reply(s2, false) == step_prompt(2)
            &&& onboard_reply(s3, false) == step_prompt(3)
            &&& onboard_reply(s4, false) == step_prompt(4)
            &&& s5 == (SessionView {
                tg_username: uname,
                real_name: text::trim(msgs[1]),
                email: text::trim(msgs[2]),
                tech_stack: text::trim(msgs[3]),
                role_requested: text::trim(msgs[4]),
                step: 5,
                ..start
            })
            &&& onboard_reply(s5, false) == already_submitted_reply()
            &&& onboard_next(s5, msgs[5], uname, false) is None
            &&& forall|i: int, j: int| 0 <= i < j < 5 ==> step_prompt(i) != step_prompt(j)
        }),
{
    reveal_strlit("👋 Hello! I'm the Omniscientia onboarding bot.\n\nWhat is your full name?");
    reveal_strlit("📧 Thanks! What is your email address?");
    reveal_strlit("🛠 What is your tech stack? (e.g. Rust, Python, React)");
    reveal_strlit("🎯 What role are you requesting?\n\nOptions: Employee / Manager / Admin");
    reveal_strlit("✅ All done! Your pairing request has been submitted.\nThe admin will review it shortly and notify you.");
    assert forall|i: int, j: int| 0 <= i < j < 5 implies step_prompt(i) != step_prompt(j) by {
        assert(step_prompt(i)[0] != step_prompt(j)[0]);
    }
}

/// A Telegram sender: its username, when it has one, and its first name.
pub struct TgSender {
    pub username: Option<String>,
    pub first_name: String,
}

/// A Telegram message: its chat, its sender (if any) and its text (if any).
pub struct TgMessage {
    pub chat_id: i64,
    pub from: Option<TgSender>,
    pub text: Option<String>,
}

/// One update from `getUpdates`.
pub struct TgUpdate {
    pub update_id: i64,
    pub message: Option<TgMessage>,
}

/// A text message for the onboarding conversation: its chat, the chat's key
/// in the database, the sender's name and the text.
pub struct Incoming {
    pub chat_id: i64,
    pub chat_key: String,
    pub sender: String,
    pub text: String,
}

/// What the poller takes from one update: the offset to poll from next and
/// the text message to handle, if the update holds one.
pub struct UpdateStep {
    pub offset: i64,
    pub incoming: Option<Incoming>,
}

/// The sender's name as shown for a message from `from`.
pub open spec fn sender_of(from: Option<TgSender>) -> Seq<char> {
    match from {
        Some(f) => spec_sender_name(opt_view(f.username), Some(f.first_name@)),
        None => spec_sender_name(None, None),
    }
}

/// Takes one update: the next poll starts after it, and only a message with
/// text is handed on, keyed by its chat id in decimal.
pub fn take_update(u: TgUpdate) -> (r: UpdateStep)
    requires
        u.update_id < i64::MAX,
    ensures
        r.offset == u.update_id + 1,
        match u.message {
            Some(m) => match m.text {
                Some(t) => r.incoming matches Some(i) && i.chat_id == m.chat_id && i.chat_key@
                    == decimal(m.chat_id as int) && i.sender@ == sender_of(m.from) && i.text@ == t@,
                None => r.incoming is None,
            },
            None => r.incoming is None,
        },
{
    let offset = u.update_id + 1;
    let incoming = match u.message {
        Some(m) => match m.text {
            Some(text) => {
                let (username, first_name) = match m.from {
                    Some(f) => (f.username, Some(f.first_name)),
                    None => (None, None),
                };
                Some(
                    Incoming {
                        chat_id: m.chat_id,
                        chat_key: i64_to_decimal(m.chat_id),
                        sender: sender_name(username, first_name),
                        text,
                    },
                )
            },
            None => None,
        },
        None => None,
    };
    UpdateStep { offset, incoming }
}

/// Why a poll brought no updates: the request failed, its body could not be
/// read, or Telegram answered that it was not ok.
pub enum PollFailure {
    Request,
    Parse,
    NotOk,
}

/// Seconds to wait before polling again after a failed poll.
pub fn retry_wait_secs(f: PollFailure) -> (s: u64)
    ensures
        s == match f {
            PollFailure::Request => 5u64,
            PollFailure::Parse => 2,
            PollFailure::NotOk => 2,
        },
{
    match f {
        PollFailure::Request => 5,
        PollFailure::Parse => 2,
        PollFailure::NotOk => 2,
    }
}

/// The base URL of the Bot API for `token`.
pub fn bot_base(token: &str) -> (r: String)
    ensures
        r@ == "https://api.telegram.org/bot"@ + token@,
{
    string_of(&str_then("https://api.telegram.org/bot", &chars_of(token)))
}

/// The long-poll request for the updates from `offset` on.
pub fn updates_url(base: &str, offset: i64) -> (r: String)
    ensures
        r@ == base@ + "/getUpdates?offset="@ + decimal(offset as int) + "&timeout=30"@,
{
    let o = i64_to_decimal(offset);
    let out = concat_chars(&concat_chars(&str_then(base, &chars_of("/getUpdates?offset=")), &chars_of(o.as_str())), &chars_of("&timeout=30"));
    string_of(&out)
}

/// A chat counts as having submitted exactly when one of its requests (keyed
/// by the chat) is pending or approved: a pending request counts, an approved
/// one counts, and a chat whose requests are all in another status (such as
/// denied) or that has none does not.
pub proof fn law_submitted_pending_or_approved(pending: Seq<PendingUser>, key: Seq<char>)
    ensures
        forall|i: int|
            0 <= i < pending.len() && #[trigger] pending[i].channel_user_id@ == key
                && pending[i].status@ == "pending"@ ==> spec_already_submitted(pending, key),
        forall|i: int|
            0 <= i < pending.len() && #[trigger] pending[i].channel_user_id@ == key
                && pending[i].status@ == "approved"@ ==> spec_already_submitted(pending, key),
        (forall|i: int|
            0 <= i < pending.len() && #[trigger] pending[i].channel_user_id@ == key ==> pending[i].status@
                != "pending"@ && pending[i].status@ != "approved"@) ==> !spec_already_submitted(
            pending,
            key,
        ),
{
}

} // verus!
