//! The records kept in the database: chat messages, pairing requests and
//! onboarding sessions.
use vstd::prelude::*;

verus! {

/// A stored chat message.
#[derive(Debug)]
pub struct DbMessage {
    pub id: i64,
    pub user_id: i64,
    pub role: String,
    pub content: String,
    pub timestamp: String,
}

/// A pairing request from a bot channel.
#[derive(Debug, Clone)]
pub struct PendingUser {
    pub id: i64,
    pub username: String,
    pub real_name: String,
    pub email: String,
    pub tech_stack: String,
    pub role_requested: String,
    pub channel: String,
    pub channel_user_id: String,
    pub status: String,
    pub created_at: String,
}

/// The state of one chat's onboarding conversation.
#[derive(Debug, Clone)]
pub struct OnboardSession {
    pub chat_id: String,
    pub channel: String,
    /// 0: not started; 1..=4: waiting for name, email, tech stack, role;
    /// 5: done.
    pub step: i32,
    pub tg_username: String,
    pub real_name: String,
    pub email: String,
    pub tech_stack: String,
    pub role_requested: String,
}

/// An onboarding session over character sequences.
pub struct SessionView {
    pub chat_id: Seq<char>,
    pub channel: Seq<char>,
    pub step: i32,
    pub tg_username: Seq<char>,
    pub real_name: Seq<char>,
    pub email: Seq<char>,
    pub tech_stack: Seq<char>,
    pub role_requested: Seq<char>,
}

impl View for OnboardSession {
    type V = SessionView;

    open spec fn view(&self) -> SessionView {
        SessionView {
            chat_id: self.chat_id@,
            channel: self.channel@,
            step: self.step,
            tg_username: self.tg_username@,
            real_name: self.real_name@,
            email: self.email@,
            tech_stack: self.tech_stack@,
            role_requested: self.role_requested@,
        }
    }
}

impl Default for OnboardSession {
    fn default() -> (r: Self)
        ensures
            r@ == (SessionView {
                chat_id: seq![],
                channel: seq![],
                step: 0,
                tg_username: seq![],
                real_name: seq![],
                email: seq![],
                tech_stack: seq![],
                role_requested: seq![],
            }),
    {
        OnboardSession {
            chat_id: String::new(),
            channel: String::new(),
            step: 0,
            tg_username: String::new(),
            real_name: String::new(),
            email: String::new(),
            tech_stack: String::new(),
            role_requested: String::new(),
        }
    }
}

} // verus!
