//! Settings: the model endpoint (`config.json`) and the bot tokens (`.env`).
use vstd::prelude::*;
use crate::text;
use crate::text::{chars_of, concat_chars, string_of, str_then};

verus! {

/// Where the chat model is served and which model to use.
#[derive(Debug, Clone)]
pub struct AppConfig {
    pub ollama_base: String,
    pub model_name: String,
}

/// Bot tokens, kept out of `config.json`.
#[derive(Debug, Clone)]
pub struct Secrets {
    pub telegram_token: String,
    pub discord_token: String,
}

impl Default for AppConfig {
    fn default() -> (r: Self)
        ensures
            r.ollama_base@ == Seq::<char>::empty(),
            r.model_name@ == Seq::<char>::empty(),
    {
        AppConfig { ollama_base: String::new(), model_name: String::new() }
    }
}

impl Default for Secrets {
    fn default() -> (r: Self)
        ensures
            r.telegram_token@ == Seq::<char>::empty(),
            r.discord_token@ == Seq::<char>::empty(),
    {
        Secrets { telegram_token: String::new(), discord_token: String::new() }
    }
}

/// The `.env` text for the tokens: a `TELEGRAM_TOKEN=` line and a
/// `DISCORD_TOKEN=` line, each only when its token is set, joined by a newline.
pub open spec fn spec_env_text(telegram: Seq<char>, discord: Seq<char>) -> Seq<char> {
    text::join(
        (if telegram.len() > 0 {
            seq!["TELEGRAM_TOKEN="@ + telegram]
        } else {
            seq![]
        }) + (if discord.len() > 0 {
            seq!["DISCORD_TOKEN="@ + discord]
        } else {
            seq![]
        }),
        seq!['\n'],
    )
}

impl Secrets {
    /// The text written to `.env` for these tokens.
    pub fn env_file_text(&self) -> (r: String)
        ensures
            r@ == spec_env_text(self.telegram_token@, self.discord_token@),
    {
        let mut lines: Vec<Vec<char>> = Vec::new();
        let tg = chars_of(self.telegram_token.as_str());
        let dc = chars_of(self.discord_token.as_str());
        if tg.len() > 0 {
            lines.push(str_then("TELEGRAM_TOKEN=", &tg));
        }
        if dc.len() > 0 {
            lines.push(str_then("DISCORD_TOKEN=", &dc));
        }
        let mut nl: Vec<char> = Vec::new();
        nl.push('\n');
        let joined = text::join_chars(&lines, &nl);
        assert(nl@ =~= seq!['\n']);
        assert(text::views(lines@) =~= (if tg@.len() > 0 {
            seq!["TELEGRAM_TOKEN="@ + tg@]
        } else {
            seq![]
        }) + (if dc@.len() > 0 {
            seq!["DISCORD_TOKEN="@ + dc@]
        } else {
            seq![]
        }));
        string_of(&joined)
    }
}

} // verus!
