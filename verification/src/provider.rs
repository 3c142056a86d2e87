//! Requests to an Ollama-style chat endpoint and the reading of its replies.
use vstd::prelude::*;
use crate::json;
use crate::json::opt_view;
use crate::executor::{keep_strings, strings_only};
use crate::text;
use crate::text::{chars_of, concat_chars, string_of, str_then};

verus! {

/// A chat message: who speaks (`system`, `user`, `assistant`) and what is said.
pub struct Message {
    pub role: String,
    pub content: String,
}

/// The body of a chat request.
pub struct ChatRequest {
    pub model: String,
    pub messages: Vec<Message>,
    /// Always false: the endpoint would otherwise stream its reply.
    pub stream: bool,
}

impl View for Message {
    type V = (Seq<char>, Seq<char>);

    open spec fn view(&self) -> (Seq<char>, Seq<char>) {
        (self.role@, self.content@)
    }
}

/// The messages of a request, as (role, content) pairs.
pub open spec fn message_views(m: Seq<Message>) -> Seq<(Seq<char>, Seq<char>)> {
    m.map_values(|x: Message| x@)
}

/// A chat model reached at `endpoint`.
pub struct LlmProvider {
    endpoint: String,
    model: String,
}

/// The chat endpoint for an Ollama base URL: trailing slashes and a trailing
/// `/api/chat` are dropped, then `/api/chat` is appended.
pub open spec fn spec_chat_endpoint(base_url: Seq<char>) -> Seq<char> {
    text::trim_end_seq(text::trim_end_seq(base_url, seq!['/']), "/api/chat"@) + "/api/chat"@
}

/// The model-list URL for an Ollama base URL: trailing slashes, then a
/// trailing `/api/chat`, then a trailing `/api/generate` are dropped, and
/// `/api/tags` is appended.
pub open spec fn spec_tags_url(base_url: Seq<char>) -> Seq<char> {
    text::trim_end_seq(
        text::trim_end_seq(text::trim_end_seq(base_url, seq!['/']), "/api/chat"@),
        "/api/generate"@,
    ) + "/api/tags"@
}

/// What a chat reply body yields: the first choice's message content, else the
/// message content, else an error naming the body.
pub open spec fn spec_parse_json(body: Seq<char>) -> Result<Seq<char>, Seq<char>> {
    match json::json_choice_content(body) {
        Some(c) => Ok(c),
        None => match json::json_str_at(body, "/message/content"@) {
            Some(c) => Ok(c),
            None => Err(
                "Failed to parse response. Body: "@ + match json::json_display(body) {
                    Some(d) => d,
                    None => body,
                },
            ),
        },
    }
}

fn message(role: &str, content: &str) -> (m: Message)
    ensures
        m@ == (role@, content@),
{
    Message { role: string_of(&chars_of(role)), content: string_of(&chars_of(content)) }
}

fn copy_string(s: &String) -> (out: String)
    ensures
        out@ == s@,
{
    s.clone()
}

/// The chat endpoint for an Ollama base URL.
pub fn chat_endpoint(base_url: &str) -> (r: String)
    ensures
        r@ == spec_chat_endpoint(base_url@),
{
    let s = chars_of(base_url);
    let mut slash: Vec<char> = Vec::new();
    slash.push('/');
    assert(slash@ =~= seq!['/']);
    let a = text::trim_end_seq_chars(&s, &slash);
    let b = text::trim_end_seq_chars(&a, &chars_of("/api/chat"));
    let c = concat_chars(&b, &chars_of("/api/chat"));
    string_of(&c)
}

/// The URL that lists the models of an Ollama server.
pub fn tags_url(base_url: &str) -> (r: String)
    ensures
        r@ == spec_tags_url(base_url@),
{
    let s = chars_of(base_url);
    let mut slash: Vec<char> = Vec::new();
    slash.push('/');
    assert(slash@ =~= seq!['/']);
    let a = text::trim_end_seq_chars(&s, &slash);
    let b = text::trim_end_seq_chars(&a, &chars_of("/api/chat"));
    let c = text::trim_end_seq_chars(&b, &chars_of("/api/generate"));
    let d = concat_chars(&c, &chars_of("/api/tags"));
    string_of(&d)
}

/// What `trim_end_seq` leaves never ends with the (non-empty) suffix.
pub proof fn lemma_trim_end_seq_no_suffix(s: Seq<char>, p: Seq<char>)
    requires
        p.len() > 0,
    ensures
        !text::ends_with(text::trim_end_seq(s, p), p),
    decreases s.len(),
{
    if text::ends_with(s, p) {
        lemma_trim_end_seq_no_suffix(s.take(s.len() - p.len()), p);
    }
}

/// Handing `new` a URL that already is a chat endpoint keeps it: the
/// `/api/chat` path is appended once, never twice.
pub proof fn law_endpoint_idempotent(base_url: Seq<char>)
    ensures
        spec_chat_endpoint(spec_chat_endpoint(base_url)) == spec_chat_endpoint(base_url),
{
    reveal_strlit("/api/chat");
    let p = "/api/chat"@;
    let x = text::trim_end_seq(text::trim_end_seq(base_url, seq!['/']), p);
    lemma_trim_end_seq_no_suffix(text::trim_end_seq(base_url, seq!['/']), p);
    let e = x + p;
    assert(e.last() == 't');
    assert(!text::ends_with(e, seq!['/'])) by {
        if text::ends_with(e, seq!['/']) {
            assert(e.skip(e.len() - 1)[0] == e.last());
        }
    }
    assert(text::trim_end_seq(e, seq!['/']) == e);
    assert(e.skip(e.len() - p.len()) =~= p);
    assert(e.take(e.len() - p.len()) =~= x);
    assert(text::trim_end_seq(e, p) == text::trim_end_seq(x, p));
    assert(text::trim_end_seq(x, p) == x);
}

/// The model names listed in the body of a model-list reply: the `name` of
/// each entry of its `models` array that has a string name, in order; none
/// when the body holds no such array.
pub open spec fn spec_model_names(body: Seq<char>) -> Seq<Seq<char>> {
    match json::json_field_list_at(body, "/models"@, "/name"@) {
        Some(l) => keep_strings(l),
        None => seq![],
    }
}

/// The model names listed in the body of a model-list reply.
pub fn model_names(body: &str) -> (r: Vec<String>)
    ensures
        r@.map_values(|x: String| x@) == spec_model_names(body@),
{
    match json::json_pointer_field_list(body, "/models", "/name") {
        Some(l) => strings_only(&l),
        None => {
            let out: Vec<String> = Vec::new();
            assert(out@.map_values(|x: String| x@) =~= Seq::<Seq<char>>::empty());
            out
        },
    }
}

impl LlmProvider {
    /// The endpoint requests are sent to.
    pub closed spec fn spec_endpoint(&self) -> Seq<char> {
        self.endpoint@
    }

    /// The model requests name.
    pub closed spec fn spec_model(&self) -> Seq<char> {
        self.model@
    }

    /// `base_url` should be the Ollama base, e.g. `http://localhost:11434`.
    /// The `/api/chat` path is appended automatically.
    pub fn new(base_url: &str, model: &str) -> (r: Self)
        ensures
            r.spec_endpoint() == spec_chat_endpoint(base_url@),
            r.spec_model() == model@,
    {
        LlmProvider { endpoint: chat_endpoint(base_url), model: string_of(&chars_of(model)) }
    }

    /// The endpoint requests are sent to.
    pub fn endpoint(&self) -> (r: &str)
        ensures
            r@ == self.spec_endpoint(),
    {
        self.endpoint.as_str()
    }

    /// The model requests name.
    pub fn model(&self) -> (r: &str)
        ensures
            r@ == self.spec_model(),
    {
        self.model.as_str()
    }

    /// The request of a single-turn chat: the system prompt when there is one,
    /// then the user's prompt.
    pub fn chat_request(&self, system_prompt: Option<&str>, user_prompt: &str) -> (r: ChatRequest)
        ensures
            r.model@ == self.spec_model(),
            !r.stream,
            message_views(r.messages@) == match system_prompt {
                Some(sys) => seq![("system"@, sys@), ("user"@, user_prompt@)],
                None => seq![("user"@, user_prompt@)],
            },
    {
        let mut messages: Vec<Message> = Vec::new();
        match system_prompt {
            Some(sys) => {
                messages.push(message("system", sys));
            },
            None => {},
        }
        messages.push(message("user", user_prompt));
        proof {
            match system_prompt {
                Some(sys) => {
                    assert(message_views(messages@) =~= seq![("system"@, sys@), ("user"@, user_prompt@)]);
                },
                None => {
                    assert(message_views(messages@) =~= seq![("user"@, user_prompt@)]);
                },
            }
        }
        ChatRequest { model: copy_string(&self.model), messages, stream: false }
    }

    /// The request of a multi-turn chat: the system prompt, the earlier
    /// (role, content) turns in order, then the user's prompt.
    pub fn context_request(
        &self,
        system_prompt: &str,
        history: &[(String, String)],
        user_prompt: &str,
    ) -> (r: ChatRequest)
        ensures
            r.model@ == self.spec_model(),
            !r.stream,
            message_views(r.messages@) == seq![("system"@, system_prompt@)] + history@.map_values(
                |h: (String, String)| (h.0@, h.1@),
            ) + seq![("user"@, user_prompt@)],
    {
        let ghost hv = history@.map_values(|h: (String, String)| (h.0@, h.1@));
        let mut messages: Vec<Message> = Vec::new();
        messages.push(message("system", system_prompt));
        let mut i: usize = 0;
        while i < history.len()
            invariant
                i <= history.len(),
                hv == history@.map_values(|h: (String, String)| (h.0@, h.1@)),
                message_views(messages@) == seq![("system"@, system_prompt@)] + hv.take(i as int),
            decreases history.len() - i,
        {
            let ghost before = message_views(messages@);
            let (role, content) = &history[i];
            messages.push(Message { role: copy_string(role), content: copy_string(content) });
            assert(message_views(messages@) =~= before.push(hv[i as int]));
            assert(hv.take(i + 1) =~= hv.take(i as int).push(hv[i as int]));
            i = i + 1;
        }
        messages.push(message("user", user_prompt));
        assert(hv.take(history.len() as int) =~= hv);
        assert(message_views(messages@) =~= seq![("system"@, system_prompt@)] + hv + seq![
            ("user"@, user_prompt@),
        ]);
        ChatRequest { model: copy_string(&self.model), messages, stream: false }
    }

    /// Reads the reply text out of a chat response body: OpenAI-style
    /// `choices[0].message.content`, else Ollama-style `message.content`.
    pub fn parse_json(json_body: &str) -> (r: Result<String, String>)
        ensures
            match r {
                Ok(c) => spec_parse_json(json_body@) == Ok::<Seq<char>, Seq<char>>(c@),
                Err(e) => spec_parse_json(json_body@) == Err::<Seq<char>, Seq<char>>(e@),
            },
    {
        match json::json_first_choice_content(json_body) {
            Some(c) => return Ok(c),
            None => {},
        }
        match json::json_pointer_str(json_body, "/message/content") {
            Some(c) => return Ok(c),
            None => {},
        }
        let shown = match json::json_to_display(json_body) {
            Some(d) => chars_of(d.as_str()),
            None => chars_of(json_body),
        };
        let e = str_then("Failed to parse response. Body: ", &shown);
        Err(string_of(&e))
    }
}

} // verus!
