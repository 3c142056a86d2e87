//! The rolling context window of a conversation.
//!
//! When a user's history holds more than `MAX_TURNS` turns, the oldest ones
//! (all but `KEEP_RECENT`) are to be summarised by the model and archived;
//! otherwise the context is the system prompt, extended by the latest
//! summary, and the last `MAX_RECENT` turns.
use vstd::prelude::*;
use crate::records::DbMessage;
use crate::text;
use crate::text::{chars_of, concat_chars, string_of, str_then};

verus! {

/// Summarise once the history holds more turns than this.
pub const MAX_TURNS: usize = 30;

/// Turns kept unsummarised when summarising.
pub const KEEP_RECENT: usize = 10;

/// The most turns passed to the model.
pub const MAX_RECENT: usize = 20;

/// What to do to build a conversation's context.
pub enum ContextPlan {
    /// Ask the model (with `system`) to summarise with `prompt`; on success,
    /// store the summary and archive the messages up to `archive_before`,
    /// then plan again.
    Summarise { system: String, prompt: String, archive_before: i64 },
    /// The context is ready: the system prompt and the (role, content) turns.
    Ready { system: String, messages: Vec<(String, String)> },
}

/// A stored summary.
pub open spec fn is_summary(m: DbMessage) -> bool {
    m.role@ == "summary"@
}

/// The conversation turns: every message that is not a summary, in order.
pub open spec fn turns_of(all: Seq<DbMessage>) -> Seq<DbMessage>
    decreases all.len(),
{
    if all.len() == 0 {
        seq![]
    } else {
        turns_of(all.drop_last()) + if is_summary(all.last()) {
            seq![]
        } else {
            seq![all.last()]
        }
    }
}

/// The content of the latest summary, or nothing.
pub open spec fn latest_summary(all: Seq<DbMessage>) -> Seq<char>
    decreases all.len(),
{
    if all.len() == 0 {
        seq![]
    } else if is_summary(all.last()) {
        all.last().content@
    } else {
        latest_summary(all.drop_last())
    }
}

/// The system prompt extended by the latest summary, when there is one.
pub open spec fn spec_context_system(system_base: Seq<char>, all: Seq<DbMessage>) -> Seq<char> {
    if latest_summary(all).len() == 0 {
        system_base
    } else {
        system_base + "\n\n[MEMORY SUMMARY]\n"@ + latest_summary(all)
    }
}

/// A turn as (role, content).
pub open spec fn turn_view(m: DbMessage) -> (Seq<char>, Seq<char>) {
    (m.role@, m.content@)
}

/// The last `MAX_RECENT` turns (all of them when there are fewer).
pub open spec fn recent_turns(turns: Seq<DbMessage>) -> Seq<(Seq<char>, Seq<char>)> {
    let start = if turns.len() > MAX_RECENT {
        turns.len() - MAX_RECENT
    } else {
        0
    };
    turns.skip(start).map_values(|m: DbMessage| turn_view(m))
}

/// A transcript line "role: content".
pub open spec fn transcript_line(m: DbMessage) -> Seq<char> {
    m.role@ + ": "@ + m.content@
}

/// The request to summarise `batch`.
pub open spec fn spec_summary_prompt(batch: Seq<DbMessage>) -> Seq<char> {
    "Summarise the following conversation concisely (key decisions, facts, user preferences). Keep it under 200 words.\n\n---\n"@
        + text::join(batch.map_values(|m: DbMessage| transcript_line(m)), seq!['\n']) + "\n---"@
}

/// The system prompt for summarising.
pub open spec fn summary_system() -> Seq<char> {
    "You are a concise assistant. Produce a short factual summary only."@
}

fn turn_indices(all: &[DbMessage]) -> (idx: Vec<usize>)
    ensures
        forall|j: int| 0 <= j < idx.len() ==> idx@[j] < all.len(),
        idx@.map_values(|k: usize| all@[k as int]) == turns_of(all@),
{
    let mut idx: Vec<usize> = Vec::new();
    let mut i: usize = 0;
    while i < all.len()
        invariant
            i <= all.len(),
            forall|j: int| 0 <= j < idx.len() ==> idx@[j] < i,
            idx@.map_values(|k: usize| all@[k as int]) == turns_of(all@.take(i as int)),
        decreases all.len() - i,
    {
        assert(all@.take(i + 1).drop_last() =~= all@.take(i as int));
        assert(all@.take(i + 1).last() == all@[i as int]);
        let ghost before = idx@.map_values(|k: usize| all@[k as int]);
        if !text::eq_str(&chars_of(all[i].role.as_str()), "summary") {
            idx.push(i);
            assert(idx@.map_values(|k: usize| all@[k as int]) =~= before.push(all@[i as int]));
        }
        i = i + 1;
    }
    assert(all@.take(all.len() as int) =~= all@);
    idx
}

fn latest_summary_exec(all: &[DbMessage]) -> (r: Vec<char>)
    ensures
        r@ == latest_summary(all@),
{
    let mut i = all.len();
    assert(all@.take(all.len() as int) =~= all@);
    while i > 0
        invariant
            i <= all.len(),
            latest_summary(all@.take(i as int)) == latest_summary(all@),
        decreases i,
    {
        assert(all@.take(i as int).last() == all@[i - 1]);
        assert(all@.take(i as int).drop_last() =~= all@.take(i - 1));
        if text::eq_str(&chars_of(all[i - 1].role.as_str()), "summary") {
            return chars_of(all[i - 1].content.as_str());
        }
        i = i - 1;
    }
    Vec::new()
}

/// Plans a conversation's context from all its stored messages (summaries
/// and turns, oldest first) and the base system prompt.
#[verifier::rlimit(30)]
pub fn plan_context(system_base: &str, all: &[DbMessage]) -> (r: ContextPlan)
    ensures
        ({
            let turns = turns_of(all@);
            match r {
                ContextPlan::Summarise { system, prompt, archive_before } => {
                    &&& turns.len() > MAX_TURNS
                    &&& system@ == summary_system()
                    &&& prompt@ == spec_summary_prompt(turns.take(turns.len() - KEEP_RECENT))
                    &&& archive_before == turns[turns.len() - KEEP_RECENT - 1].id
                },
                ContextPlan::Ready { system, messages } => {
                    &&& turns.len() <= MAX_TURNS
                    &&& system@ == spec_context_system(system_base@, all@)
                    &&& messages@.map_values(|p: (String, String)| (p.0@, p.1@)) == recent_turns(
                        turns,
                    )
                    &&& messages.len() <= MAX_RECENT
                },
            }
        }),
{
    let idx = turn_indices(all);
    let ghost turns = turns_of(all@);
    assert(idx@.len() == turns.len());
    if idx.len() > MAX_TURNS {
        let n = idx.len() - KEEP_RECENT;
        let mut lines: Vec<Vec<char>> = Vec::new();
        let mut i: usize = 0;
        while i < n
            invariant
                i <= n <= idx.len(),
                turns == turns_of(all@),
                idx@.map_values(|k: usize| all@[k as int]) == turns,
                forall|j: int| 0 <= j < idx.len() ==> idx@[j] < all.len(),
                text::views(lines@) == turns.take(i as int).map_values(
                    |m: DbMessage| transcript_line(m),
                ),
            decreases n - i,
        {
            let m = &all[idx[i]];
            assert(turns[i as int] == all@[idx@[i as int] as int]);
            let l1 = concat_chars(&chars_of(m.role.as_str()), &chars_of(": "));
            let l2 = concat_chars(&l1, &chars_of(m.content.as_str()));
            let ghost before = text::views(lines@);
            lines.push(l2);
            assert(text::views(lines@) =~= before.push(transcript_line(turns[i as int])));
            assert(turns.take(i + 1).map_values(|m: DbMessage| transcript_line(m)) =~= turns.take(
                i as int,
            ).map_values(|m: DbMessage| transcript_line(m)).push(transcript_line(turns[i as int])));
            i = i + 1;
        }
        let mut nl: Vec<char> = Vec::new();
        nl.push('\n');
        assert(nl@ =~= seq!['\n']);
        let transcript = text::join_chars(&lines, &nl);
        let p1 = str_then(
            "Summarise the following conversation concisely (key decisions, facts, user preferences). Keep it under 200 words.\n\n---\n",
            &transcript,
        );
        let p2 = concat_chars(&p1, &chars_of("\n---"));
        let last = idx[n - 1];
        assert(turns[n - 1] == all@[idx@[n - 1] as int]);
        ContextPlan::Summarise {
            system: string_of(
                &chars_of("You are a concise assistant. Produce a short factual summary only."),
            ),
            prompt: string_of(&p2),
            archive_before: all[last].id,
        }
    } else {
        let summary = latest_summary_exec(all);
        let system = if summary.len() == 0 {
            string_of(&chars_of(system_base))
        } else {
            let s1 = str_then(system_base, &chars_of("\n\n[MEMORY SUMMARY]\n"));
            string_of(&concat_chars(&s1, &summary))
        };
        let start = if idx.len() > MAX_RECENT {
            idx.len() - MAX_RECENT
        } else {
            0
        };
        let mut messages: Vec<(String, String)> = Vec::new();
        let mut i = start;
        let ghost recent = turns.skip(start as int);
        while i < idx.len()
            invariant
                start <= i <= idx.len(),
                turns == turns_of(all@),
                recent == turns.skip(start as int),
                idx@.map_values(|k: usize| all@[k as int]) == turns,
                forall|j: int| 0 <= j < idx.len() ==> idx@[j] < all.len(),
                messages@.map_values(|p: (String, String)| (p.0@, p.1@)) == recent.take(
                    i - start,
                ).map_values(|m: DbMessage| turn_view(m)),
            decreases idx.len() - i,
        {
            let m = &all[idx[i]];
            assert(turns[i as int] == all@[idx@[i as int] as int]);
            assert(recent[i - start] == turns[i as int]);
            let ghost before = messages@.map_values(|p: (String, String)| (p.0@, p.1@));
            messages.push((m.role.clone(), m.content.clone()));
            assert(messages@.map_values(|p: (String, String)| (p.0@, p.1@)) =~= before.push(
                turn_view(recent[i - start]),
            ));
            assert(recent.take(i - start + 1).map_values(|m: DbMessage| turn_view(m))
                =~= recent.take(i - start).map_values(|m: DbMessage| turn_view(m)).push(
                turn_view(recent[i - start]),
            ));
            i = i + 1;
        }
        assert(recent.take(idx.len() - start) =~= recent);
        ContextPlan::Ready { system, messages }
    }
}

/// (role, content) pairs over characters.
pub open spec fn pair_views(v: Seq<(String, String)>) -> Seq<(Seq<char>, Seq<char>)> {
    v.map_values(|p: (String, String)| (p.0@, p.1@))
}

/// The history sent when asking the model to explain a tool's result: the
/// earlier turns `ctx`, then the user's message, the model's reply that
/// called the tool, and the tool's result marked as such.
pub fn tool_followup(ctx: Vec<(String, String)>, msg: &str, reply: &str, result: &str) -> (r: Vec<(String, String)>)
    ensures
        pair_views(r@) == pair_views(ctx@) + seq![
            ("user"@, msg@),
            ("assistant"@, reply@),
            ("user"@, "[tool_result]\n"@ + result@),
        ],
{
    let mut out = ctx;
    let ghost before = pair_views(out@);
    out.push((string_of(&chars_of("user")), string_of(&chars_of(msg))));
    out.push((string_of(&chars_of("assistant")), string_of(&chars_of(reply))));
    out.push((string_of(&chars_of("user")), string_of(&str_then("[tool_result]\n", &chars_of(result)))));
    assert(pair_views(out@) =~= before + seq![
        ("user"@, msg@),
        ("assistant"@, reply@),
        ("user"@, "[tool_result]\n"@ + result@),
    ]);
    out
}

/// The context never passes more than `MAX_RECENT` turns to the model, and
/// those are the latest turns, in the order they were stored.
pub proof fn law_recent_turns_bounded(turns: Seq<DbMessage>)
    ensures
        recent_turns(turns).len() <= MAX_RECENT,
        recent_turns(turns).len() == if turns.len() > MAX_RECENT {
            MAX_RECENT as int
        } else {
            turns.len() as int
        },
        forall|j: int|
            0 <= j < recent_turns(turns).len() ==> recent_turns(turns)[j] == turn_view(
                turns[turns.len() - recent_turns(turns).len() + j],
            ),
{
}

} // verus!
