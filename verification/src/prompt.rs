//! The system prompt sent to the model on every turn.
use vstd::prelude::*;
use crate::text;
use crate::text::{chars_of, concat_chars, string_of, str_then};

verus! {

/// The first part of the prompt: who is in the session and in which role.
pub open spec fn spec_prompt_header(user_alias: Seq<char>, role_label: Seq<char>) -> Seq<char> {
    "# Omniscientia — System Context\nCurrent session: **"@ + user_alias + "** (Role: **"@
        + role_label + "**)\n"@
}

/// The last part of the prompt: how to answer.
pub open spec fn spec_prompt_footer() -> Seq<char> {
    "---\nRespond concisely. Use `tool_call` JSON blocks (defined in tools.md) whenever a task requires action. Do not describe what you would do — just do it."@
}

/// One part per memory file that could be read, in order: the file's
/// trimmed text after a `---` line.
pub open spec fn memory_parts(memory: Seq<Option<String>>) -> Seq<Seq<char>>
    decreases memory.len(),
{
    if memory.len() == 0 {
        seq![]
    } else {
        memory_parts(memory.drop_last()) + match memory.last() {
            Some(c) => seq!["---\n"@ + text::trim(c@)],
            None => seq![],
        }
    }
}

/// The part for extra context, when there is non-empty extra context.
pub open spec fn extra_part(extra_context: Option<Seq<char>>) -> Seq<Seq<char>> {
    match extra_context {
        Some(ctx) => if ctx.len() > 0 {
            seq!["---\n## Additional Context\n"@ + text::trim(ctx)]
        } else {
            seq![]
        },
        None => seq![],
    }
}

/// The system prompt: header, memory files, extra context and footer,
/// separated by blank lines.
pub open spec fn spec_build_system_prompt(
    user_alias: Seq<char>,
    role_label: Seq<char>,
    extra_context: Option<Seq<char>>,
    memory: Seq<Option<String>>,
) -> Seq<char> {
    text::join(
        seq![spec_prompt_header(user_alias, role_label)] + memory_parts(memory) + extra_part(
            extra_context,
        ) + seq![spec_prompt_footer()],
        seq!['\n', '\n'],
    )
}

/// Assembles the complete system prompt sent to the LLM on every turn:
/// the session header (user alias and role label), then each memory file
/// that could be read (`memory` holds their contents in the order
/// `memory/SOLE.md`, `memory/skills.md`, `memory/tools.md`, `None` for a file
/// that could not be read), then any non-empty extra context, then the
/// answering instructions; parts are separated by blank lines.
#[verifier::rlimit(30)]
pub fn build_system_prompt(
    user_alias: &str,
    role_label: &str,
    extra_context: Option<&str>,
    memory: &[Option<String>],
) -> (r: String)
    ensures
        r@ == spec_build_system_prompt(
            user_alias@,
            role_label@,
            match extra_context {
                Some(c) => Some(c@),
                None => None,
            },
            memory@,
        ),
{
    let mut parts: Vec<Vec<char>> = Vec::new();
    let h1 = str_then("# Omniscientia — System Context\nCurrent session: **", &chars_of(user_alias));
    let h2 = concat_chars(&h1, &str_then("** (Role: **", &chars_of(role_label)));
    let h3 = concat_chars(&h2, &chars_of("**)\n"));
    assert(h3@ =~= spec_prompt_header(user_alias@, role_label@));
    parts.push(h3);
    let ghost head = seq![spec_prompt_header(user_alias@, role_label@)];
    assert(text::views(parts@) =~= head);
    let mut i: usize = 0;
    while i < memory.len()
        invariant
            i <= memory.len(),
            text::views(parts@) == head + memory_parts(memory@.take(i as int)),
        decreases memory.len() - i,
    {
        assert(memory@.take(i + 1).drop_last() =~= memory@.take(i as int));
        let ghost before = text::views(parts@);
        assert(memory@.take(i + 1).last() == memory@[i as int]);
        assert(memory_parts(memory@.take(i + 1)) == memory_parts(memory@.take(i as int)) + match memory@[i as int] {
            Some(c) => seq!["---\n"@ + text::trim(c@)],
            None => seq![],
        });
        match &memory[i] {
            Some(c) => {
                let t = text::trim_chars(&chars_of(c.as_str()));
                parts.push(str_then("---\n", &t));
                assert(text::views(parts@) =~= before.push("---\n"@ + text::trim(c@)));
            },
            None => {},
        }
        assert(text::views(parts@) =~= head + memory_parts(memory@.take(i + 1)));
        i = i + 1;
    }
    assert(memory@.take(memory.len() as int) =~= memory@);
    let ghost mid = text::views(parts@);
    match extra_context {
        Some(ctx) => {
            if !ctx.is_empty() {
                let t = text::trim_chars(&chars_of(ctx));
                parts.push(str_then("---\n## Additional Context\n", &t));
                assert(text::views(parts@) =~= mid + extra_part(Some(ctx@)));
            } else {
                assert(text::views(parts@) =~= mid + extra_part(Some(ctx@)));
            }
        },
        None => {
            assert(text::views(parts@) =~= mid + extra_part(None));
        },
    }
    let ghost with_extra = text::views(parts@);
    parts.push(
        chars_of(
            "---\nRespond concisely. Use `tool_call` JSON blocks (defined in tools.md) whenever a task requires action. Do not describe what you would do — just do it.",
        ),
    );
    let mut sep: Vec<char> = Vec::new();
    sep.push('\n');
    sep.push('\n');
    assert(sep@ =~= seq!['\n', '\n']);
    assert(text::views(parts@) =~= with_extra.push(spec_prompt_footer()));
    let ghost ctxv = match extra_context {
        Some(c) => Some(c@),
        None => None,
    };
    assert(with_extra == head + memory_parts(memory@) + extra_part(ctxv));
    assert(text::views(parts@) =~= seq![spec_prompt_header(user_alias@, role_label@)]
        + memory_parts(memory@) + extra_part(ctxv) + seq![spec_prompt_footer()]);
    let joined = text::join_chars(&parts, &sep);
    string_of(&joined)
}

} // verus!
