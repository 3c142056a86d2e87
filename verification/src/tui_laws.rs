//! Properties of the interface that hold across keys and commands.
use vstd::prelude::*;
use crate::edit;
use crate::text;
use crate::tui::{
    spec_wizard_key, WizView, WizStep, picked, chat_key_ok, kept_after_clear, mentions, rfind2, slash_cmds, spec_completions, spec_on_chat,
    spec_on_dev, spec_on_home, with_prefix, AppState, ChatView, Key,
};

verus! {

/// The home and developer menus keep their selection on one of their four
/// entries, whatever key is pressed.
pub proof fn law_menu_selection_in_range(s: AppState, key: Key)
    requires
        s.home_sel <= 3,
        s.dev_sel <= 3,
    ensures
        spec_on_home(s, key).home_sel <= 3,
        spec_on_dev(s, key).0.dev_sel <= 3,
{
}

/// Every candidate `with_prefix` keeps is one of `cands` and begins with
/// `typed`; every candidate of `cands` that begins with `typed` is kept.
#[verifier::rlimit(30)]
pub proof fn lemma_with_prefix(cands: Seq<Seq<char>>, typed: Seq<char>)
    ensures
        forall|i: int|
            0 <= i < with_prefix(cands, typed).len() ==> cands.contains(
                #[trigger] with_prefix(cands, typed)[i],
            ) && text::starts_with(with_prefix(cands, typed)[i], typed),
        forall|j: int|
            0 <= j < cands.len() && text::starts_with(cands[j], typed) ==> with_prefix(
                cands,
                typed,
            ).contains(#[trigger] cands[j]),
    decreases cands.len(),
{
    if cands.len() > 0 {
        let rest = cands.drop_last();
        lemma_with_prefix(rest, typed);
        let w = with_prefix(cands, typed);
        let wr = with_prefix(rest, typed);
        assert forall|i: int| 0 <= i < w.len() implies cands.contains(#[trigger] w[i])
            && text::starts_with(w[i], typed) by {
            if i < wr.len() {
                assert(w[i] == wr[i]);
                let k = choose|k: int| 0 <= k < rest.len() && rest[k] == wr[i];
                assert(cands[k] == w[i]);
            } else {
                assert(w[i] == cands.last());
                assert(cands[cands.len() - 1] == w[i]);
            }
        }
        assert forall|j: int| 0 <= j < cands.len() && text::starts_with(cands[j], typed) implies w.contains(
            #[trigger] cands[j],
        ) by {
            if j < cands.len() - 1 {
                assert(rest[j] == cands[j]);
                let k = choose|k: int| 0 <= k < wr.len() && wr[k] == rest[j];
                assert(w[k] == cands[j]);
            } else {
                assert(w[w.len() - 1] == cands[j]);
            }
        }
    }
}

/// The completion popup offers only what extends the text being typed: the
/// slash commands that begin with the text from the last `/`, or else
/// `@`-mentions of user names that begin with the text after the last `@`;
/// it opens only with at least one entry.
pub proof fn law_completions_extend_typed(before: Seq<char>, users: Seq<Seq<char>>)
    ensures
        spec_completions(before, users) matches Some(items) ==> items.len() > 0 && (
        (rfind2(before, '/', '/') matches Some(p) && forall|i: int|
            0 <= i < items.len() ==> slash_cmds().contains(#[trigger] items[i])
                && text::starts_with(items[i], before.skip(p))) || (rfind2(before, '@', '@') matches Some(
            p,
        ) && forall|i: int|
            0 <= i < items.len() ==> #[trigger] items[i].len() > 0 && items[i][0] == '@'
                && users.contains(items[i].drop_first()) && text::starts_with(
                items[i].drop_first(),
                before.skip(p + 1),
            ))),
{
    match rfind2(before, '/', '/') {
        Some(p) => lemma_with_prefix(slash_cmds(), before.skip(p)),
        None => {},
    }
    match rfind2(before, '@', '@') {
        Some(p) => {
            let typed = before.skip(p + 1);
            lemma_with_prefix(users, typed);
            let w = with_prefix(users, typed);
            let m = mentions(w);
            assert forall|i: int| 0 <= i < m.len() implies #[trigger] m[i].len() > 0 && m[i][0] == '@'
                && users.contains(m[i].drop_first()) && text::starts_with(m[i].drop_first(), typed) by {
                assert(m[i] == seq!['@'] + w[i]);
                assert(m[i].drop_first() =~= w[i]);
            }
        },
        None => {},
    }
}

/// After `/clear` no line is one of the user's own ("alias:") or an
/// "Omniscientia:" line, and every other line is still there.
#[verifier::rlimit(30)]
pub proof fn law_clear_removes_own_lines(msgs: Seq<Seq<char>>, alias: Seq<char>)
    ensures
        forall|i: int|
            0 <= i < kept_after_clear(msgs, alias).len() ==> !text::starts_with(
                #[trigger] kept_after_clear(msgs, alias)[i],
                alias + seq![':'],
            ) && !text::starts_with(kept_after_clear(msgs, alias)[i], "Omniscientia:"@),
        forall|j: int|
            0 <= j < msgs.len() && !text::starts_with(msgs[j], alias + seq![':'])
                && !text::starts_with(msgs[j], "Omniscientia:"@) ==> kept_after_clear(
                msgs,
                alias,
            ).contains(#[trigger] msgs[j]),
        kept_after_clear(msgs, alias).len() <= msgs.len(),
    decreases msgs.len(),
{
    if msgs.len() > 0 {
        let rest = msgs.drop_last();
        law_clear_removes_own_lines(rest, alias);
        let k = kept_after_clear(msgs, alias);
        let kr = kept_after_clear(rest, alias);
        assert forall|i: int| 0 <= i < k.len() implies !text::starts_with(
            #[trigger] k[i],
            alias + seq![':'],
        ) && !text::starts_with(k[i], "Omniscientia:"@) by {
            if i < kr.len() {
                assert(k[i] == kr[i]);
            }
        }
        assert forall|j: int|
            0 <= j < msgs.len() && !text::starts_with(msgs[j], alias + seq![':'])
                && !text::starts_with(msgs[j], "Omniscientia:"@) implies k.contains(#[trigger] msgs[j]) by {
            if j < msgs.len() - 1 {
                assert(rest[j] == msgs[j]);
                let q = choose|q: int| 0 <= q < kr.len() && kr[q] == rest[j];
                assert(k[q] == msgs[j]);
            } else {
                assert(k[k.len() - 1] == msgs[j]);
            }
        }
    }
}

/// Inserting a character adds its width to the byte length.
pub proof fn lemma_byte_len_insert(s: Seq<char>, k: int, c: char)
    requires
        0 <= k <= s.len(),
    ensures
        edit::byte_len(s.insert(k, c)) == edit::byte_len(s) + edit::char_width(c),
        s.insert(k, c).take(k) == s.take(k),
        s.insert(k, c).take(k + 1) == s.take(k).push(c),
{
    let t = s.insert(k, c);
    assert(t =~= s.take(k).push(c) + s.skip(k));
    assert(s =~= s.take(k) + s.skip(k));
    edit::lemma_byte_len_concat(s.take(k).push(c), s.skip(k));
    edit::lemma_byte_len_concat(s.take(k), s.skip(k));
    assert(s.take(k).push(c).drop_last() =~= s.take(k));
    assert(t.take(k) =~= s.take(k));
    assert(t.take(k + 1) =~= s.take(k).push(c));
}

/// Typing a character and then deleting it with Backspace gives back the
/// input and the cursor, and the Backspace can always be pressed.
#[verifier::rlimit(30)]
pub proof fn law_backspace_undoes_typing(v: ChatView, c: char, users: Seq<Seq<char>>)
    requires
        chat_key_ok(v, false, Key::Char(c)),
        edit::byte_len(v.input) + 1 < usize::MAX,
    ensures
        ({
            let w = spec_on_chat(v, false, Key::Char(c), users).0;
            let u = spec_on_chat(w, false, Key::Backspace, users).0;
            &&& chat_key_ok(w, false, Key::Backspace)
            &&& u.input == v.input
            &&& u.cursor == v.cursor
        }),
{
    let s = v.input;
    let k = edit::char_pos(s, v.cursor);
    assert(0 <= k <= s.len() && edit::byte_len(s.take(k)) == v.cursor);
    let t = s.insert(k, c);
    lemma_byte_len_insert(s, k, c);
    assert(s.take(k).push(c).drop_last() =~= s.take(k));
    assert(edit::byte_len(t.take(k + 1)) == v.cursor + 1);
    edit::lemma_char_pos(t, k + 1);
    edit::lemma_char_pos(t, k);
    edit::lemma_take_all(t);
    edit::lemma_byte_len_prefix(t, k, t.len() as int);
    let w = spec_on_chat(v, false, Key::Char(c), users).0;
    assert(w.input == t && w.cursor == v.cursor + 1);
    assert(edit::char_pos(t, v.cursor) == k);
    assert(t.remove(k) =~= s);
}

/// Removing a character keeps the bytes before it.
pub proof fn lemma_byte_len_remove(s: Seq<char>, k: int)
    requires
        0 <= k < s.len(),
    ensures
        edit::byte_len(s.remove(k)) >= edit::byte_len(s.take(k)),
        s.remove(k).take(k) == s.take(k),
{
    assert(s.remove(k) =~= s.take(k) + s.skip(k + 1));
    edit::lemma_byte_len_concat(s.take(k), s.skip(k + 1));
    assert(s.remove(k).take(k) =~= s.take(k));
}

/// A boundary before the end sits before the last character.
proof fn lemma_boundary_before_end(s: Seq<char>, b: int)
    requires
        edit::is_boundary(s, b),
        b < edit::byte_len(s),
    ensures
        0 <= edit::char_pos(s, b) < s.len(),
        edit::byte_len(s.take(edit::char_pos(s, b))) == b,
{
    edit::lemma_take_all(s);
}

/// Whatever key is pressed, the chat cursor stays between the start and the
/// end of the input (as a byte offset).
pub proof fn law_cursor_within_input(v: ChatView, waiting: bool, key: Key, users: Seq<Seq<char>>)
    requires
        0 <= v.cursor <= edit::byte_len(v.input),
        chat_key_ok(v, waiting, key),
    ensures
        0 <= spec_on_chat(v, waiting, key, users).0.cursor <= edit::byte_len(
            spec_on_chat(v, waiting, key, users).0.input,
        ),
{
    let s = v.input;
    if v.ac is Some && (key == Key::Tab || key == Key::Enter) {
        let w = picked(v);
        assert(0 <= w.cursor <= edit::byte_len(w.input));
    } else if v.ac is Some && (key == Key::Up || key == Key::Down || key == Key::Esc) {
    } else if !waiting && (key == Key::PageUp || key == Key::Up) {
    } else if !waiting && (key == Key::PageDown || key == Key::Down) && v.scroll > 0 {
    } else if waiting {
    } else {
        match key {
            Key::Delete => {
                if v.cursor < edit::byte_len(s) {
                    lemma_boundary_before_end(s, v.cursor);
                    lemma_byte_len_remove(s, edit::char_pos(s, v.cursor));
                }
            },
            Key::Backspace => {
                if v.cursor > 0 {
                    lemma_boundary_before_end(s, v.cursor - 1);
                    lemma_byte_len_remove(s, edit::char_pos(s, v.cursor - 1));
                }
            },
            Key::Char(c) => {
                let k = edit::char_pos(s, v.cursor);
                let t = s.insert(k, c);
                lemma_byte_len_insert(s, k, c);
                assert(s.take(k).push(c).drop_last() =~= s.take(k));
                assert(edit::byte_len(t.take(k + 1)) == v.cursor + 1);
                edit::lemma_take_all(t);
                if k + 1 < t.len() {
                    edit::lemma_byte_len_prefix(t, k + 1, t.len() as int);
                }
            },
            _ => {},
        }
    }
}

/// Every character of `s` is ASCII (one byte in UTF-8).
pub open spec fn all_ascii(s: Seq<char>) -> bool {
    forall|i: int| 0 <= i < s.len() ==> edit::char_width(#[trigger] s[i]) == 1
}

/// In ASCII text byte offsets are character positions.
pub proof fn lemma_ascii_offsets(s: Seq<char>, k: int)
    requires
        all_ascii(s),
        0 <= k <= s.len(),
    ensures
        edit::byte_len(s.take(k)) == k,
    decreases k,
{
    if k > 0 {
        lemma_ascii_offsets(s, k - 1);
        assert(s.take(k).drop_last() =~= s.take(k - 1));
        assert(s.take(k).last() == s[k - 1]);
    }
}

/// In ASCII input, typing an ASCII character puts it at the cursor's byte
/// offset, as `String::insert` does, moves the cursor one byte on and stays
/// on the chat screen; the key can always be pressed.
pub proof fn law_ascii_typing(v: ChatView, c: char, users: Seq<Seq<char>>)
    requires
        all_ascii(v.input),
        edit::char_width(c) == 1,
        0 <= v.cursor <= v.input.len(),
        v.input.len() < usize::MAX,
    ensures
        chat_key_ok(v, false, Key::Char(c)),
        spec_on_chat(v, false, Key::Char(c), users).0.input == v.input.take(v.cursor) + seq![c]
            + v.input.skip(v.cursor),
        spec_on_chat(v, false, Key::Char(c), users).0.cursor == v.cursor + 1,
        spec_on_chat(v, false, Key::Char(c), users).0.screen == v.screen,
{
    let s = v.input;
    lemma_ascii_offsets(s, v.cursor);
    lemma_ascii_offsets(s, s.len() as int);
    edit::lemma_take_all(s);
    edit::lemma_char_pos(s, v.cursor);
    assert(s.insert(v.cursor, c) =~= s.take(v.cursor) + seq![c] + s.skip(v.cursor));
}

/// `rfind2` finds the last position holding `a` or `b`.
pub proof fn lemma_rfind2_last(s: Seq<char>, a: char, b: char, p: int)
    requires
        0 <= p < s.len(),
        s[p] == a || s[p] == b,
        forall|q: int| p < q < s.len() ==> s[q] != a && s[q] != b,
    ensures
        rfind2(s, a, b) == Some(p),
    decreases s.len(),
{
    if p < s.len() - 1 {
        let t = s.drop_last();
        assert forall|q: int| p < q < t.len() implies t[q] != a && t[q] != b by {
            assert(t[q] == s[q]);
        }
        lemma_rfind2_last(t, a, b, p);
    }
}

/// `rfind2` finds nothing where neither `a` nor `b` occurs.
pub proof fn lemma_rfind2_none(s: Seq<char>, a: char, b: char)
    requires
        forall|q: int| 0 <= q < s.len() ==> s[q] != a && s[q] != b,
    ensures
        rfind2(s, a, b) is None,
    decreases s.len(),
{
    if s.len() > 0 {
        let t = s.drop_last();
        assert forall|q: int| 0 <= q < t.len() implies t[q] != a && t[q] != b by {
            assert(t[q] == s[q]);
        }
        lemma_rfind2_none(t, a, b);
    }
}

/// Taking a completion (Tab or Enter with the popup open) replaces the text
/// from the last `/` or `@` before the cursor, whichever of the two comes
/// last, with the chosen entry; the cursor goes to the end and the popup
/// closes. With neither before the cursor, the entry replaces what follows
/// the cursor.
pub proof fn law_pick_replaces_from_trigger(
    v: ChatView,
    waiting: bool,
    key: Key,
    users: Seq<Seq<char>>,
)
    requires
        key == Key::Tab || key == Key::Enter,
        v.ac is Some,
        0 <= v.ac_sel < v.ac->0.len(),
        edit::is_boundary(v.input, v.cursor),
    ensures
        ({
            let k = edit::char_pos(v.input, v.cursor);
            let e = v.ac->0[v.ac_sel];
            let u = spec_on_chat(v, waiting, key, users).0;
            &&& forall|p: int|
                0 <= p < k && (v.input[p] == '/' || v.input[p] == '@') && (forall|q: int|
                    p < q < k ==> v.input[q] != '/' && v.input[q] != '@') ==> u.input == v.input.take(p)
                    + e
            &&& (forall|q: int| 0 <= q < k ==> v.input[q] != '/' && v.input[q] != '@') ==> u.input
                == v.input.take(k) + e
            &&& u.cursor == edit::byte_len(u.input)
            &&& u.ac is None
        }),
{
    let k = edit::char_pos(v.input, v.cursor);
    let before = v.input.take(k);
    assert(0 <= k <= v.input.len());
    assert forall|p: int|
        0 <= p < k && (v.input[p] == '/' || v.input[p] == '@') && (forall|q: int|
            p < q < k ==> v.input[q] != '/' && v.input[q] != '@') implies spec_on_chat(
        v,
        waiting,
        key,
        users,
    ).0.input == v.input.take(p) + v.ac->0[v.ac_sel] by {
        assert forall|q: int| p < q < before.len() implies before[q] != '/' && before[q] != '@' by {
            assert(before[q] == v.input[q]);
        }
        lemma_rfind2_last(before, '/', '@', p);
        assert(v.input.take(k).take(p) =~= v.input.take(p));
    }
    if forall|q: int| 0 <= q < k ==> v.input[q] != '/' && v.input[q] != '@' {
        assert forall|q: int| 0 <= q < before.len() implies before[q] != '/' && before[q] != '@' by {
            assert(before[q] == v.input[q]);
        }
        lemma_rfind2_none(before, '/', '@');
    }
}

/// The wizard's model selection never leaves the model list: when it points
/// into the list, it still does after any key. In the model step Down moves
/// to the next model while there is one, and stays on the last one.
pub proof fn law_wizard_selection_in_list(w: WizView, key: Key)
    requires
        w.selected matches Some(i) && i < w.models.len(),
    ensures
        spec_wizard_key(w, key).0.models == w.models,
        spec_wizard_key(w, key).0.selected matches Some(j) && j < w.models.len(),
        w.step == WizStep::Model && key == Key::Down ==> spec_wizard_key(w, key).0.selected == (if w.selected->0
            + 1 < w.models.len() {
            Some((w.selected->0 + 1) as usize)
        } else {
            w.selected
        }),
{
}

} // verus!
