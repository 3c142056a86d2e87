//! The terminal interface's state and how keys change it: the home and
//! developer menus, the pairing screen, the chat input with its command and
//! mention completion, and the configuration wizard.
use vstd::prelude::*;
use crate::config::{AppConfig, Secrets};
use crate::edit;
use crate::bot::BotEvent;
use crate::cli;
use crate::records::PendingUser;
use crate::text;
use crate::text::{chars_of, concat_chars, string_of, str_then};

verus! {

/// The screens of the interface.
#[derive(PartialEq, Eq, Structural, Clone, Copy, Debug)]
pub enum Screen {
    Home,
    Chat,
    Config,
    Pairing,
    DevMenu,
    DbViewer,
    UserRecords,
}

/// The keys the interface reacts to.
#[derive(PartialEq, Eq, Structural, Clone, Copy, Debug)]
pub enum Key {
    Up,
    Down,
    Left,
    Right,
    Enter,
    Esc,
    Tab,
    Backspace,
    Delete,
    Home,
    End,
    PageUp,
    PageDown,
    Char(char),
    Other,
}

/// The state of the interface.
pub struct AppState {
    pub running: bool,
    pub screen: Screen,
    pub alias: String,
    /// Selected entry of the home menu.
    pub home_sel: usize,
    /// Selected entry of the developer menu.
    pub dev_sel: usize,
    /// Chat lines; replies of the model start with "omni:".
    pub messages: Vec<String>,
    /// The chat input and its cursor, a byte offset into it.
    pub input: String,
    pub cursor: usize,
    /// A reply is being awaited.
    pub waiting: bool,
    /// Lines scrolled back from the end of the chat.
    pub scroll: usize,
    /// Completion candidates, when the popup is open.
    pub ac_items: Option<Vec<String>>,
    pub ac_sel: usize,
    pub pairing_list: Vec<PendingUser>,
    pub pairing_sel: usize,
    /// The background server's process id, when it runs.
    pub server_pid: Option<u32>,
}

/// The slash commands of the chat.
pub open spec fn slash_cmds() -> Seq<Seq<char>> {
    seq!["/quit"@, "/clear"@, "/help"@, "/config"@, "/memory"@, "/tools"@]
}

/// `x - 1`, or 0.
pub open spec fn dec(x: usize) -> usize {
    if x > 0 {
        (x - 1) as usize
    } else {
        0
    }
}

/// The screen the home menu's entry `sel` leads to.
pub open spec fn home_target(sel: usize) -> Screen {
    if sel == 0 {
        Screen::Chat
    } else if sel == 1 {
        Screen::Config
    } else if sel == 2 {
        Screen::Pairing
    } else if sel == 3 {
        Screen::DevMenu
    } else {
        Screen::Home
    }
}

/// A key on the home menu: arrows move among the four entries, Enter opens
/// one, `q` or Esc quit.
pub open spec fn spec_on_home(s: AppState, key: Key) -> AppState {
    match key {
        Key::Up => AppState { home_sel: dec(s.home_sel), ..s },
        Key::Down => AppState {
            home_sel: if s.home_sel + 1 < 3 {
                (s.home_sel + 1) as usize
            } else {
                3
            },
            ..s
        },
        Key::Enter => AppState { screen: home_target(s.home_sel), ..s },
        Key::Char(c) => if c == 'q' {
            AppState { running: false, ..s }
        } else {
            s
        },
        Key::Esc => AppState { running: false, ..s },
        _ => s,
    }
}

/// A key on the developer menu: arrows move among the four entries, Enter
/// opens the database viewer, the user records, toggles the server (the
/// returned flag) or goes back; `q` or Esc go back.
pub open spec fn spec_on_dev(s: AppState, key: Key) -> (AppState, bool) {
    match key {
        Key::Up => (AppState { dev_sel: dec(s.dev_sel), ..s }, false),
        Key::Down => (
            AppState {
                dev_sel: if s.dev_sel + 1 < 3 {
                    (s.dev_sel + 1) as usize
                } else {
                    3
                },
                ..s
            },
            false,
        ),
        Key::Enter => if s.dev_sel == 0 {
            (AppState { screen: Screen::DbViewer, ..s }, false)
        } else if s.dev_sel == 1 {
            (AppState { screen: Screen::UserRecords, ..s }, false)
        } else if s.dev_sel == 2 {
            (s, true)
        } else {
            (AppState { screen: Screen::Home, ..s }, false)
        },
        Key::Char(c) => if c == 'q' {
            (AppState { screen: Screen::Home, ..s }, false)
        } else {
            (s, false)
        },
        Key::Esc => (AppState { screen: Screen::Home, ..s }, false),
        _ => (s, false),
    }
}

/// What the pairing screen asks for.
pub enum PairingAction {
    /// Nothing to do.
    Stay,
    /// Reload the list.
    Refresh,
    /// Approve the request `id` and register `username` as an Employee, then reload.
    Approve { id: i64, username: String },
    /// Deny the request `id`, then reload.
    Deny { id: i64 },
}

impl AppState {
    /// A key on the home menu.
    pub fn on_home(&mut self, key: Key)
        requires
            key == Key::Down ==> old(self).home_sel < usize::MAX,
        ensures
            *final(self) == spec_on_home(*old(self), key),
    {
        match key {
            Key::Up => {
                self.home_sel = if self.home_sel > 0 {
                    self.home_sel - 1
                } else {
                    0
                };
            },
            Key::Down => {
                self.home_sel = if self.home_sel + 1 < 3 {
                    self.home_sel + 1
                } else {
                    3
                };
            },
            Key::Enter => {
                self.screen = if self.home_sel == 0 {
                    Screen::Chat
                } else if self.home_sel == 1 {
                    Screen::Config
                } else if self.home_sel == 2 {
                    Screen::Pairing
                } else if self.home_sel == 3 {
                    Screen::DevMenu
                } else {
                    Screen::Home
                };
            },
            Key::Char(c) => {
                if c == 'q' {
                    self.running = false;
                }
            },
            Key::Esc => {
                self.running = false;
            },
            _ => {},
        }
    }

    /// A key on the developer menu; returns whether the background server is
    /// to be started or stopped.
    pub fn on_dev(&mut self, key: Key) -> (toggle: bool)
        requires
            key == Key::Down ==> old(self).dev_sel < usize::MAX,
        ensures
            (*final(self), toggle) == spec_on_dev(*old(self), key),
    {
        match key {
            Key::Up => {
                self.dev_sel = if self.dev_sel > 0 {
                    self.dev_sel - 1
                } else {
                    0
                };
                false
            },
            Key::Down => {
                self.dev_sel = if self.dev_sel + 1 < 3 {
                    self.dev_sel + 1
                } else {
                    3
                };
                false
            },
            Key::Enter => {
                if self.dev_sel == 0 {
                    self.screen = Screen::DbViewer;
                    false
                } else if self.dev_sel == 1 {
                    self.screen = Screen::UserRecords;
                    false
                } else if self.dev_sel == 2 {
                    true
                } else {
                    self.screen = Screen::Home;
                    false
                }
            },
            Key::Char(c) => {
                if c == 'q' {
                    self.screen = Screen::Home;
                }
                false
            },
            Key::Esc => {
                self.screen = Screen::Home;
                false
            },
            _ => false,
        }
    }

    /// A key on the database viewer or user records screen: `q` or Esc go
    /// back to the developer menu.
    pub fn on_stub(&mut self, key: Key)
        ensures
            *final(self) == (if key == Key::Esc || key == Key::Char('q') {
                AppState { screen: Screen::DevMenu, ..*old(self) }
            } else {
                *old(self)
            }),
    {
        if key == Key::Esc || key == Key::Char('q') {
            self.screen = Screen::DevMenu;
        }
    }

    /// A key on the pairing screen: arrows move the selection, `r` reloads,
    /// `a` approves and `d` denies the selected request, `q` or Esc go home.
    pub fn on_pairing(&mut self, key: Key) -> (act: PairingAction)
        requires
            key == Key::Down && old(self).pairing_list.len() > 0 ==> old(self).pairing_sel < usize::MAX,
        ensures
            final(self).running == old(self).running,
            final(self).pairing_list@ == old(self).pairing_list@,
            key == Key::Up ==> *final(self) == (AppState { pairing_sel: dec(old(self).pairing_sel), ..*old(self) })
                && act is Stay,
            key == Key::Down ==> *final(self) == (AppState {
                pairing_sel: if old(self).pairing_list.len() == 0 {
                    old(self).pairing_sel
                } else if old(self).pairing_sel + 1 < old(self).pairing_list.len() - 1 {
                    (old(self).pairing_sel + 1) as usize
                } else {
                    (old(self).pairing_list.len() - 1) as usize
                },
                ..*old(self)
            }) && act is Stay,
            key == Key::Char('r') ==> *final(self) == (AppState { pairing_sel: 0, ..*old(self) })
                && act is Refresh,
            key == Key::Char('a') ==> *final(self) == *old(self) && (if old(self).pairing_sel
                < old(self).pairing_list.len() {
                act matches PairingAction::Approve { id, username } && id == old(
                    self,
                ).pairing_list@[old(self).pairing_sel as int].id && username@ == old(
                    self,
                ).pairing_list@[old(self).pairing_sel as int].username@
            } else {
                act is Stay
            }),
            key == Key::Char('d') ==> *final(self) == *old(self) && (if old(self).pairing_sel
                < old(self).pairing_list.len() {
                act matches PairingAction::Deny { id } && id == old(
                    self,
                ).pairing_list@[old(self).pairing_sel as int].id
            } else {
                act is Stay
            }),
            (key == Key::Esc || key == Key::Char('q')) ==> *final(self) == (AppState {
                screen: Screen::Home,
                ..*old(self)
            }) && act is Stay,
            !(key == Key::Up || key == Key::Down || key == Key::Char('r') || key == Key::Char('a')
                || key == Key::Char('d') || key == Key::Esc || key == Key::Char('q'))
                ==> *final(self) == *old(self) && act is Stay,
    {
        match key {
            Key::Up => {
                self.pairing_sel = if self.pairing_sel > 0 {
                    self.pairing_sel - 1
                } else {
                    0
                };
                PairingAction::Stay
            },
            Key::Down => {
                if self.pairing_list.len() > 0 {
                    let last = self.pairing_list.len() - 1;
                    self.pairing_sel = if self.pairing_sel + 1 < last {
                        self.pairing_sel + 1
                    } else {
                        last
                    };
                }
                PairingAction::Stay
            },
            Key::Char(c) => {
                if c == 'r' {
                    self.pairing_sel = 0;
                    PairingAction::Refresh
                } else if c == 'a' {
                    if self.pairing_sel < self.pairing_list.len() {
                        let u = &self.pairing_list[self.pairing_sel];
                        PairingAction::Approve { id: u.id, username: u.username.clone() }
                    } else {
                        PairingAction::Stay
                    }
                } else if c == 'd' {
                    if self.pairing_sel < self.pairing_list.len() {
                        PairingAction::Deny { id: self.pairing_list[self.pairing_sel].id }
                    } else {
                        PairingAction::Stay
                    }
                } else if c == 'q' {
                    self.screen = Screen::Home;
                    PairingAction::Stay
                } else {
                    PairingAction::Stay
                }
            },
            Key::Esc => {
                self.screen = Screen::Home;
                PairingAction::Stay
            },
            _ => PairingAction::Stay,
        }
    }
}

/// The chat-related part of the state, over characters.
pub struct ChatView {
    pub input: Seq<char>,
    pub cursor: int,
    pub ac: Option<Seq<Seq<char>>>,
    pub ac_sel: int,
    pub scroll: int,
    pub screen: Screen,
}

/// The views of a list of strings.
pub open spec fn strs_view(v: Seq<String>) -> Seq<Seq<char>> {
    v.map_values(|x: String| x@)
}

/// The completion candidates, over characters.
pub open spec fn ac_view(o: Option<Vec<String>>) -> Option<Seq<Seq<char>>> {
    match o {
        Some(v) => Some(strs_view(v@)),
        None => None,
    }
}

/// The chat-related part of `s`.
pub open spec fn chat_view(s: AppState) -> ChatView {
    ChatView {
        input: s.input@,
        cursor: s.cursor as int,
        ac: ac_view(s.ac_items),
        ac_sel: s.ac_sel as int,
        scroll: s.scroll as int,
        screen: s.screen,
    }
}

/// Everything but the chat-related part is the same in `a` and `b`.
pub open spec fn same_outside_chat(a: AppState, b: AppState) -> bool {
    &&& a.running == b.running
    &&& a.alias == b.alias
    &&& a.home_sel == b.home_sel
    &&& a.dev_sel == b.dev_sel
    &&& a.messages == b.messages
    &&& a.waiting == b.waiting
    &&& a.pairing_list == b.pairing_list
    &&& a.pairing_sel == b.pairing_sel
    &&& a.server_pid == b.server_pid
}

/// The last position in `s` holding `a` or `b` (`str::rfind`).
pub open spec fn rfind2(s: Seq<char>, a: char, b: char) -> Option<int>
    decreases s.len(),
{
    if s.len() == 0 {
        None
    } else if s.last() == a || s.last() == b {
        Some(s.len() - 1)
    } else {
        rfind2(s.drop_last(), a, b)
    }
}

/// The candidates that begin with `typed`, in order.
pub open spec fn with_prefix(cands: Seq<Seq<char>>, typed: Seq<char>) -> Seq<Seq<char>>
    decreases cands.len(),
{
    if cands.len() == 0 {
        seq![]
    } else {
        with_prefix(cands.drop_last(), typed) + if text::starts_with(cands.last(), typed) {
            seq![cands.last()]
        } else {
            seq![]
        }
    }
}

/// "@" before each name.
pub open spec fn mentions(names: Seq<Seq<char>>) -> Seq<Seq<char>> {
    names.map_values(|n: Seq<char>| seq!['@'] + n)
}

/// The completion popup for the input before the cursor (`before`): the
/// slash commands that extend the text from the last `/`, else the
/// `@`-mentions of the users whose name extends the text after the last `@`;
/// `None` closes the popup.
pub open spec fn spec_completions(before: Seq<char>, users: Seq<Seq<char>>) -> Option<Seq<Seq<char>>> {
    let slash = match rfind2(before, '/', '/') {
        Some(p) => with_prefix(slash_cmds(), before.skip(p)),
        None => seq![],
    };
    let at = match rfind2(before, '@', '@') {
        Some(p) => mentions(with_prefix(users, before.skip(p + 1))),
        None => seq![],
    };
    if slash.len() > 0 {
        Some(slash)
    } else if at.len() > 0 {
        Some(at)
    } else {
        None
    }
}

/// `v` with its completions refreshed for its cursor: an opened popup starts
/// at its first entry.
pub open spec fn refresh_completions(v: ChatView, users: Seq<Seq<char>>) -> ChatView {
    let c = spec_completions(v.input.take(edit::char_pos(v.input, v.cursor)), users);
    ChatView {
        ac: c,
        ac_sel: if c is Some {
            0
        } else {
            v.ac_sel
        },
        ..v
    }
}

/// The keys that cannot make the chat input panic: the byte offsets that are
/// sliced or edited fall on character boundaries, typed characters are ASCII
/// (the completion that follows slices just after them) and lengths fit.
pub open spec fn chat_key_ok(v: ChatView, waiting: bool, key: Key) -> bool {
    if v.ac is Some && key == Key::Down {
        v.ac_sel < usize::MAX
    } else if v.ac is Some && (key == Key::Tab || key == Key::Enter) {
        (0 <= v.ac_sel < v.ac->0.len()) ==> edit::is_boundary(v.input, v.cursor) && edit::byte_len(
            v.input,
        ) + edit::byte_len(v.ac->0[v.ac_sel]) <= usize::MAX
    } else if v.ac is Some && (key == Key::Up || key == Key::Esc) {
        true
    } else if waiting {
        true
    } else if key == Key::PageUp || key == Key::Up || ((key == Key::PageDown || key == Key::Down)
        && v.scroll > 0) {
        true
    } else {
        &&& edit::byte_len(v.input) < usize::MAX
        &&& key == Key::Delete ==> (v.cursor < edit::byte_len(v.input) ==> edit::is_boundary(
            v.input,
            v.cursor,
        ))
        &&& key == Key::Backspace ==> (v.cursor > 0 ==> edit::is_boundary(v.input, v.cursor - 1)
            && v.cursor - 1 < edit::byte_len(v.input))
        &&& key matches Key::Char(c) ==> edit::is_boundary(v.input, v.cursor) && edit::char_width(c)
            == 1
    }
}

/// The popup's selected entry taken: it replaces the text from the last `/`
/// or `@` before the cursor (or is put at the cursor), the cursor goes to the
/// end and the popup closes; with no entry selected the popup just closes.
pub open spec fn picked(v: ChatView) -> ChatView {
    let items = v.ac->0;
    if 0 <= v.ac_sel < items.len() {
        let before = v.input.take(edit::char_pos(v.input, v.cursor));
        let t = match rfind2(before, '/', '@') {
            Some(p) => p,
            None => before.len() as int,
        };
        let ni = v.input.take(t) + items[v.ac_sel];
        ChatView { input: ni, cursor: edit::byte_len(ni) as int, ac: None, ..v }
    } else {
        ChatView { ac: None, ..v }
    }
}

/// Backspace: the character before the cursor removed and the completions
/// refreshed; nothing at the start of the input.
pub open spec fn backspaced(v: ChatView, users: Seq<Seq<char>>) -> ChatView {
    if v.cursor > 0 {
        refresh_completions(
            ChatView {
                input: v.input.remove(edit::char_pos(v.input, v.cursor - 1)),
                cursor: v.cursor - 1,
                ..v
            },
            users,
        )
    } else {
        v
    }
}

/// A typed character: inserted at the cursor, which moves past it, and the
/// completions refreshed.
pub open spec fn typed(v: ChatView, c: char, users: Seq<Seq<char>>) -> ChatView {
    refresh_completions(
        ChatView { input: v.input.insert(edit::char_pos(v.input, v.cursor), c), cursor: v.cursor + 1, ..v },
        users,
    )
}

/// A key in the chat: the new chat state and the message submitted, if any.
pub open spec fn spec_on_chat(v: ChatView, waiting: bool, key: Key, users: Seq<Seq<char>>) -> (ChatView, Option<Seq<char>>) {
    if v.ac is Some && key == Key::Up {
        (ChatView { ac_sel: if v.ac_sel > 0 { v.ac_sel - 1 } else { 0 }, ..v }, None)
    } else if v.ac is Some && key == Key::Down {
        let n = v.ac->0.len();
        let last = if n > 0 { n - 1 } else { 0 };
        (ChatView { ac_sel: if v.ac_sel + 1 < last { v.ac_sel + 1 } else { last }, ..v }, None)
    } else if v.ac is Some && (key == Key::Tab || key == Key::Enter) {
        (picked(v), None)
    } else if v.ac is Some && key == Key::Esc {
        (ChatView { ac: None, ..v }, None)
    } else if !waiting && (key == Key::PageUp || key == Key::Up) {
        (ChatView { scroll: if v.scroll < usize::MAX { v.scroll + 1 } else { v.scroll }, ..v }, None)
    } else if !waiting && (key == Key::PageDown || key == Key::Down) && v.scroll > 0 {
        (ChatView { scroll: v.scroll - 1, ..v }, None)
    } else if waiting {
        (v, None)
    } else {
        match key {
            Key::Esc => (ChatView { screen: Screen::Home, ..v }, None),
            Key::Left => (ChatView { cursor: if v.cursor > 0 { v.cursor - 1 } else { 0 }, ..v }, None),
            Key::Right => (
                ChatView {
                    cursor: if v.cursor < edit::byte_len(v.input) {
                        v.cursor + 1
                    } else {
                        v.cursor
                    },
                    ..v
                },
                None,
            ),
            Key::Home => (ChatView { cursor: 0, ..v }, None),
            Key::End => (ChatView { cursor: edit::byte_len(v.input) as int, ..v }, None),
            Key::Delete => if v.cursor < edit::byte_len(v.input) {
                (ChatView { input: v.input.remove(edit::char_pos(v.input, v.cursor)), ..v }, None)
            } else {
                (v, None)
            },
            Key::Backspace => (backspaced(v, users), None),
            Key::Char(c) => (typed(v, c, users), None),
            Key::Enter => (
                ChatView { input: seq![], cursor: 0, ac: None, scroll: 0, ..v },
                Some(v.input),
            ),
            _ => (v, None),
        }
    }
}

fn rfind2_exec(s: &[char], a: char, b: char) -> (r: Option<usize>)
    ensures
        match r {
            Some(p) => rfind2(s@, a, b) == Some(p as int),
            None => rfind2(s@, a, b) is None,
        },
{
    let mut i = s.len();
    assert(s@.take(s.len() as int) =~= s@);
    while i > 0
        invariant
            i <= s.len(),
            rfind2(s@.take(i as int), a, b) == rfind2(s@, a, b),
        decreases i,
    {
        assert(s@.take(i as int).last() == s@[i - 1]);
        assert(s@.take(i as int).drop_last() =~= s@.take(i - 1));
        if s[i - 1] == a || s[i - 1] == b {
            return Some(i - 1);
        }
        i = i - 1;
    }
    None
}

fn chars_of_all(v: &[String]) -> (out: Vec<Vec<char>>)
    ensures
        text::views(out@) == strs_view(v@),
{
    let mut out: Vec<Vec<char>> = Vec::new();
    let mut i: usize = 0;
    while i < v.len()
        invariant
            i <= v.len(),
            text::views(out@) == strs_view(v@.take(i as int)),
        decreases v.len() - i,
    {
        let ghost before = text::views(out@);
        out.push(chars_of(v[i].as_str()));
        assert(text::views(out@) =~= before.push(v@[i as int]@));
        assert(strs_view(v@.take(i + 1)) =~= strs_view(v@.take(i as int)).push(v@[i as int]@));
        i = i + 1;
    }
    assert(v@.take(v.len() as int) =~= v@);
    out
}

fn slash_cmd_list() -> (out: Vec<Vec<char>>)
    ensures
        text::views(out@) == slash_cmds(),
{
    let mut out: Vec<Vec<char>> = Vec::new();
    out.push(chars_of("/quit"));
    out.push(chars_of("/clear"));
    out.push(chars_of("/help"));
    out.push(chars_of("/config"));
    out.push(chars_of("/memory"));
    out.push(chars_of("/tools"));
    assert(text::views(out@) =~= slash_cmds());
    out
}

#[verifier::rlimit(30)]
fn with_prefix_exec(cands: &Vec<Vec<char>>, typed: &[char], at: bool) -> (out: Vec<String>)
    ensures
        strs_view(out@) == (if at {
            mentions(with_prefix(text::views(cands@), typed@))
        } else {
            with_prefix(text::views(cands@), typed@)
        }),
{
    let ghost cv = text::views(cands@);
    let mut out: Vec<String> = Vec::new();
    let mut i: usize = 0;
    while i < cands.len()
        invariant
            i <= cands.len(),
            cv == text::views(cands@),
            strs_view(out@) == (if at {
                mentions(with_prefix(cv.take(i as int), typed@))
            } else {
                with_prefix(cv.take(i as int), typed@)
            }),
        decreases cands.len() - i,
    {
        assert(cv.take(i + 1).drop_last() =~= cv.take(i as int));
        assert(cv.take(i + 1).last() == cands@[i as int]@);
        let ghost before = strs_view(out@);
        if text::starts_with_chars(&cands[i], typed) {
            if at {
                let mut m: Vec<char> = Vec::new();
                m.push('@');
                let m = concat_chars(&m, &cands[i]);
                out.push(string_of(&m));
                assert(m@ =~= seq!['@'] + cands@[i as int]@);
            } else {
                out.push(string_of(&cands[i]));
            }
            assert(strs_view(out@) =~= before.push(strs_view(out@).last()));
        }
        proof {
            if at {
                assert(mentions(with_prefix(cv.take(i + 1), typed@)) =~= mentions(
                    with_prefix(cv.take(i as int), typed@),
                ) + mentions(
                    if text::starts_with(cv[i as int], typed@) {
                        seq![cv[i as int]]
                    } else {
                        seq![]
                    },
                ));
            }
        }
        assert(strs_view(out@) =~= (if at {
            mentions(with_prefix(cv.take(i + 1), typed@))
        } else {
            with_prefix(cv.take(i + 1), typed@)
        }));
        i = i + 1;
    }
    assert(cv.take(cands.len() as int) =~= cv);
    out
}

/// The completion candidates for the input before the cursor: matching
/// slash commands, else `@`-mentions of matching user names.
#[verifier::rlimit(30)]
pub fn completions(before: &[char], users: &[String]) -> (r: Option<Vec<String>>)
    ensures
        ac_view(r) == spec_completions(before@, strs_view(users@)),
{
    let slash = match rfind2_exec(before, '/', '/') {
        Some(p) => {
            proof {
                lemma_rfind2_bound(before@, '/', '/');
            }
            let typed = text::sub_chars(before, p, before.len());
            assert(typed@ =~= before@.skip(p as int));
            with_prefix_exec(&slash_cmd_list(), &typed, false)
        },
        None => Vec::new(),
    };
    assert(strs_view(slash@) =~= match rfind2(before@, '/', '/') {
        Some(p) => with_prefix(slash_cmds(), before@.skip(p)),
        None => seq![],
    });
    if slash.len() > 0 {
        return Some(slash);
    }
    let at = match rfind2_exec(before, '@', '@') {
        Some(p) => {
            proof {
                lemma_rfind2_bound(before@, '@', '@');
            }
            assert(p < before.len());
            let typed = text::sub_chars(before, p + 1, before.len());
            assert(typed@ =~= before@.skip(p + 1));
            let us = chars_of_all(users);
            with_prefix_exec(&us, &typed, true)
        },
        None => Vec::new(),
    };
    assert(strs_view(at@) =~= match rfind2(before@, '@', '@') {
        Some(p) => mentions(with_prefix(strs_view(users@), before@.skip(p + 1))),
        None => seq![],
    });
    if at.len() > 0 {
        Some(at)
    } else {
        None
    }
}

/// What `rfind2` reports is a position of `s`.
pub proof fn lemma_rfind2_bound(s: Seq<char>, a: char, b: char)
    ensures
        rfind2(s, a, b) matches Some(p) ==> 0 <= p < s.len() && (s[p] == a || s[p] == b),
    decreases s.len(),
{
    if s.len() > 0 && !(s.last() == a || s.last() == b) {
        lemma_rfind2_bound(s.drop_last(), a, b);
    }
}

impl AppState {
    fn refresh_ac(&mut self, cs: &Vec<char>, k: usize, users: &[String])
        requires
            cs@ == old(self).input@,
            k <= cs.len(),
            edit::char_pos(cs@, old(self).cursor as int) == k,
        ensures
            chat_view(*final(self)) == refresh_completions(chat_view(*old(self)), strs_view(users@)),
            same_outside_chat(*old(self), *final(self)),
            final(self).input == old(self).input,
            final(self).cursor == old(self).cursor,
            final(self).scroll == old(self).scroll,
            final(self).screen == old(self).screen,
    {
        let before = text::sub_chars(cs, 0, k);
        assert(before@ =~= cs@.take(k as int));
        let c = completions(&before, users);
        let opened = c.is_some();
        self.ac_items = c;
        if opened {
            self.ac_sel = 0;
        }
    }

    #[verifier::rlimit(30)]
    fn pick_completion(&mut self)
        requires
            old(self).ac_items is Some,
            chat_key_ok(chat_view(*old(self)), old(self).waiting, Key::Tab),
        ensures
            chat_view(*final(self)) == picked(chat_view(*old(self))),
            same_outside_chat(*old(self), *final(self)),
    {
        let ghost v = chat_view(*self);
        let pick: Option<String> = match &self.ac_items {
            Some(items) => if self.ac_sel < items.len() {
                Some(items[self.ac_sel].clone())
            } else {
                None
            },
            None => None,
        };
        match pick {
            Some(p) => {
                let cs = chars_of(self.input.as_str());
                let k = match edit::pos_of_byte(&cs, self.cursor) {
                    Some(k) => k,
                    None => {
                        self.ac_items = None;
                        return;
                    },
                };
                let before = text::sub_chars(&cs, 0, k);
                assert(before@ =~= cs@.take(k as int));
                proof {
                    lemma_rfind2_bound(before@, '/', '@');
                }
                let t = match rfind2_exec(&before, '/', '@') {
                    Some(q) => q,
                    None => before.len(),
                };
                let head = text::sub_chars(&cs, 0, t);
                assert(head@ =~= cs@.take(t as int));
                let pc = chars_of(p.as_str());
                let ni = concat_chars(&head, &pc);
                proof {
                    edit::lemma_byte_len_concat(head@, pc@);
                    if t < cs.len() {
                        edit::lemma_byte_len_prefix(cs@, t as int, cs.len() as int);
                    }
                    edit::lemma_take_all(cs@);
                }
                self.input = string_of(&ni);
                self.cursor = edit::byte_len_of(&ni);
            },
            None => {},
        }
        self.ac_items = None;
    }

    #[verifier::rlimit(30)]
    fn backspace(&mut self, users: &[String])
        requires
            old(self).cursor > 0 ==> edit::is_boundary(old(self).input@, old(self).cursor - 1)
                && old(self).cursor - 1 < edit::byte_len(old(self).input@),
        ensures
            chat_view(*final(self)) == backspaced(chat_view(*old(self)), strs_view(users@)),
            same_outside_chat(*old(self), *final(self)),
    {
        if self.cursor > 0 {
            let cs = chars_of(self.input.as_str());
            let c1 = self.cursor - 1;
            let k = match edit::pos_of_byte(&cs, c1) {
                Some(k) => k,
                None => {
                    return;
                },
            };
            proof {
                edit::lemma_take_all(cs@);
            }
            let mut ns = cs;
            let ghost old_cs = ns@;
            ns.remove(k);
            proof {
                assert(ns@.take(k as int) =~= old_cs.take(k as int));
                edit::lemma_char_pos(ns@, k as int);
            }
            self.input = string_of(&ns);
            self.cursor = c1;
            self.refresh_ac(&ns, k, users);
        }
    }

    #[verifier::rlimit(30)]
    fn type_char(&mut self, c: char, users: &[String])
        requires
            edit::is_boundary(old(self).input@, old(self).cursor as int),
            edit::char_width(c) == 1,
            edit::byte_len(old(self).input@) < usize::MAX,
        ensures
            chat_view(*final(self)) == typed(chat_view(*old(self)), c, strs_view(users@)),
            same_outside_chat(*old(self), *final(self)),
    {
        let cs = chars_of(self.input.as_str());
        let k = match edit::pos_of_byte(&cs, self.cursor) {
            Some(k) => k,
            None => {
                return;
            },
        };
        let mut ns = cs;
        let ghost old_cs = ns@;
        ns.insert(k, c);
        assert(ns.len() == old_cs.len() + 1);
        proof {
            assert(ns@.take(k + 1) =~= old_cs.take(k as int).push(c));
            assert(ns@.take(k + 1).drop_last() =~= old_cs.take(k as int));
            edit::lemma_char_pos(ns@, k + 1);
            edit::lemma_take_all(old_cs);
            if k < old_cs.len() {
                edit::lemma_byte_len_prefix(old_cs, k as int, old_cs.len() as int);
            }
        }
        self.input = string_of(&ns);
        self.cursor = self.cursor + 1;
        self.refresh_ac(&ns, k + 1, users);
    }

    /// A key in the chat. With the completion popup open, arrows move in it,
    /// Tab or Enter replace the text from the last `/` or `@` before the cursor
    /// with the chosen entry, and Esc closes it. Otherwise arrows scroll, Esc
    /// returns home, the cursor keys move, Delete/Backspace/characters edit
    /// (refreshing the completions), and Enter submits the input, which is
    /// returned.
    #[verifier::rlimit(30)]
    pub fn on_chat(&mut self, key: Key, users: &[String]) -> (sent: Option<String>)
        requires
            chat_key_ok(chat_view(*old(self)), old(self).waiting, key),
        ensures
            (chat_view(*final(self)), crate::json::opt_view(sent)) == spec_on_chat(
                chat_view(*old(self)),
                old(self).waiting,
                key,
                strs_view(users@),
            ),
            same_outside_chat(*old(self), *final(self)),
    {
        let ghost v = chat_view(*self);
        if self.ac_items.is_some() {
            match key {
                Key::Up => {
                    self.ac_sel = if self.ac_sel > 0 {
                        self.ac_sel - 1
                    } else {
                        0
                    };
                    return None;
                },
                Key::Down => {
                    let n = match &self.ac_items {
                        Some(items) => items.len(),
                        None => 1,
                    };
                    let last = if n > 0 {
                        n - 1
                    } else {
                        0
                    };
                    self.ac_sel = if self.ac_sel + 1 < last {
                        self.ac_sel + 1
                    } else {
                        last
                    };
                    return None;
                },
                Key::Tab | Key::Enter => {
                    self.pick_completion();
                    return None;
                },
                Key::Esc => {
                    self.ac_items = None;
                    return None;
                },
                _ => {},
            }
        }
        if !self.waiting {
            if key == Key::PageUp || key == Key::Up {
                self.scroll = if self.scroll < usize::MAX {
                    self.scroll + 1
                } else {
                    self.scroll
                };
                return None;
            }
            if (key == Key::PageDown || key == Key::Down) && self.scroll > 0 {
                self.scroll = self.scroll - 1;
                return None;
            }
        }
        if self.waiting {
            return None;
        }
        match key {
            Key::Esc => {
                self.screen = Screen::Home;
                None
            },
            Key::Left => {
                self.cursor = if self.cursor > 0 {
                    self.cursor - 1
                } else {
                    0
                };
                None
            },
            Key::Right => {
                let cs = chars_of(self.input.as_str());
                if self.cursor < edit::byte_len_of(&cs) {
                    self.cursor = self.cursor + 1;
                }
                None
            },
            Key::Home => {
                self.cursor = 0;
                None
            },
            Key::End => {
                let cs = chars_of(self.input.as_str());
                self.cursor = edit::byte_len_of(&cs);
                None
            },
            Key::Delete => {
                let cs = chars_of(self.input.as_str());
                if self.cursor < edit::byte_len_of(&cs) {
                    let k = match edit::pos_of_byte(&cs, self.cursor) {
                        Some(k) => k,
                        None => {
                            return None;
                        },
                    };
                    proof {
                        edit::lemma_take_all(cs@);
                    }
                    let mut cs = cs;
                    cs.remove(k);
                    self.input = string_of(&cs);
                }
                None
            },
            Key::Backspace => {
                self.backspace(users);
                None
            },
            Key::Char(c) => {
                self.type_char(c, users);
                None
            },
            Key::Enter => {
                let msg = string_of(&chars_of(self.input.as_str()));
                self.input = String::new();
                self.cursor = 0;
                self.ac_items = None;
                self.scroll = 0;
                Some(msg)
            },
            _ => None,
        }
    }
}

/// The opening lines of the chat: a welcome, the model in use, a hint and a
/// rule.
pub open spec fn welcome_lines(alias: Seq<char>, model: Seq<char>, base: Seq<char>) -> Seq<Seq<char>> {
    seq![
        "Welcome to Omniscientia, "@ + alias + "!"@,
        "Model: "@ + model + "  |  "@ + base,
        "Type /help for commands  ·  Esc returns to the main menu"@,
        Seq::new(50, |_i: int| '-'),
    ]
}

/// A stored message as a chat line: the user's own under their alias, the
/// others under "omni".
pub open spec fn history_line(alias: Seq<char>, role: Seq<char>, content: Seq<char>) -> Seq<char> {
    (if role == "user"@ {
        alias
    } else {
        "omni"@
    }) + ": "@ + content
}

/// What a submitted chat input comes to.
pub enum Dispatch {
    /// A command or an empty input, handled here.
    Handled,
    /// A message for the model: it has been echoed and a reply is awaited.
    Ask,
}

/// The chat lines that `/clear` keeps: all but the user's own lines and lines
/// starting with "Omniscientia:".
pub open spec fn kept_after_clear(msgs: Seq<Seq<char>>, alias: Seq<char>) -> Seq<Seq<char>>
    decreases msgs.len(),
{
    if msgs.len() == 0 {
        seq![]
    } else {
        kept_after_clear(msgs.drop_last(), alias) + if text::starts_with(
            msgs.last(),
            alias + seq![':'],
        ) || text::starts_with(msgs.last(), "Omniscientia:"@) {
            seq![]
        } else {
            seq![msgs.last()]
        }
    }
}

/// The lines `/help` adds.
pub open spec fn help_lines() -> Seq<Seq<char>> {
    seq!["── Commands ──"@] + slash_cmds().map_values(|c: Seq<char>| "  "@ + c)
}

/// The chat line for a bot event.
pub open spec fn bot_event_line(e: BotEvent) -> Seq<char> {
    match e {
        BotEvent::TelegramPairing { username, text, .. } => "[TG] @"@ + username@ + " wants to pair: "@
            + text@,
        BotEvent::DiscordPairing { username, text, .. } => "[DC] @"@ + username@ + " wants to pair: "@
            + text@,
        BotEvent::Info(m) => "[Bot] "@ + m@,
    }
}

/// How a chat line is drawn.
pub enum LineKind {
    /// The user's own message.
    User,
    /// A reply of the model, drawn as markdown: its text after "omni:", with
    /// leading whitespace removed.
    Reply(String),
    /// A pairing request from a bot.
    Pairing,
    /// Information from the bot server.
    Bot,
    /// The result of a tool call.
    Tool,
    Error,
    Rule,
    Plain,
}

/// How the chat line `m` is drawn for the user `alias`.
pub open spec fn spec_line_kind(m: Seq<char>, alias: Seq<char>) -> (int, Seq<char>) {
    if text::starts_with(m, alias + seq![':']) {
        (0, seq![])
    } else if text::starts_with(m, "omni:"@) {
        (1, text::trim_start(m.skip(5)))
    } else if text::starts_with(m, "[TG]"@) || text::starts_with(m, "[DC]"@) {
        (2, seq![])
    } else if text::starts_with(m, "[Bot]"@) {
        (3, seq![])
    } else if text::starts_with(m, "[Tool]"@) {
        (4, seq![])
    } else if text::starts_with(m, "[ERROR]"@) {
        (5, seq![])
    } else if text::starts_with(m, "--"@) || text::starts_with(m, "─"@) {
        (6, seq![])
    } else {
        (7, seq![])
    }
}

/// A line kind as a number and, for replies, the text.
pub open spec fn kind_view(k: LineKind) -> (int, Seq<char>) {
    match k {
        LineKind::User => (0, seq![]),
        LineKind::Reply(t) => (1, t@),
        LineKind::Pairing => (2, seq![]),
        LineKind::Bot => (3, seq![]),
        LineKind::Tool => (4, seq![]),
        LineKind::Error => (5, seq![]),
        LineKind::Rule => (6, seq![]),
        LineKind::Plain => (7, seq![]),
    }
}

/// The chat lines that count as messages in the sidebar: those holding a `:`
/// that do not start with `─`.
pub open spec fn spec_message_count(msgs: Seq<Seq<char>>) -> int
    decreases msgs.len(),
{
    if msgs.len() == 0 {
        0
    } else {
        spec_message_count(msgs.drop_last()) + if msgs.last().contains(':') && !(msgs.last().len()
            > 0 && msgs.last()[0] == '─') {
            1int
        } else {
            0
        }
    }
}

fn owned(s: &str) -> (r: String)
    ensures
        r@ == s@,
{
    string_of(&chars_of(s))
}

fn starts_with_str(m: &[char], lit: &str) -> (r: bool)
    ensures
        r == text::starts_with(m@, lit@),
{
    text::starts_with_chars(m, &chars_of(lit))
}

/// The rows of the chat shown in a pane of `height` rows scrolled back by
/// `scroll`: from `start` to `end`.
pub fn visible_range(total: usize, height: usize, scroll: usize) -> (r: (usize, usize))
    requires
        height + scroll <= usize::MAX,
    ensures
        r.0 == (if total > height + scroll { total - height - scroll } else { 0 }),
        r.1 == (if total > scroll { total - scroll } else { 0 }),
{
    let start = if total > height + scroll {
        total - (height + scroll)
    } else {
        0
    };
    let end = if total > scroll {
        total - scroll
    } else {
        0
    };
    (start, end)
}

/// How the chat line `m` is drawn for the user `alias`.
pub fn line_kind(m: &str, alias: &str) -> (k: LineKind)
    ensures
        kind_view(k) == spec_line_kind(m@, alias@),
{
    let mc = chars_of(m);
    let mut pfx = chars_of(alias);
    pfx.push(':');
    assert(pfx@ =~= alias@ + seq![':']);
    if text::starts_with_chars(&mc, &pfx) {
        LineKind::User
    } else if starts_with_str(&mc, "omni:") {
        proof {
            reveal_strlit("omni:");
        }
        let rest = text::sub_chars(&mc, 5, mc.len());
        assert(rest@ =~= m@.skip(5));
        LineKind::Reply(string_of(&text::trim_start_chars(&rest)))
    } else if starts_with_str(&mc, "[TG]") || starts_with_str(&mc, "[DC]") {
        LineKind::Pairing
    } else if starts_with_str(&mc, "[Bot]") {
        LineKind::Bot
    } else if starts_with_str(&mc, "[Tool]") {
        LineKind::Tool
    } else if starts_with_str(&mc, "[ERROR]") {
        LineKind::Error
    } else if starts_with_str(&mc, "--") || starts_with_str(&mc, "─") {
        LineKind::Rule
    } else {
        LineKind::Plain
    }
}

/// The number of chat lines the sidebar counts as messages.
pub fn message_count(msgs: &Vec<String>) -> (n: usize)
    ensures
        n == spec_message_count(strs_view(msgs@)),
{
    let ghost mv = strs_view(msgs@);
    let mut n: usize = 0;
    let mut i: usize = 0;
    while i < msgs.len()
        invariant
            i <= msgs.len(),
            mv == strs_view(msgs@),
            n == spec_message_count(mv.take(i as int)),
            n <= i,
        decreases msgs.len() - i,
    {
        assert(mv.take(i + 1).drop_last() =~= mv.take(i as int));
        assert(mv.take(i + 1).last() == msgs@[i as int]@);
        let mc = chars_of(msgs[i].as_str());
        let mut has_colon = false;
        let mut j: usize = 0;
        while j < mc.len()
            invariant
                j <= mc.len(),
                has_colon == exists|q: int| 0 <= q < j && mc@[q] == ':',
            decreases mc.len() - j,
        {
            if mc[j] == ':' {
                has_colon = true;
            }
            j = j + 1;
        }
        assert(has_colon == mc@.contains(':'));
        if has_colon && !(mc.len() > 0 && mc[0] == '─') {
            n = n + 1;
        }
        i = i + 1;
    }
    assert(mv.take(msgs.len() as int) =~= mv);
    n
}

impl AppState {
    /// The state on start: the home screen, the chat opened with the welcome
    /// lines followed by the stored (role, content) history.
    #[verifier::rlimit(30)]
    pub fn new(
        alias: String,
        model_name: &str,
        ollama_base: &str,
        history: &[(String, String)],
        server_pid: Option<u32>,
    ) -> (r: Self)
        ensures
            r.running,
            r.screen == Screen::Home,
            r.alias@ == alias@,
            r.home_sel == 0 && r.dev_sel == 0,
            strs_view(r.messages@) == welcome_lines(alias@, model_name@, ollama_base@) + history@.map_values(
                |h: (String, String)| history_line(alias@, h.0@, h.1@),
            ),
            r.input@ == Seq::<char>::empty() && r.cursor == 0,
            !r.waiting && r.scroll == 0,
            r.ac_items is None && r.ac_sel == 0,
            r.pairing_list@ == Seq::<PendingUser>::empty() && r.pairing_sel == 0,
            r.server_pid == server_pid,
    {
        let a = chars_of(alias.as_str());
        let mut messages: Vec<String> = Vec::new();
        let l1 = concat_chars(&str_then("Welcome to Omniscientia, ", &a), &chars_of("!"));
        messages.push(string_of(&l1));
        let l2 = concat_chars(
            &str_then("Model: ", &chars_of(model_name)),
            &str_then("  |  ", &chars_of(ollama_base)),
        );
        messages.push(string_of(&l2));
        messages.push(owned("Type /help for commands  ·  Esc returns to the main menu"));
        let mut rule: Vec<char> = Vec::new();
        let mut k: usize = 0;
        while k < 50
            invariant
                k <= 50,
                rule@ == Seq::new(k as nat, |_i: int| '-'),
            decreases 50 - k,
        {
            rule.push('-');
            assert(rule@ =~= Seq::new((k + 1) as nat, |_i: int| '-'));
            k = k + 1;
        }
        messages.push(string_of(&rule));
        let ghost head = welcome_lines(alias@, model_name@, ollama_base@);
        assert(l1@ =~= "Welcome to Omniscientia, "@ + alias@ + "!"@);
        assert(l2@ =~= "Model: "@ + model_name@ + "  |  "@ + ollama_base@);
        assert(strs_view(messages@) =~= head);
        let ghost hv = history@.map_values(|h: (String, String)| history_line(alias@, h.0@, h.1@));
        let mut i: usize = 0;
        while i < history.len()
            invariant
                i <= history.len(),
                a@ == alias@,
                hv == history@.map_values(|h: (String, String)| history_line(alias@, h.0@, h.1@)),
                strs_view(messages@) == head + hv.take(i as int),
            decreases history.len() - i,
        {
            let (role, content) = &history[i];
            let who = if text::eq_str(&chars_of(role.as_str()), "user") {
                chars_of(alias.as_str())
            } else {
                chars_of("omni")
            };
            let line = concat_chars(&concat_chars(&who, &chars_of(": ")), &chars_of(content.as_str()));
            let ghost before = strs_view(messages@);
            messages.push(string_of(&line));
            assert(strs_view(messages@) =~= before.push(hv[i as int]));
            assert(hv.take(i + 1) =~= hv.take(i as int).push(hv[i as int]));
            i = i + 1;
        }
        assert(hv.take(history.len() as int) =~= hv);
        AppState {
            running: true,
            screen: Screen::Home,
            alias,
            home_sel: 0,
            dev_sel: 0,
            messages,
            input: String::new(),
            cursor: 0,
            waiting: false,
            scroll: 0,
            ac_items: None,
            ac_sel: 0,
            pairing_list: Vec::new(),
            pairing_sel: 0,
            server_pid,
        }
    }

    /// Handles a submitted chat input: `/quit` stops the interface, `/clear`
    /// drops the user's lines, `/help` lists the commands and an empty input
    /// is ignored (all judged on the trimmed input); anything else is echoed
    /// under the user's alias and a reply is awaited.
    #[verifier::rlimit(30)]
    pub fn dispatch(&mut self, msg: &str) -> (d: Dispatch)
        ensures
            ({
                let t = text::trim(msg@);
                let o = *old(self);
                let f = *final(self);
                if t == "/quit"@ {
                    f == AppState { running: false, ..o } && d is Handled
                } else if t == "/clear"@ {
                    strs_view(f.messages@) == kept_after_clear(strs_view(o.messages@), o.alias@)
                        && f == AppState { messages: f.messages, ..o } && d is Handled
                } else if t == "/help"@ {
                    strs_view(f.messages@) == strs_view(o.messages@) + help_lines()
                        && f == AppState { messages: f.messages, ..o } && d is Handled
                } else if t.len() == 0 {
                    f == o && d is Handled
                } else {
                    strs_view(f.messages@) == strs_view(o.messages@).push(o.alias@ + ": "@ + msg@)
                        && f == AppState { messages: f.messages, waiting: true, ..o } && d is Ask
                }
            }),
    {
        let t = text::trim_chars(&chars_of(msg));
        if text::eq_str(&t, "/quit") {
            self.running = false;
            return Dispatch::Handled;
        }
        if text::eq_str(&t, "/clear") {
            self.clear_own_lines();
            return Dispatch::Handled;
        }
        if text::eq_str(&t, "/help") {
            let ghost before = strs_view(self.messages@);
            self.messages.push(owned("── Commands ──"));
            let cmds = slash_cmd_list();
            let mut i: usize = 0;
            while i < cmds.len()
                invariant
                    i <= cmds.len(),
                    text::views(cmds@) == slash_cmds(),
                    strs_view(self.messages@) == before + seq!["── Commands ──"@] + slash_cmds().take(
                        i as int,
                    ).map_values(|c: Seq<char>| "  "@ + c),
                    self.running == old(self).running,
                    self.screen == old(self).screen,
                    self.alias == old(self).alias,
                    self.home_sel == old(self).home_sel,
                    self.dev_sel == old(self).dev_sel,
                    self.input == old(self).input,
                    self.cursor == old(self).cursor,
                    self.waiting == old(self).waiting,
                    self.scroll == old(self).scroll,
                    self.ac_items == old(self).ac_items,
                    self.ac_sel == old(self).ac_sel,
                    self.pairing_list == old(self).pairing_list,
                    self.pairing_sel == old(self).pairing_sel,
                    self.server_pid == old(self).server_pid,
                decreases cmds.len() - i,
            {
                let ghost b2 = strs_view(self.messages@);
                self.messages.push(string_of(&str_then("  ", &cmds[i])));
                assert(strs_view(self.messages@) =~= b2.push("  "@ + slash_cmds()[i as int]));
                assert(slash_cmds().take(i + 1).map_values(|c: Seq<char>| "  "@ + c) =~= slash_cmds().take(
                    i as int,
                ).map_values(|c: Seq<char>| "  "@ + c).push("  "@ + slash_cmds()[i as int]));
                i = i + 1;
            }
            assert(slash_cmds().take(6) =~= slash_cmds());
            assert(strs_view(self.messages@) =~= before + help_lines());
            return Dispatch::Handled;
        }
        if t.len() == 0 {
            return Dispatch::Handled;
        }
        let line = concat_chars(&str_then(self.alias.as_str(), &chars_of(": ")), &chars_of(msg));
        let ghost before = strs_view(self.messages@);
        self.messages.push(string_of(&line));
        assert(strs_view(self.messages@) =~= before.push(old(self).alias@ + ": "@ + msg@));
        self.waiting = true;
        Dispatch::Ask
    }

    #[verifier::rlimit(30)]
    fn clear_own_lines(&mut self)
        ensures
            strs_view(final(self).messages@) == kept_after_clear(
                strs_view(old(self).messages@),
                old(self).alias@,
            ),
            *final(self) == (AppState { messages: final(self).messages, ..*old(self) }),
    {
        let mut pfx = chars_of(self.alias.as_str());
        pfx.push(':');
        assert(pfx@ =~= self.alias@ + seq![':']);
        let omni = chars_of("Omniscientia:");
        let ghost mv = strs_view(self.messages@);
        let mut kept: Vec<String> = Vec::new();
        let mut i: usize = 0;
        while i < self.messages.len()
            invariant
                i <= self.messages.len(),
                mv == strs_view(self.messages@),
                pfx@ == self.alias@ + seq![':'],
                omni@ == "Omniscientia:"@,
                strs_view(kept@) == kept_after_clear(mv.take(i as int), self.alias@),
            decreases self.messages.len() - i,
        {
            assert(mv.take(i + 1).drop_last() =~= mv.take(i as int));
            assert(mv.take(i + 1).last() == self.messages@[i as int]@);
            let mc = chars_of(self.messages[i].as_str());
            let ghost before = strs_view(kept@);
            if !(text::starts_with_chars(&mc, &pfx) || text::starts_with_chars(&mc, &omni)) {
                kept.push(self.messages[i].clone());
                assert(strs_view(kept@) =~= before.push(mc@));
            } else {
                assert(strs_view(kept@) =~= before + Seq::<Seq<char>>::empty());
            }
            i = i + 1;
        }
        assert(mv.take(self.messages.len() as int) =~= mv);
        self.messages = kept;
    }

    /// Adds a chat line.
    fn add_line(&mut self, line: String)
        ensures
            strs_view(final(self).messages@) == strs_view(old(self).messages@).push(line@),
            *final(self) == (AppState { messages: final(self).messages, ..*old(self) }),
    {
        let ghost before = strs_view(self.messages@);
        self.messages.push(line);
        assert(strs_view(self.messages@) =~= before.push(line@));
    }

    /// Shows a reply of the model (as an "omni:" line).
    pub fn add_reply(&mut self, reply: &str)
        ensures
            strs_view(final(self).messages@) == strs_view(old(self).messages@).push("omni: "@ + reply@),
            *final(self) == (AppState { messages: final(self).messages, ..*old(self) }),
    {
        self.add_line(string_of(&str_then("omni: ", &chars_of(reply))));
    }

    /// Shows an error (as an "[ERROR]" line).
    pub fn add_error(&mut self, err: &str)
        ensures
            strs_view(final(self).messages@) == strs_view(old(self).messages@).push("[ERROR] "@ + err@),
            *final(self) == (AppState { messages: final(self).messages, ..*old(self) }),
    {
        self.add_line(string_of(&str_then("[ERROR] ", &chars_of(err))));
    }

    /// Shows a bot event.
    pub fn add_bot_event(&mut self, evt: &BotEvent)
        ensures
            strs_view(final(self).messages@) == strs_view(old(self).messages@).push(bot_event_line(*evt)),
            *final(self) == (AppState { messages: final(self).messages, ..*old(self) }),
    {
        let line = match evt {
            BotEvent::TelegramPairing { username, text, .. } => concat_chars(
                &str_then("[TG] @", &chars_of(username.as_str())),
                &str_then(" wants to pair: ", &chars_of(text.as_str())),
            ),
            BotEvent::DiscordPairing { username, text, .. } => concat_chars(
                &str_then("[DC] @", &chars_of(username.as_str())),
                &str_then(" wants to pair: ", &chars_of(text.as_str())),
            ),
            BotEvent::Info(m) => str_then("[Bot] ", &chars_of(m.as_str())),
        };
        assert(line@ =~= bot_event_line(*evt));
        self.add_line(string_of(&line));
    }

    /// Shows the note of a tool call: its name and the first 120 bytes of its
    /// result (which must not cut a character in two).
    #[verifier::rlimit(30)]
    pub fn add_tool_note(&mut self, tool: &str, result: &str)
        requires
            edit::is_boundary(
                result@,
                if edit::byte_len(result@) < 120 { edit::byte_len(result@) as int } else { 120 },
            ),
        ensures
            strs_view(final(self).messages@) == strs_view(old(self).messages@).push(
                "[Tool] "@ + tool@ + " → "@ + result@.take(
                    edit::char_pos(
                        result@,
                        if edit::byte_len(result@) < 120 { edit::byte_len(result@) as int } else { 120 },
                    ),
                ),
            ),
            *final(self) == (AppState { messages: final(self).messages, ..*old(self) }),
    {
        let rc = chars_of(result);
        let k = match edit::pos_of_byte(&rc, 120) {
            Some(k) => {
                proof {
                    edit::lemma_take_all(rc@);
                    if k < rc.len() {
                        edit::lemma_byte_len_prefix(rc@, k as int, rc@.len() as int);
                    }
                }
                k
            },
            None => rc.len(),
        };
        proof {
            edit::lemma_take_all(rc@);
            edit::lemma_char_pos(rc@, rc@.len() as int);
            if edit::byte_len(rc@) >= 120 && !edit::is_boundary(rc@, 120) {
            }
        }
        let shown = text::sub_chars(&rc, 0, k);
        let line = concat_chars(
            &concat_chars(&str_then("[Tool] ", &chars_of(tool)), &chars_of(" → ")),
            &shown,
        );
        assert(shown@ =~= result@.take(k as int));
        assert(k == edit::char_pos(
            result@,
            if edit::byte_len(result@) < 120 { edit::byte_len(result@) as int } else { 120 },
        ));
        assert(line@ =~= "[Tool] "@ + tool@ + " → "@ + result@.take(k as int));
        self.add_line(string_of(&line));
    }

    /// Marks the awaited reply as arrived.
    pub fn done_waiting(&mut self)
        ensures
            *final(self) == (AppState { waiting: false, ..*old(self) }),
    {
        self.waiting = false;
    }
}

/// The steps of the configuration wizard.
#[derive(PartialEq, Eq, Structural, Clone, Copy, Debug)]
pub enum WizStep {
    Url,
    Model,
    Tg,
    Discord,
}

/// The configuration wizard: the Ollama URL, the model picked from the
/// server's list, and the two bot tokens.
pub struct Wizard {
    pub step: WizStep,
    pub url: String,
    pub tg: String,
    pub disc: String,
    pub models: Vec<String>,
    pub selected: Option<usize>,
    pub status: String,
    pub done: bool,
}

/// What the wizard asks for after a key.
pub enum WizardAction {
    /// Nothing.
    Stay,
    /// Fetch the model list from the server at `url`, then call
    /// `models_arrived` with it.
    FetchModels,
}

/// The wizard over characters.
pub struct WizView {
    pub step: WizStep,
    pub url: Seq<char>,
    pub tg: Seq<char>,
    pub disc: Seq<char>,
    pub models: Seq<Seq<char>>,
    pub selected: Option<usize>,
    pub status: Seq<char>,
    pub done: bool,
}

/// The wizard's state over characters.
pub open spec fn wiz_view(w: Wizard) -> WizView {
    WizView {
        step: w.step,
        url: w.url@,
        tg: w.tg@,
        disc: w.disc@,
        models: strs_view(w.models@),
        selected: w.selected,
        status: w.status@,
        done: w.done,
    }
}

/// `s` without its last character, if any (`String::pop`).
pub open spec fn pop_last(s: Seq<char>) -> Seq<char> {
    if s.len() > 0 {
        s.drop_last()
    } else {
        s
    }
}

/// A key in the wizard, and whether the model list is to be fetched.
pub open spec fn spec_wizard_key(w: WizView, key: Key) -> (WizView, bool) {
    match (w.step, key) {
        (WizStep::Url, Key::Char(c)) => (WizView { url: w.url.push(c), ..w }, false),
        (WizStep::Url, Key::Backspace) => (WizView { url: pop_last(w.url), ..w }, false),
        (WizStep::Url, Key::Esc) => (WizView { done: true, ..w }, false),
        (WizStep::Url, Key::Enter) => (
            WizView {
                url: if w.url.len() == 0 {
                    "http://localhost:11434"@
                } else {
                    w.url
                },
                ..w
            },
            true,
        ),
        (WizStep::Model, Key::Up) => (
            WizView {
                selected: Some(
                    match w.selected {
                        Some(i) => dec(i),
                        None => 0,
                    },
                ),
                ..w
            },
            false,
        ),
        (WizStep::Model, Key::Down) => {
            let i = match w.selected {
                Some(i) => i,
                None => 0,
            };
            if i + 1 < w.models.len() {
                (WizView { selected: Some((i + 1) as usize), ..w }, false)
            } else {
                (w, false)
            }
        },
        (WizStep::Model, Key::Enter) => (WizView { step: WizStep::Tg, ..w }, false),
        (WizStep::Model, Key::Esc) => (WizView { done: true, ..w }, false),
        (WizStep::Tg, Key::Char(c)) => (WizView { tg: w.tg.push(c), ..w }, false),
        (WizStep::Tg, Key::Backspace) => (WizView { tg: pop_last(w.tg), ..w }, false),
        (WizStep::Tg, Key::Enter) => (WizView { step: WizStep::Discord, ..w }, false),
        (WizStep::Tg, Key::Esc) => (WizView { step: WizStep::Discord, ..w }, false),
        (WizStep::Discord, Key::Char(c)) => (WizView { disc: w.disc.push(c), ..w }, false),
        (WizStep::Discord, Key::Backspace) => (WizView { disc: pop_last(w.disc), ..w }, false),
        (WizStep::Discord, Key::Enter) => (WizView { done: true, ..w }, false),
        (WizStep::Discord, Key::Esc) => (WizView { done: true, ..w }, false),
        _ => (w, false),
    }
}

/// The models offered when the server cannot be reached.
pub open spec fn default_models() -> Seq<Seq<char>> {
    seq!["llama3.2"@, "llama3"@, "mistral"@, "deepseek-r1:7b"@]
}

fn push_to(s: &String, c: char) -> (r: String)
    ensures
        r@ == s@.push(c),
{
    let mut v = chars_of(s.as_str());
    v.push(c);
    string_of(&v)
}

fn pop_from(s: &String) -> (r: String)
    ensures
        r@ == pop_last(s@),
{
    let mut v = chars_of(s.as_str());
    if v.len() > 0 {
        v.pop();
        assert(v@ =~= s@.drop_last());
    }
    string_of(&v)
}

impl Wizard {
    /// A wizard at its first step.
    pub fn new() -> (w: Self)
        ensures
            wiz_view(w) == (WizView {
                step: WizStep::Url,
                url: seq![],
                tg: seq![],
                disc: seq![],
                models: seq![],
                selected: None,
                status: "Enter Ollama URL then press Enter"@,
                done: false,
            }),
    {
        let w = Wizard {
            step: WizStep::Url,
            url: String::new(),
            tg: String::new(),
            disc: String::new(),
            models: Vec::new(),
            selected: None,
            status: owned("Enter Ollama URL then press Enter"),
            done: false,
        };
        assert(strs_view(w.models@) =~= Seq::<Seq<char>>::empty());
        w
    }

    /// The number (1 to 4) of the current step.
    pub fn step_number(&self) -> (n: usize)
        ensures
            n == match self.step {
                WizStep::Url => 1usize,
                WizStep::Model => 2,
                WizStep::Tg => 3,
                WizStep::Discord => 4,
            },
    {
        match self.step {
            WizStep::Url => 1,
            WizStep::Model => 2,
            WizStep::Tg => 3,
            WizStep::Discord => 4,
        }
    }

    /// A key in the wizard: typing edits the field of the step, Enter moves
    /// on (after the URL, once the model list is fetched), Esc skips a token or
    /// ends the wizard.
    pub fn on_key(&mut self, key: Key) -> (act: WizardAction)
        requires
            old(self).step == WizStep::Model && key == Key::Down ==> (old(self).selected matches Some(
                i,
            ) ==> i < usize::MAX),
        ensures
            (wiz_view(*final(self)), act is FetchModels) == spec_wizard_key(wiz_view(*old(self)), key),
    {
        match (self.step, key) {
            (WizStep::Url, Key::Char(c)) => {
                self.url = push_to(&self.url, c);
                WizardAction::Stay
            },
            (WizStep::Url, Key::Backspace) => {
                self.url = pop_from(&self.url);
                WizardAction::Stay
            },
            (WizStep::Url, Key::Esc) => {
                self.done = true;
                WizardAction::Stay
            },
            (WizStep::Url, Key::Enter) => {
                if self.url.as_str().is_empty() {
                    self.url = owned("http://localhost:11434");
                }
                WizardAction::FetchModels
            },
            (WizStep::Model, Key::Up) => {
                let i = match self.selected {
                    Some(i) => i,
                    None => 0,
                };
                self.selected = Some(
                    if i > 0 {
                        i - 1
                    } else {
                        0
                    },
                );
                WizardAction::Stay
            },
            (WizStep::Model, Key::Down) => {
                let i = match self.selected {
                    Some(i) => i,
                    None => 0,
                };
                if i + 1 < self.models.len() {
                    self.selected = Some(i + 1);
                }
                WizardAction::Stay
            },
            (WizStep::Model, Key::Enter) => {
                self.step = WizStep::Tg;
                WizardAction::Stay
            },
            (WizStep::Model, Key::Esc) => {
                self.done = true;
                WizardAction::Stay
            },
            (WizStep::Tg, Key::Char(c)) => {
                self.tg = push_to(&self.tg, c);
                WizardAction::Stay
            },
            (WizStep::Tg, Key::Backspace) => {
                self.tg = pop_from(&self.tg);
                WizardAction::Stay
            },
            (WizStep::Tg, Key::Enter) | (WizStep::Tg, Key::Esc) => {
                self.step = WizStep::Discord;
                WizardAction::Stay
            },
            (WizStep::Discord, Key::Char(c)) => {
                self.disc = push_to(&self.disc, c);
                WizardAction::Stay
            },
            (WizStep::Discord, Key::Backspace) => {
                self.disc = pop_from(&self.disc);
                WizardAction::Stay
            },
            (WizStep::Discord, Key::Enter) | (WizStep::Discord, Key::Esc) => {
                self.done = true;
                WizardAction::Stay
            },
            _ => WizardAction::Stay,
        }
    }

    /// Takes the model list fetched from the server: when it is empty the
    /// default models are offered instead; the first entry is selected and
    /// the wizard moves to the model step.
    #[verifier::rlimit(30)]
    pub fn models_arrived(&mut self, found: Vec<String>)
        ensures
            final(self).step == WizStep::Model,
            final(self).selected == Some(0usize),
            final(self).url == old(self).url,
            final(self).tg == old(self).tg,
            final(self).disc == old(self).disc,
            final(self).done == old(self).done,
            found.len() == 0 ==> strs_view(final(self).models@) == default_models()
                && final(self).status@ == "⚠ Unreachable — pick a default"@,
            found.len() > 0 ==> strs_view(final(self).models@) == strs_view(found@)
                && final(self).status@ == "✓ "@ + cli::digits(found.len() as nat) + " model(s) found"@,
    {
        if found.len() == 0 {
            let mut m: Vec<String> = Vec::new();
            m.push(owned("llama3.2"));
            m.push(owned("llama3"));
            m.push(owned("mistral"));
            m.push(owned("deepseek-r1:7b"));
            assert(strs_view(m@) =~= default_models());
            self.models = m;
            self.status = owned("⚠ Unreachable — pick a default");
        } else {
            let n = found.len() as u64;
            let ds = cli::u64_to_digits(n);
            let st = concat_chars(&str_then("✓ ", &ds), &chars_of(" model(s) found"));
            self.models = found;
            self.status = string_of(&st);
        }
        self.selected = Some(0);
        self.step = WizStep::Model;
    }

    /// The settings chosen: the URL and the selected model (or "llama3.2"),
    /// and the two tokens.
    pub fn result(&self) -> (r: (AppConfig, Secrets))
        ensures
            r.0.ollama_base@ == self.url@,
            r.0.model_name@ == (match self.selected {
                Some(i) => if i < self.models.len() {
                    self.models@[i as int]@
                } else {
                    "llama3.2"@
                },
                None => "llama3.2"@,
            }),
            r.1.telegram_token@ == self.tg@,
            r.1.discord_token@ == self.disc@,
    {
        let model = match self.selected {
            Some(i) => if i < self.models.len() {
                self.models[i].clone()
            } else {
                owned("llama3.2")
            },
            None => owned("llama3.2"),
        };
        (
            AppConfig { ollama_base: self.url.clone(), model_name: model },
            Secrets { telegram_token: self.tg.clone(), discord_token: self.disc.clone() },
        )
    }
}

} // verus!
