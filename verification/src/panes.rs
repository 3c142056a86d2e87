//! The text the screens show: menu entries, the pairing tables, the titles of
//! the chat panes and the lines of the configuration wizard. Colours and
//! layout are the terminal front end's business; what each line says is
//! decided here.
use vstd::prelude::*;
use crate::cli::{decimal, digits, i64_to_decimal, u64_to_digits};
use crate::edit;
use crate::records::PendingUser;
use crate::text;
use crate::text::{chars_of, concat_chars, string_of, str_then};
use crate::tui::{strs_view, WizStep, Wizard};

verus! {

/// `s` padded with spaces on the right to `w` characters, as `{:<w}` formats
/// a string.
pub open spec fn pad(s: Seq<char>, w: nat) -> Seq<char> {
    if s.len() < w {
        s + Seq::new((w - s.len()) as nat, |_i: int| ' ')
    } else {
        s
    }
}

/// Pads `s` with spaces to `w` characters.
pub fn pad_chars(s: &[char], w: usize) -> (out: Vec<char>)
    ensures
        out@ == pad(s@, w as nat),
{
    let mut out: Vec<char> = Vec::new();
    let mut i: usize = 0;
    while i < s.len()
        invariant
            i <= s.len(),
            out@ == s@.take(i as int),
        decreases s.len() - i,
    {
        out.push(s[i]);
        assert(out@ =~= s@.take(i + 1));
        i = i + 1;
    }
    assert(s@.take(s.len() as int) =~= s@);
    if s.len() < w {
        let mut k: usize = s.len();
        while k < w
            invariant
                s.len() <= k <= w,
                out@ == s@ + Seq::new((k - s.len()) as nat, |_i: int| ' '),
            decreases w - k,
        {
            out.push(' ');
            assert(out@ =~= s@ + Seq::new((k + 1 - s.len()) as nat, |_i: int| ' '));
            k = k + 1;
        }
    }
    out
}

/// The four columns of a pairing listing: id, user name, channel and status,
/// padded to 4, 20, 10 and 10 characters and separated by single spaces.
pub open spec fn columns(a: Seq<char>, b: Seq<char>, c: Seq<char>, d: Seq<char>) -> Seq<char> {
    pad(a, 4) + " "@ + pad(b, 20) + " "@ + pad(c, 10) + " "@ + pad(d, 10)
}

fn columns_exec(a: &[char], b: &[char], c: &[char], d: &[char]) -> (out: Vec<char>)
    ensures
        out@ == columns(a@, b@, c@, d@),
{
    let sp = chars_of(" ");
    let out = concat_chars(&pad_chars(a, 4), &sp);
    let out = concat_chars(&out, &pad_chars(b, 20));
    let out = concat_chars(&out, &sp);
    let out = concat_chars(&out, &pad_chars(c, 10));
    let out = concat_chars(&out, &sp);
    concat_chars(&out, &pad_chars(d, 10))
}

/// The heading of the pairing screen's table.
pub fn pairing_screen_header() -> (r: String)
    ensures
        r@ == "  "@ + columns("ID"@, "Username"@, "Channel"@, "Status"@),
{
    let cols = columns_exec(
        &chars_of("ID"),
        &chars_of("Username"),
        &chars_of("Channel"),
        &chars_of("Status"),
    );
    string_of(&str_then("  ", &cols))
}

/// The row of the pairing screen's table for the request `u`.
pub fn pairing_screen_row(u: &PendingUser) -> (r: String)
    ensures
        r@ == "  "@ + columns(decimal(u.id as int), u.username@, u.channel@, u.status@),
{
    let id = i64_to_decimal(u.id);
    let cols = columns_exec(
        &chars_of(id.as_str()),
        &chars_of(u.username.as_str()),
        &chars_of(u.channel.as_str()),
        &chars_of(u.status.as_str()),
    );
    string_of(&str_then("  ", &cols))
}

/// The number of requests in `list` whose status is "pending".
pub open spec fn spec_pending_count(list: Seq<PendingUser>) -> nat
    decreases list.len(),
{
    if list.len() == 0 {
        0
    } else {
        spec_pending_count(list.drop_last()) + if list.last().status@ == "pending"@ {
            1nat
        } else {
            0
        }
    }
}

/// Counts the pending requests of `list`.
pub fn pending_count(list: &[PendingUser]) -> (n: usize)
    ensures
        n == spec_pending_count(list@),
{
    let mut n: usize = 0;
    let mut i: usize = 0;
    while i < list.len()
        invariant
            i <= list.len(),
            n == spec_pending_count(list@.take(i as int)),
            n <= i,
        decreases list.len() - i,
    {
        assert(list@.take(i + 1).drop_last() =~= list@.take(i as int));
        if text::eq_str(&chars_of(list[i].status.as_str()), "pending") {
            n = n + 1;
        }
        i = i + 1;
    }
    assert(list@.take(list.len() as int) =~= list@);
    n
}

/// The title of the pairing screen, with the number of pending requests.
pub fn pairing_screen_title(list: &[PendingUser]) -> (r: String)
    ensures
        r@ == " Pairing Requests  ("@ + digits(spec_pending_count(list@)) + " pending) "@,
{
    let n = pending_count(list);
    let out = concat_chars(&str_then(" Pairing Requests  (", &u64_to_digits(n as u64)), &chars_of(" pending) "));
    string_of(&out)
}

/// The heading of the pairing listing printed on the command line.
pub fn pairing_table_header() -> (r: String)
    ensures
        r@ == columns("ID"@, "Username"@, "Channel"@, "Status"@) + " "@ + pad("Created"@, 20),
{
    let cols = columns_exec(
        &chars_of("ID"),
        &chars_of("Username"),
        &chars_of("Channel"),
        &chars_of("Status"),
    );
    let out = concat_chars(&concat_chars(&cols, &chars_of(" ")), &pad_chars(&chars_of("Created"), 20));
    string_of(&out)
}

/// The byte offset at which the creation time is cut: its first 19 bytes.
pub open spec fn created_cut(created: Seq<char>) -> int {
    if edit::byte_len(created) < 19 {
        edit::byte_len(created) as int
    } else {
        19
    }
}

/// The row of the command line's pairing listing for `u`: its columns and the
/// first 19 bytes of its creation time (which must not cut a character).
#[verifier::rlimit(30)]
pub fn pairing_table_row(u: &PendingUser) -> (r: String)
    requires
        edit::is_boundary(u.created_at@, created_cut(u.created_at@)),
    ensures
        r@ == columns(decimal(u.id as int), u.username@, u.channel@, u.status@) + " "@ + pad(
            u.created_at@.take(edit::char_pos(u.created_at@, created_cut(u.created_at@))),
            20,
        ),
{
    let id = i64_to_decimal(u.id);
    let cols = columns_exec(
        &chars_of(id.as_str()),
        &chars_of(u.username.as_str()),
        &chars_of(u.channel.as_str()),
        &chars_of(u.status.as_str()),
    );
    let cc = chars_of(u.created_at.as_str());
    let k = match edit::pos_of_byte(&cc, 19) {
        Some(k) => {
            proof {
                edit::lemma_take_all(cc@);
                if k < cc.len() {
                    edit::lemma_byte_len_prefix(cc@, k as int, cc@.len() as int);
                }
            }
            k
        },
        None => cc.len(),
    };
    proof {
        edit::lemma_take_all(cc@);
        edit::lemma_char_pos(cc@, cc@.len() as int);
    }
    assert(k == edit::char_pos(u.created_at@, created_cut(u.created_at@)));
    let shown = text::sub_chars(&cc, 0, k);
    assert(shown@ =~= u.created_at@.take(k as int));
    let out = concat_chars(&concat_chars(&cols, &chars_of(" ")), &pad_chars(&shown, 20));
    string_of(&out)
}

/// The entries of the home menu: label and description.
pub open spec fn home_items() -> Seq<(Seq<char>, Seq<char>)> {
    seq![
        ("[>] Chat"@, "Start or continue the admin chat"@),
        ("[*] Config"@, "Edit model, URL and API tokens"@),
        ("[@] Pairing"@, "Onboard users from Telegram / Discord"@),
        ("[/] Dev"@, "Database viewer and user records"@),
    ]
}

/// The entries of the developer menu, whose third entry starts or stops the
/// background server.
pub open spec fn dev_items(running: bool) -> Seq<(Seq<char>, Seq<char>)> {
    seq![
        ("[D] Database Viewer"@, "Browse all SQLite tables visually"@),
        ("[U] User Records"@, "View users registered via channels"@),
        (if running {
            "[S] Stop Server"@
        } else {
            "[S] Start Server"@
        }, "Toggle the background bot server"@),
        ("[<] Back"@, "Return to the main menu"@),
    ]
}

/// A menu entry as shown: the label marked ">>" when selected and padded to
/// `width`, and the description after two spaces.
pub open spec fn menu_line(item: (Seq<char>, Seq<char>), active: bool, width: nat) -> (Seq<char>, Seq<char>) {
    ((if active {
        " >> "@
    } else {
        "    "@
    }) + pad(item.0, width), "  "@ + item.1)
}

/// The entries of a menu as shown, the one at `sel` selected.
pub open spec fn menu_lines(items: Seq<(Seq<char>, Seq<char>)>, sel: usize, width: nat) -> Seq<(Seq<char>, Seq<char>, bool)> {
    Seq::new(
        items.len(),
        |i: int|
            {
                let l = menu_line(items[i], i == sel, width);
                (l.0, l.1, i == sel)
            },
    )
}

/// A shown menu over characters.
pub open spec fn shown_view(v: Seq<(String, String, bool)>) -> Seq<(Seq<char>, Seq<char>, bool)> {
    v.map_values(|e: (String, String, bool)| (e.0@, e.1@, e.2))
}

#[verifier::rlimit(30)]
fn show_menu(items: &Vec<(Vec<char>, Vec<char>)>, sel: usize, width: usize) -> (out: Vec<(String, String, bool)>)
    ensures
        shown_view(out@) == menu_lines(
            items@.map_values(|e: (Vec<char>, Vec<char>)| (e.0@, e.1@)),
            sel,
            width as nat,
        ),
{
    let ghost iv = items@.map_values(|e: (Vec<char>, Vec<char>)| (e.0@, e.1@));
    let mut out: Vec<(String, String, bool)> = Vec::new();
    let mut i: usize = 0;
    while i < items.len()
        invariant
            i <= items.len(),
            iv == items@.map_values(|e: (Vec<char>, Vec<char>)| (e.0@, e.1@)),
            shown_view(out@) == menu_lines(iv, sel, width as nat).take(i as int),
        decreases items.len() - i,
    {
        let active = i == sel;
        let mark = if active {
            chars_of(" >> ")
        } else {
            chars_of("    ")
        };
        let label = concat_chars(&mark, &pad_chars(&items[i].0, width));
        let desc = str_then("  ", &items[i].1);
        let ghost before = shown_view(out@);
        out.push((string_of(&label), string_of(&desc), active));
        assert(shown_view(out@) =~= before.push((label@, desc@, active)));
        assert(menu_lines(iv, sel, width as nat).take(i + 1) =~= menu_lines(iv, sel, width as nat).take(
            i as int,
        ).push(menu_lines(iv, sel, width as nat)[i as int]));
        i = i + 1;
    }
    assert(menu_lines(iv, sel, width as nat).take(items.len() as int) =~= menu_lines(
        iv,
        sel,
        width as nat,
    ));
    out
}

fn item(label: &str, desc: &str) -> (r: (Vec<char>, Vec<char>))
    ensures
        r.0@ == label@,
        r.1@ == desc@,
{
    (chars_of(label), chars_of(desc))
}

/// The home menu as shown, the entry `sel` selected.
pub fn home_menu(sel: usize) -> (out: Vec<(String, String, bool)>)
    ensures
        shown_view(out@) == menu_lines(home_items(), sel, 20),
{
    let mut items: Vec<(Vec<char>, Vec<char>)> = Vec::new();
    items.push(item("[>] Chat", "Start or continue the admin chat"));
    items.push(item("[*] Config", "Edit model, URL and API tokens"));
    items.push(item("[@] Pairing", "Onboard users from Telegram / Discord"));
    items.push(item("[/] Dev", "Database viewer and user records"));
    assert(items@.map_values(|e: (Vec<char>, Vec<char>)| (e.0@, e.1@)) =~= home_items());
    show_menu(&items, sel, 20)
}

/// The developer menu as shown, the entry `sel` selected, for a server that
/// runs or not.
pub fn dev_menu(sel: usize, server_running: bool) -> (out: Vec<(String, String, bool)>)
    ensures
        shown_view(out@) == menu_lines(dev_items(server_running), sel, 24),
{
    let mut items: Vec<(Vec<char>, Vec<char>)> = Vec::new();
    items.push(item("[D] Database Viewer", "Browse all SQLite tables visually"));
    items.push(item("[U] User Records", "View users registered via channels"));
    let srv = if server_running {
        "[S] Stop Server"
    } else {
        "[S] Start Server"
    };
    items.push(item(srv, "Toggle the background bot server"));
    items.push(item("[<] Back", "Return to the main menu"));
    assert(items@.map_values(|e: (Vec<char>, Vec<char>)| (e.0@, e.1@)) =~= dev_items(server_running));
    show_menu(&items, sel, 24)
}

/// The badge of the developer menu that tells whether the server runs.
pub fn server_badge(running: bool) -> (r: String)
    ensures
        r@ == (if running {
            " [SERVER: RUNNING] "@
        } else {
            " [SERVER: STOPPED] "@
        }),
{
    if running {
        string_of(&chars_of(" [SERVER: RUNNING] "))
    } else {
        string_of(&chars_of(" [SERVER: STOPPED] "))
    }
}

/// The status bar of the chat: user, model and the time of day.
pub fn status_bar(alias: &str, model: &str, now: &str) -> (r: String)
    ensures
        r@ == " ◈ Omniscientia  │  "@ + alias@ + "  │  "@ + model@ + "  │  "@ + now@ + " "@,
{
    let out = str_then(" ◈ Omniscientia  │  ", &chars_of(alias));
    let out = concat_chars(&out, &str_then("  │  ", &chars_of(model)));
    let out = concat_chars(&out, &str_then("  │  ", &chars_of(now)));
    let out = concat_chars(&out, &chars_of(" "));
    string_of(&out)
}

/// The title of the chat pane: how far it is scrolled back, else whether a
/// reply is awaited.
pub fn chat_title(scroll: usize, waiting: bool) -> (r: String)
    ensures
        r@ == (if scroll > 0 {
            " ↑ scrolled "@ + digits(scroll as nat) + "  |  ↓/PgDn to return "@
        } else if waiting {
            " ⟳ Thinking… "@
        } else {
            " Chat  —  Esc for menu "@
        }),
{
    if scroll > 0 {
        let out = concat_chars(
            &str_then(" ↑ scrolled ", &u64_to_digits(scroll as u64)),
            &chars_of("  |  ↓/PgDn to return "),
        );
        string_of(&out)
    } else if waiting {
        string_of(&chars_of(" ⟳ Thinking… "))
    } else {
        string_of(&chars_of(" Chat  —  Esc for menu "))
    }
}

/// The title of the input box: a wait notice, else the input's length in
/// bytes.
pub fn input_title(waiting: bool, input: &str) -> (r: String)
    ensures
        r@ == (if waiting {
            " ⟳ Please wait… "@
        } else {
            " › message  /command  @mention  ["@ + digits(input.len() as nat) + " chars] "@
        }),
{
    if waiting {
        string_of(&chars_of(" ⟳ Please wait… "))
    } else {
        let n = input.len();
        let out = concat_chars(
            &str_then(" › message  /command  @mention  [", &u64_to_digits(n as u64)),
            &chars_of(" chars] "),
        );
        string_of(&out)
    }
}

/// A field of the wizard: marked when it is the step's, its value or a dash.
pub open spec fn spec_wiz_field(label: Seq<char>, value: Seq<char>, active: bool) -> Seq<char> {
    (if active {
        "▶ "@
    } else {
        "  "@
    }) + label + ": "@ + (if value.len() == 0 {
        "—"@
    } else {
        value
    })
}

/// A field of the wizard as shown.
pub fn wiz_field(label: &str, value: &str, active: bool) -> (r: String)
    ensures
        r@ == spec_wiz_field(label@, value@, active),
{
    let pfx = if active {
        chars_of("▶ ")
    } else {
        chars_of("  ")
    };
    let v = chars_of(value);
    let disp = if v.len() == 0 {
        chars_of("—")
    } else {
        v
    };
    let out = concat_chars(&concat_chars(&concat_chars(&pfx, &chars_of(label)), &chars_of(": ")), &disp);
    string_of(&out)
}

/// The number of a wizard step.
pub open spec fn step_num(s: WizStep) -> int {
    match s {
        WizStep::Url => 1,
        WizStep::Model => 2,
        WizStep::Tg => 3,
        WizStep::Discord => 4,
    }
}

/// The hint line of the wizard for its step.
pub open spec fn spec_wizard_hint(s: WizStep) -> Seq<char> {
    " Step "@ + digits(step_num(s) as nat) + "/4 — "@ + match s {
        WizStep::Url => "Ollama base URL"@,
        WizStep::Model => "Pick model"@,
        WizStep::Tg => "Telegram token (saved to .env)"@,
        WizStep::Discord => "Discord token (saved to .env)"@,
    } + "  |  ↑↓ models  |  Enter  |  Esc skip"@
}

/// The hint line of the wizard.
pub fn wizard_hint(w: &Wizard) -> (r: String)
    ensures
        r@ == spec_wizard_hint(w.step),
{
    let n = w.step_number();
    let what = match w.step {
        WizStep::Url => "Ollama base URL",
        WizStep::Model => "Pick model",
        WizStep::Tg => "Telegram token (saved to .env)",
        WizStep::Discord => "Discord token (saved to .env)",
    };
    let out = concat_chars(&str_then(" Step ", &u64_to_digits(n as u64)), &str_then("/4 — ", &chars_of(what)));
    let out = concat_chars(&out, &chars_of("  |  ↑↓ models  |  Enter  |  Esc skip"));
    string_of(&out)
}

/// The model shown as chosen: from the model step on, the selected one of
/// the list (or nothing).
pub open spec fn shown_model(w: Wizard) -> Seq<char> {
    if step_num(w.step) >= 2 && w.models.len() > 0 {
        match w.selected {
            Some(i) => if i < w.models.len() {
                w.models@[i as int]@
            } else {
                seq![]
            },
            None => seq![],
        }
    } else {
        seq![]
    }
}

/// The lines of the wizard's form: its four fields, a blank line and the
/// prompt of the step (the text being typed, or how to pick a model).
pub open spec fn spec_wizard_lines(w: Wizard) -> Seq<Seq<char>> {
    let s = step_num(w.step);
    seq![
        spec_wiz_field("1. Ollama URL"@, w.url@, s == 1),
        spec_wiz_field("2. AI Model"@, shown_model(w), s == 2),
        spec_wiz_field("3. Telegram Token"@, w.tg@, s == 3),
        spec_wiz_field("4. Discord Token"@, w.disc@, s == 4),
        seq![],
        if s == 2 {
            "↑↓ select  Enter confirm"@
        } else {
            "> "@ + (if s == 1 {
                w.url@
            } else if s == 3 {
                w.tg@
            } else {
                w.disc@
            }) + "_"@
        },
    ]
}

/// The lines of the wizard's form.
#[verifier::rlimit(30)]
pub fn wizard_lines(w: &Wizard) -> (out: Vec<String>)
    ensures
        strs_view(out@) == spec_wizard_lines(*w),
{
    let s = w.step_number();
    let model: String = if s >= 2 && w.models.len() > 0 {
        match w.selected {
            Some(i) => if i < w.models.len() {
                string_of(&chars_of(w.models[i].as_str()))
            } else {
                String::new()
            },
            None => String::new(),
        }
    } else {
        String::new()
    };
    let mut out: Vec<String> = Vec::new();
    out.push(wiz_field("1. Ollama URL", w.url.as_str(), s == 1));
    out.push(wiz_field("2. AI Model", model.as_str(), s == 2));
    out.push(wiz_field("3. Telegram Token", w.tg.as_str(), s == 3));
    out.push(wiz_field("4. Discord Token", w.disc.as_str(), s == 4));
    out.push(String::new());
    let prompt = if s == 2 {
        chars_of("↑↓ select  Enter confirm")
    } else {
        let val = if s == 1 {
            chars_of(w.url.as_str())
        } else if s == 3 {
            chars_of(w.tg.as_str())
        } else {
            chars_of(w.disc.as_str())
        };
        concat_chars(&str_then("> ", &val), &chars_of("_"))
    };
    out.push(string_of(&prompt));
    assert(strs_view(out@) =~= spec_wizard_lines(*w));
    out
}

/// The title of the wizard's model list, with its status.
pub fn wizard_models_title(w: &Wizard) -> (r: String)
    ensures
        r@ == " Models — "@ + w.status@ + " "@,
{
    string_of(&concat_chars(&str_then(" Models — ", &chars_of(w.status.as_str())), &chars_of(" ")))
}

/// The input line as shown: each character of the input, marked when its
/// position equals the cursor, and whether the block cursor is shown after
/// the text (when the cursor is at the input's byte length and no reply is
/// awaited).
pub struct InputLine {
    pub chars: Vec<(char, bool)>,
    pub block_cursor: bool,
}

/// The input line for `input` with the cursor at `cursor`.
pub fn input_line(input: &str, cursor: usize, waiting: bool) -> (r: InputLine)
    ensures
        r.chars@.len() == input@.len(),
        forall|i: int| 0 <= i < input@.len() ==> #[trigger] r.chars@[i] == (input@[i], i == cursor),
        r.block_cursor == (cursor == input.len() && !waiting),
{
    let cs = chars_of(input);
    let mut out: Vec<(char, bool)> = Vec::new();
    let mut i: usize = 0;
    while i < cs.len()
        invariant
            i <= cs.len(),
            cs@ == input@,
            out@.len() == i,
            forall|j: int| 0 <= j < i ==> #[trigger] out@[j] == (input@[j], j == cursor),
        decreases cs.len() - i,
    {
        out.push((cs[i], i == cursor));
        i = i + 1;
    }
    InputLine { chars: out, block_cursor: cursor == input.len() && !waiting }
}

} // verus!
