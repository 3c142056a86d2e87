//! The decisions behind the command-line subcommands: reading back pairing
//! summaries, choosing list filters, parsing PID files and writing the
//! systemd unit.
use vstd::prelude::*;
use crate::bot::{self, BotEvent};
use crate::records::{PendingUser, SessionView};
use crate::text;
use crate::text::{chars_of, concat_chars, string_of, str_then, sub_chars};

verus! {

/// The fields of a pairing summary: name, email, tech stack, role.
pub struct PairingDetails {
    pub name: String,
    pub email: String,
    pub tech: String,
    pub role: String,
}

/// Pairing details over character sequences: (name, email, tech, role).
pub type DetailsV = (Seq<char>, Seq<char>, Seq<char>, Seq<char>);

impl View for PairingDetails {
    type V = DetailsV;

    open spec fn view(&self) -> DetailsV {
        (self.name@, self.email@, self.tech@, self.role@)
    }
}

/// The separator between the fields of a pairing summary.
pub open spec fn field_sep() -> Seq<char> {
    seq![' ', '|', ' ']
}

/// One `key=value` part applied to the details read so far: a part without
/// `=` or with another key changes nothing.
pub open spec fn apply_part(d: DetailsV, part: Seq<char>) -> DetailsV {
    match text::find(part, seq!['=']) {
        None => d,
        Some(k) => {
            let key = part.take(k);
            let v = part.skip(k + 1);
            if key == "name"@ {
                (v, d.1, d.2, d.3)
            } else if key == "email"@ {
                (d.0, v, d.2, d.3)
            } else if key == "tech"@ {
                (d.0, d.1, v, d.3)
            } else if key == "role"@ {
                (d.0, d.1, d.2, v)
            } else {
                d
            }
        },
    }
}

/// The parts applied in order, starting from `d`.
pub open spec fn apply_parts(d: DetailsV, parts: Seq<Seq<char>>) -> DetailsV
    decreases parts.len(),
{
    if parts.len() == 0 {
        d
    } else {
        apply_part(apply_parts(d, parts.drop_last()), parts.last())
    }
}

/// The details read from a summary "name=X | email=Y | tech=Z | role=W":
/// missing fields are empty, a missing role is "Employee".
pub open spec fn spec_parse_pairing_text(text: Seq<char>) -> DetailsV {
    apply_parts((seq![], seq![], seq![], "Employee"@), text::split(text, field_sep()))
}

/// What the server does with a bot event.
pub enum ServerAction {
    /// Store a completed Telegram onboarding as a pairing request.
    AddPendingFull {
        username: String,
        details: PairingDetails,
        channel: String,
        channel_user_id: String,
    },
    /// Store a Discord pairing request.
    AddPending { username: String, channel: String, channel_user_id: String },
    /// Only log the message.
    Log(String),
}

/// The decimal digits of `n`.
pub open spec fn digits(n: nat) -> Seq<char>
    decreases n,
{
    if n < 10 {
        seq![digit_char(n)]
    } else {
        digits(n / 10).push(digit_char(n % 10))
    }
}

/// The character of the digit `d`.
pub open spec fn digit_char(d: nat) -> char {
    if d == 0 { '0' } else if d == 1 { '1' } else if d == 2 { '2' } else if d == 3 { '3' }
    else if d == 4 { '4' } else if d == 5 { '5' } else if d == 6 { '6' } else if d == 7 { '7' }
    else if d == 8 { '8' } else { '9' }
}

/// The decimal text of `i` (`i64::to_string`).
pub open spec fn decimal(i: int) -> Seq<char> {
    if i < 0 {
        seq!['-'] + digits((-i) as nat)
    } else {
        digits(i as nat)
    }
}

/// `c` is an ASCII digit.
pub open spec fn is_digit(c: char) -> bool {
    '0' <= c && c <= '9'
}

/// The value of a sequence of decimal digits.
pub open spec fn digits_value(ds: Seq<char>) -> int
    decreases ds.len(),
{
    if ds.len() == 0 {
        0
    } else {
        digits_value(ds.drop_last()) * 10 + (ds.last() as int - '0' as int)
    }
}

/// A `u32` written as decimal digits: at least one digit, nothing else, and
/// a value that fits.
pub open spec fn spec_digits_u32(ds: Seq<char>) -> Option<u32> {
    if ds.len() == 0 || (exists|i: int| 0 <= i < ds.len() && !is_digit(ds[i])) || digits_value(ds)
        > u32::MAX {
        None
    } else {
        Some(digits_value(ds) as u32)
    }
}

/// `str::parse::<u32>`: an optional `+`, then a `u32` in decimal digits.
pub open spec fn spec_parse_u32(s: Seq<char>) -> Option<u32> {
    if s.len() > 0 && s[0] == '+' {
        spec_digits_u32(s.drop_first())
    } else {
        spec_digits_u32(s)
    }
}

/// The systemd unit that runs `exe` as the server from `cwd`.
pub open spec fn spec_systemd_unit(exe: Seq<char>, cwd: Seq<char>) -> Seq<char> {
    "[Unit]\nDescription=Omniscientia Background Bot Server\nAfter=network.target\n\n[Service]\nType=simple\nExecStart="@
        + exe + " server start\nWorkingDirectory="@ + cwd
        + "\nRestart=on-failure\nRestartSec=5\nStandardOutput=journal\nStandardError=journal\n\n[Install]\nWantedBy=multi-user.target\n"@
}

fn apply_part_exec(d: PairingDetails, part: &[char]) -> (out: PairingDetails)
    ensures
        out@ == apply_part(d@, part@),
{
    let mut eq: Vec<char> = Vec::new();
    eq.push('=');
    assert(eq@ =~= seq!['=']);
    match text::find_from_chars(part, 0, &eq) {
        None => d,
        Some(k) => {
            proof {
                text::lemma_find_from(part@, 0, seq!['=']);
                assert(text::matches_at(part@, k as int, seq!['=']));
            }
            assert(k + 1 <= part.len());
            let key = sub_chars(part, 0, k);
            let v = sub_chars(part, k + 1, part.len());
            assert(key@ =~= part@.take(k as int));
            assert(v@ =~= part@.skip(k + 1));
            let vs = string_of(&v);
            let mut d = d;
            if text::eq_str(&key, "name") {
                d.name = vs;
            } else if text::eq_str(&key, "email") {
                d.email = vs;
            } else if text::eq_str(&key, "tech") {
                d.tech = vs;
            } else if text::eq_str(&key, "role") {
                d.role = vs;
            }
            d
        },
    }
}

/// Reads a pairing summary "name=X | email=Y | tech=Z | role=W" back into its
/// fields; missing fields are empty and a missing role is "Employee".
#[verifier::rlimit(30)]
pub fn parse_pairing_text(text: &str) -> (out: PairingDetails)
    ensures
        out@ == spec_parse_pairing_text(text@),
{
    let s = chars_of(text);
    let mut sep: Vec<char> = Vec::new();
    sep.push(' ');
    sep.push('|');
    sep.push(' ');
    assert(sep@ =~= field_sep());
    let parts = text::split_chars(&s, &sep);
    let ghost pv = text::views(parts@);
    let mut d = PairingDetails {
        name: String::new(),
        email: String::new(),
        tech: String::new(),
        role: string_of(&chars_of("Employee")),
    };
    let ghost d0 = d@;
    let mut i: usize = 0;
    while i < parts.len()
        invariant
            i <= parts.len(),
            pv == text::views(parts@),
            d@ == apply_parts(d0, pv.take(i as int)),
        decreases parts.len() - i,
    {
        assert(pv.take(i + 1).drop_last() =~= pv.take(i as int));
        d = apply_part_exec(d, &parts[i]);
        i = i + 1;
    }
    assert(pv.take(parts.len() as int) =~= pv);
    d
}

/// `x` holds no " | " (the separator between the fields of a summary).
pub open spec fn no_field_sep(x: Seq<char>) -> bool {
    forall|j: int| !text::matches_at(x, j, field_sep())
}

/// `x` ends with " |", so that " | " after it would start one place early.
pub open spec fn ends_with_bar(x: Seq<char>) -> bool {
    text::ends_with(x, seq![' ', '|'])
}

proof fn lemma_split_step(x: Seq<char>, rest: Seq<char>)
    requires
        no_field_sep(x),
        !ends_with_bar(x),
    ensures
        text::split(x + field_sep() + rest, field_sep()) == seq![x] + text::split(rest, field_sep()),
{
    let sep = field_sep();
    let w = x + sep + rest;
    let n = x.len() as int;
    assert(w.subrange(n, n + 3) =~= sep);
    assert forall|j: int| 0 <= j < n implies !text::matches_at(w, j, sep) by {
        if text::matches_at(w, j, sep) {
            assert(w.subrange(j, j + 3)[0] == ' ');
            assert(w.subrange(j, j + 3)[1] == '|');
            assert(w.subrange(j, j + 3)[2] == ' ');
            if j + 3 <= n {
                assert(x.subrange(j, j + 3) =~= w.subrange(j, j + 3));
                assert(text::matches_at(x, j, sep));
            } else if j == n - 1 {
                assert(w[j + 1] == ' ');
            } else {
                assert(j == n - 2);
                assert(x.skip(n - 2) =~= seq![' ', '|']);
            }
        }
    }
    text::lemma_find_first(w, sep, n);
    assert(w.take(n) =~= x);
    assert(w.skip(n + 3) =~= rest);
}

proof fn lemma_split_single(x: Seq<char>)
    requires
        no_field_sep(x),
    ensures
        text::split(x, field_sep()) == seq![x],
{
    let sep = field_sep();
    text::lemma_find_from(x, 0, sep);
}

/// A field written as "key=value" keeps the value's freedom from the
/// separator, and ends with " |" only when the value does.
proof fn lemma_keyed_field(key: Seq<char>, v: Seq<char>)
    requires
        key.len() >= 1,
        forall|i: int| 0 <= i < key.len() ==> key[i] != ' ',
    ensures
        no_field_sep(v) ==> no_field_sep(key + seq!['='] + v),
        !ends_with_bar(v) ==> !ends_with_bar(key + seq!['='] + v),
{
    let k = key + seq!['='];
    let a = k + v;
    assert(key + seq!['='] + v == a);
    let sep = field_sep();
    assert forall|i: int| 0 <= i < k.len() implies k[i] != ' ' by {
        if i < key.len() {
            assert(k[i] == key[i]);
        }
    }
    if no_field_sep(v) {
        assert forall|j: int| !text::matches_at(a, j, sep) by {
            if text::matches_at(a, j, sep) {
                assert(a.subrange(j, j + 3)[0] == ' ');
                assert(a[j] == ' ');
                if j < k.len() {
                    assert(a[j] == k[j]);
                } else {
                    let q = j - k.len();
                    assert(v.subrange(q, q + 3) =~= a.subrange(j, j + 3));
                    assert(text::matches_at(v, q, sep));
                }
            }
        }
    }
    if !ends_with_bar(v) && ends_with_bar(a) {
        let m = a.len() - 2;
        assert(a.skip(m)[0] == ' ');
        assert(a[m] == ' ');
        if m < k.len() {
            assert(a[m] == k[m]);
        } else {
            assert(v.skip(v.len() - 2) =~= a.skip(m));
        }
    }
}

proof fn lemma_key_value(key: Seq<char>, v: Seq<char>)
    requires
        forall|i: int| 0 <= i < key.len() ==> key[i] != '=',
    ensures
        text::find(key + seq!['='] + v, seq!['=']) == Some(key.len() as int),
        (key + seq!['='] + v).take(key.len() as int) == key,
        (key + seq!['='] + v).skip(key.len() as int + 1) == v,
{
    let w = key + seq!['='] + v;
    assert(w.subrange(key.len() as int, key.len() as int + 1) =~= seq!['=']);
    assert forall|j: int| 0 <= j < key.len() implies !text::matches_at(w, j, seq!['=']) by {
        if text::matches_at(w, j, seq!['=']) {
            assert(w.subrange(j, j + 1)[0] == '=');
        }
    }
    text::lemma_find_first(w, seq!['='], key.len() as int);
    assert(w.take(key.len() as int) =~= key);
    assert(w.skip(key.len() as int + 1) =~= v);
}

/// The summary the onboarding bot emits is read back by the server into the
/// very fields the user answered, as long as no answer holds " | " and the
/// name, email and tech stack do not end with " |".
#[verifier::rlimit(30)]
pub proof fn law_pairing_text_round_trip(s: SessionView)
    requires
        no_field_sep(s.real_name),
        no_field_sep(s.email),
        no_field_sep(s.tech_stack),
        no_field_sep(s.role_requested),
        !ends_with_bar(s.real_name),
        !ends_with_bar(s.email),
        !ends_with_bar(s.tech_stack),
    ensures
        spec_parse_pairing_text(bot::spec_pairing_text(s)) == (
            s.real_name,
            s.email,
            s.tech_stack,
            s.role_requested,
        ),
{
    reveal_strlit("name=");
    reveal_strlit(" | email=");
    reveal_strlit(" | tech=");
    reveal_strlit(" | role=");
    reveal_strlit("name");
    reveal_strlit("email");
    reveal_strlit("tech");
    reveal_strlit("role");
    let sep = field_sep();
    let a = "name"@ + seq!['='] + s.real_name;
    let b = "email"@ + seq!['='] + s.email;
    let c = "tech"@ + seq!['='] + s.tech_stack;
    let d = "role"@ + seq!['='] + s.role_requested;
    assert("name="@ =~= "name"@ + seq!['=']);
    assert(" | email="@ =~= sep + "email"@ + seq!['=']);
    assert(" | tech="@ =~= sep + "tech"@ + seq!['=']);
    assert(" | role="@ =~= sep + "role"@ + seq!['=']);
    let w = bot::spec_pairing_text(s);
    assert(w =~= a + sep + (b + sep + (c + sep + d)));
    lemma_keyed_field("name"@, s.real_name);
    lemma_keyed_field("email"@, s.email);
    lemma_keyed_field("tech"@, s.tech_stack);
    lemma_keyed_field("role"@, s.role_requested);
    lemma_split_step(a, b + sep + (c + sep + d));
    lemma_split_step(b, c + sep + d);
    lemma_split_step(c, d);
    lemma_split_single(d);
    let parts = seq![a, b, c, d];
    assert(text::split(w, sep) =~= parts);
    lemma_key_value("name"@, s.real_name);
    lemma_key_value("email"@, s.email);
    lemma_key_value("tech"@, s.tech_stack);
    lemma_key_value("role"@, s.role_requested);
    assert(parts.drop_last() =~= seq![a, b, c]);
    assert(parts.drop_last().drop_last() =~= seq![a, b]);
    assert(parts.drop_last().drop_last().drop_last() =~= seq![a]);
    assert(seq![a].drop_last() =~= Seq::<Seq<char>>::empty());
    assert("email"@ != "name"@);
    assert("tech"@[0] != "name"@[0]);
    assert("tech"@.len() != "email"@.len());
    assert("role"@[0] != "name"@[0]);
    assert("role"@.len() != "email"@.len());
    assert("role"@[0] != "tech"@[0]);
    let d0: DetailsV = (seq![], seq![], seq![], "Employee"@);
    let d1: DetailsV = (s.real_name, seq![], seq![], "Employee"@);
    let d2: DetailsV = (s.real_name, s.email, seq![], "Employee"@);
    let d3: DetailsV = (s.real_name, s.email, s.tech_stack, "Employee"@);
    assert(apply_part(d0, a) == d1);
    assert(apply_part(d1, b) == d2);
    assert(apply_part(d2, c) == d3);
    assert(apply_part(d3, d) == (s.real_name, s.email, s.tech_stack, s.role_requested));
    assert(seq![a].drop_last() =~= Seq::<Seq<char>>::empty());
    assert(seq![a, b].drop_last() =~= seq![a]);
    assert(seq![a, b, c].drop_last() =~= seq![a, b]);
    assert(apply_parts(d0, Seq::<Seq<char>>::empty()) == d0);
    assert(seq![a].last() == a);
    assert(apply_parts(d0, seq![a]) == d1);
    assert(apply_parts(d0, seq![a, b]) == d2);
    assert(apply_parts(d0, seq![a, b, c]) == d3);
}

/// The decimal digits of `n`.
pub fn u64_to_digits(n: u64) -> (r: Vec<char>)
    ensures
        r@ == digits(n as nat),
{
    let mut m = n;
    let mut acc: Vec<char> = Vec::new();
    while m >= 10
        invariant
            digits(n as nat) == digits(m as nat) + acc@,
        decreases m,
    {
        let d = digit((m % 10) as u8);
        acc.insert(0, d);
        assert(digits(m as nat) == digits((m / 10) as nat).push(digit_char((m % 10) as nat)));
        assert(digits((m / 10) as nat) + acc@ =~= digits((m / 10) as nat).push(
            digit_char((m % 10) as nat),
        ) + acc@.drop_first());
        m = m / 10;
    }
    let mut out: Vec<char> = Vec::new();
    out.push(digit(m as u8));
    let out = concat_chars(&out, &acc);
    assert(out@ =~= digits(n as nat));
    out
}

/// The decimal text of `i`.
pub fn i64_to_decimal(i: i64) -> (r: String)
    ensures
        r@ == decimal(i as int),
{
    let mag: u64 = if i < 0 {
        ((-(i + 1)) as u64) + 1
    } else {
        i as u64
    };
    let ds = u64_to_digits(mag);
    if i < 0 {
        let mut out: Vec<char> = Vec::new();
        out.push('-');
        let out = concat_chars(&out, &ds);
        assert(out@ =~= seq!['-'] + digits(mag as nat));
        string_of(&out)
    } else {
        string_of(&ds)
    }
}

fn digit(d: u8) -> (c: char)
    requires
        d < 10,
    ensures
        c == digit_char(d as nat),
{
    if d == 0 { '0' } else if d == 1 { '1' } else if d == 2 { '2' } else if d == 3 { '3' }
    else if d == 4 { '4' } else if d == 5 { '5' } else if d == 6 { '6' } else if d == 7 { '7' }
    else if d == 8 { '8' } else { '9' }
}

proof fn lemma_digits_value_nonneg(ds: Seq<char>)
    requires
        forall|i: int| 0 <= i < ds.len() ==> is_digit(ds[i]),
    ensures
        digits_value(ds) >= 0,
    decreases ds.len(),
{
    if ds.len() > 0 {
        lemma_digits_value_nonneg(ds.drop_last());
    }
}

fn parse_digits(ds: &[char]) -> (r: Option<u32>)
    ensures
        r == spec_digits_u32(ds@),
{
    if ds.len() == 0 {
        return None;
    }
    let mut acc: u64 = 0;
    let mut big = false;
    let mut i: usize = 0;
    assert(ds@.take(0) =~= Seq::<char>::empty());
    while i < ds.len()
        invariant
            i <= ds.len(),
            forall|j: int| 0 <= j < i ==> is_digit(ds@[j]),
            big ==> digits_value(ds@.take(i as int)) > u32::MAX,
            !big ==> acc == digits_value(ds@.take(i as int)) && acc <= u32::MAX,
        decreases ds.len() - i,
    {
        let c = ds[i];
        if !(c >= '0' && c <= '9') {
            assert(!is_digit(ds@[i as int]));
            return None;
        }
        let ghost pre = ds@.take(i as int);
        assert(ds@.take(i + 1).drop_last() =~= pre);
        assert(ds@.take(i + 1).last() == c);
        proof {
            lemma_digits_value_nonneg(pre);
        }
        if !big {
            let d = (c as u32 - '0' as u32) as u64;
            acc = acc * 10 + d;
            if acc > 0xFFFF_FFFF {
                big = true;
            }
        }
        i = i + 1;
    }
    assert(ds@.take(ds.len() as int) =~= ds@);
    if big {
        None
    } else {
        Some(acc as u32)
    }
}

/// Parses a `u32` as `str::parse::<u32>` does.
pub fn parse_u32(s: &[char]) -> (r: Option<u32>)
    ensures
        r == spec_parse_u32(s@),
{
    if s.len() > 0 && s[0] == '+' {
        let ds = sub_chars(s, 1, s.len());
        assert(ds@ =~= s@.drop_first());
        parse_digits(&ds)
    } else {
        parse_digits(s)
    }
}

/// Reads a process id from the text of a PID file (surrounding whitespace
/// allowed).
pub fn parse_pid(text: &str) -> (r: Option<u32>)
    ensures
        r == spec_parse_u32(text::trim(text@)),
{
    let t = text::trim_chars(&chars_of(text));
    parse_u32(&t)
}

/// The systemd unit that runs the server binary `exe` from the directory `cwd`.
pub fn systemd_unit(exe: &str, cwd: &str) -> (r: String)
    ensures
        r@ == spec_systemd_unit(exe@, cwd@),
{
    let a = str_then(
        "[Unit]\nDescription=Omniscientia Background Bot Server\nAfter=network.target\n\n[Service]\nType=simple\nExecStart=",
        &chars_of(exe),
    );
    let b = concat_chars(&a, &str_then(" server start\nWorkingDirectory=", &chars_of(cwd)));
    let c = concat_chars(
        &b,
        &chars_of(
            "\nRestart=on-failure\nRestartSec=5\nStandardOutput=journal\nStandardError=journal\n\n[Install]\nWantedBy=multi-user.target\n",
        ),
    );
    string_of(&c)
}

/// The status that `omni pairing list` filters on for its flag: `--pending`,
/// `--approved` and `--denied` select that status; anything else lists all.
pub open spec fn spec_status_filter(flag: Option<Seq<char>>) -> Option<Seq<char>> {
    match flag {
        Some(f) => if f == "--pending"@ {
            Some("pending"@)
        } else if f == "--approved"@ {
            Some("approved"@)
        } else if f == "--denied"@ {
            Some("denied"@)
        } else {
            None
        },
        None => None,
    }
}

/// The status filter selected by a `pairing list` flag.
pub fn status_filter(flag: Option<&str>) -> (r: Option<String>)
    ensures
        crate::json::opt_view(r) == spec_status_filter(
            match flag {
                Some(f) => Some(f@),
                None => None,
            },
        ),
{
    match flag {
        None => None,
        Some(f) => {
            let fc = chars_of(f);
            if text::eq_str(&fc, "--pending") {
                Some(string_of(&chars_of("pending")))
            } else if text::eq_str(&fc, "--approved") {
                Some(string_of(&chars_of("approved")))
            } else if text::eq_str(&fc, "--denied") {
                Some(string_of(&chars_of("denied")))
            } else {
                None
            }
        },
    }
}

/// The ids of the requests made under `username`, in list order.
pub open spec fn spec_ids_for(users: Seq<PendingUser>, username: Seq<char>) -> Seq<i64>
    decreases users.len(),
{
    if users.len() == 0 {
        seq![]
    } else {
        spec_ids_for(users.drop_last(), username) + if users.last().username@ == username {
            seq![users.last().id]
        } else {
            seq![]
        }
    }
}

/// The ids of the pairing requests of `username`: the ones that
/// `omni pairing approve|deny <username>` updates.
pub fn ids_for_username(users: &[PendingUser], username: &str) -> (r: Vec<i64>)
    ensures
        r@ == spec_ids_for(users@, username@),
{
    let name = chars_of(username);
    let mut out: Vec<i64> = Vec::new();
    let mut i: usize = 0;
    while i < users.len()
        invariant
            i <= users.len(),
            name@ == username@,
            out@ == spec_ids_for(users@.take(i as int), username@),
        decreases users.len() - i,
    {
        assert(users@.take(i + 1).drop_last() =~= users@.take(i as int));
        let ghost before = out@;
        if text::eq_chars(&chars_of(users[i].username.as_str()), &name) {
            out.push(users[i].id);
        }
        assert(out@ =~= spec_ids_for(users@.take(i + 1), username@));
        i = i + 1;
    }
    assert(users@.take(users.len() as int) =~= users@);
    out
}

/// What the server does with a bot event: a finished Telegram onboarding
/// becomes a full pairing request (its summary read back into fields, keyed by
/// the chat id), a Discord pairing becomes a bare request, and information is
/// only logged.
pub fn server_event_action(evt: &BotEvent) -> (r: ServerAction)
    ensures
        match (evt, r) {
            (
                BotEvent::TelegramPairing { chat_id, username, text },
                ServerAction::AddPendingFull { username: u, details, channel, channel_user_id },
            ) => u@ == username@ && details@ == spec_parse_pairing_text(text@) && channel@
                == "telegram"@ && channel_user_id@ == decimal(*chat_id as int),
            (
                BotEvent::DiscordPairing { channel_id, username, text },
                ServerAction::AddPending { username: u, channel, channel_user_id },
            ) => u@ == username@ && channel@ == "discord"@ && channel_user_id@ == channel_id@,
            (BotEvent::Info(m), ServerAction::Log(l)) => l@ == m@,
            _ => false,
        },
{
    match evt {
        BotEvent::TelegramPairing { chat_id, username, text } => ServerAction::AddPendingFull {
            username: username.clone(),
            details: parse_pairing_text(text.as_str()),
            channel: string_of(&chars_of("telegram")),
            channel_user_id: i64_to_decimal(*chat_id),
        },
        BotEvent::DiscordPairing { channel_id, username, text } => ServerAction::AddPending {
            username: username.clone(),
            channel: string_of(&chars_of("discord")),
            channel_user_id: channel_id.clone(),
        },
        BotEvent::Info(m) => ServerAction::Log(m.clone()),
    }
}

/// The decimal digits of `n` are digits and read back as `n`.
pub proof fn lemma_digits_read_back(n: nat)
    ensures
        digits(n).len() > 0,
        forall|i: int| 0 <= i < digits(n).len() ==> is_digit(#[trigger] digits(n)[i]),
        digits_value(digits(n)) == n,
    decreases n,
{
    lemma_digit_char_value(n % 10);
    if n >= 10 {
        lemma_digits_read_back(n / 10);
        let d = digits(n / 10);
        let c = digit_char(n % 10);
        assert(digits(n) == d.push(c));
        assert(d.push(c).drop_last() =~= d);
        assert(forall|i: int| 0 <= i < d.len() ==> d.push(c)[i] == d[i]);
        assert(digits_value(d.push(c)) == digits_value(d) * 10 + (c as int - '0' as int));
        assert((n / 10) * 10 + n % 10 == n) by (nonlinear_arith);
        assert(digits_value(digits(n)) == (n / 10) * 10 + n % 10);
    } else {
        assert(n % 10 == n);
        assert(digits(n) == seq![digit_char(n)]);
        assert(seq![digit_char(n)].drop_last() =~= Seq::<char>::empty());
        assert(digits_value(Seq::<char>::empty()) == 0);
        assert(digits_value(seq![digit_char(n)]) == digits_value(Seq::<char>::empty()) * 10 + (
        digit_char(n) as int - '0' as int));
    }
}

/// A digit's character stands `d` places after `0`.
proof fn lemma_digit_char_value(d: nat)
    requires
        d < 10,
    ensures
        digit_char(d) as int == '0' as int + d,
        is_digit(digit_char(d)),
{
}

/// The process id the server writes to its PID file (its decimal text) is
/// the one the `stop` and `status` subcommands read back.
pub proof fn law_pid_round_trip(n: u32)
    ensures
        spec_parse_u32(text::trim(digits(n as nat))) == Some(n),
{
    let ds = digits(n as nat);
    lemma_digits_read_back(n as nat);
    assert(is_digit(ds[0]));
    assert(is_digit(ds.last()));
    assert(text::trim_start(ds) == ds);
    assert(text::trim_end(ds) == ds);
    assert(ds[0] != '+');
}

/// `id` is the id of a request made under `name`.
pub open spec fn is_id_of(users: Seq<PendingUser>, name: Seq<char>, id: i64) -> bool {
    exists|j: int| 0 <= j < users.len() && users[j].username@ == name && users[j].id == id
}

/// `omni pairing approve|deny <user>` targets every request made under that
/// user name, whatever its status, and nothing else, in list order.
pub proof fn law_ids_for_username(users: Seq<PendingUser>, name: Seq<char>)
    ensures
        forall|j: int|
            0 <= j < users.len() && #[trigger] users[j].username@ == name ==> spec_ids_for(
                users,
                name,
            ).contains(users[j].id),
        forall|k: int|
            0 <= k < spec_ids_for(users, name).len() ==> is_id_of(
                users,
                name,
                #[trigger] spec_ids_for(users, name)[k],
            ),
        spec_ids_for(users, name).len() <= users.len(),
    decreases users.len(),
{
    if users.len() > 0 {
        let rest = users.drop_last();
        law_ids_for_username(rest, name);
        let r = spec_ids_for(users, name);
        let rr = spec_ids_for(rest, name);
        assert forall|j: int| 0 <= j < users.len() && #[trigger] users[j].username@ == name implies r.contains(
            users[j].id,
        ) by {
            if j < users.len() - 1 {
                assert(rest[j] == users[j]);
                let q = choose|q: int| 0 <= q < rr.len() && rr[q] == rest[j].id;
                assert(r[q] == users[j].id);
            } else {
                assert(r[r.len() - 1] == users[j].id);
            }
        }
        assert forall|k: int| 0 <= k < r.len() implies is_id_of(users, name, #[trigger] r[k]) by {
            if k < rr.len() {
                assert(r[k] == rr[k]);
                assert(is_id_of(rest, name, rr[k]));
                let j = choose|j: int| 0 <= j < rest.len() && rest[j].username@ == name && rest[j].id == rr[k];
                assert(users[j] == rest[j]);
            } else {
                let j = users.len() - 1;
                assert(users[j].username@ == name && users[j].id == r[k]);
            }
        }
    } else {
        assert(spec_ids_for(users, name).len() == 0);
    }
}

} // verus!
