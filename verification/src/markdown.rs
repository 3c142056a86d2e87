//! Markdown rendering for chat replies: each input line becomes one line of
//! styled spans.
//!
//! Handles `**bold**`, `__bold__`, `*italic*`, `_italic_`, `` `inline code` ``,
//! fenced code blocks, `#` headers, `-` / `*` list items and horizontal rules.
use vstd::prelude::*;
use crate::text;
use crate::text::{chars_of, concat_chars, find_from_chars, string_of, sub_chars};

verus! {

/// The colours a rendered span may carry.
#[derive(Clone, Copy, PartialEq, Eq, Structural, Debug)]
pub enum MdColor {
    DarkGray,
    Yellow,
    Cyan,
    Black,
}

/// The look of a span: colours and text modifiers.
#[derive(Clone, Copy, PartialEq, Eq, Structural, Debug)]
pub struct MdStyle {
    pub fg: Option<MdColor>,
    pub bg: Option<MdColor>,
    pub bold: bool,
    pub italic: bool,
    pub underlined: bool,
}

/// A run of text with one style.
#[derive(Clone, Debug)]
pub struct MdSpan {
    pub text: String,
    pub style: MdStyle,
}

/// One rendered line.
#[derive(Clone, Debug)]
pub struct MdLine {
    pub spans: Vec<MdSpan>,
}

/// A span as text and style.
pub type SpanV = (Seq<char>, MdStyle);

impl View for MdSpan {
    type V = SpanV;

    open spec fn view(&self) -> SpanV {
        (self.text@, self.style)
    }
}

/// The spans of a span vector, as text and style.
pub open spec fn span_views(v: Seq<MdSpan>) -> Seq<SpanV> {
    v.map_values(|s: MdSpan| s@)
}

impl View for MdLine {
    type V = Seq<SpanV>;

    open spec fn view(&self) -> Seq<SpanV> {
        span_views(self.spans@)
    }
}

/// The rendered lines, as span sequences.
pub open spec fn line_views(v: Seq<MdLine>) -> Seq<Seq<SpanV>> {
    v.map_values(|l: MdLine| l@)
}

pub open spec fn style_of(fg: Option<MdColor>, bg: Option<MdColor>, bold: bool, italic: bool, underlined: bool) -> MdStyle {
    MdStyle { fg, bg, bold, italic, underlined }
}

/// Unstyled text.
pub open spec fn plain() -> MdStyle {
    style_of(None, None, false, false, false)
}

/// Rules and fence markers.
pub open spec fn dim() -> MdStyle {
    style_of(Some(MdColor::DarkGray), None, false, false, false)
}

/// Lines inside a code block.
pub open spec fn code_line() -> MdStyle {
    style_of(Some(MdColor::Yellow), None, false, false, false)
}

/// `###` headers.
pub open spec fn header3() -> MdStyle {
    style_of(Some(MdColor::Cyan), None, true, false, false)
}

/// `#` and `##` headers.
pub open spec fn header12() -> MdStyle {
    style_of(Some(MdColor::Cyan), None, true, false, true)
}

/// List bullets.
pub open spec fn bullet() -> MdStyle {
    style_of(Some(MdColor::Cyan), None, false, false, false)
}

/// `**bold**` and `__bold__`.
pub open spec fn strong() -> MdStyle {
    style_of(None, None, true, false, false)
}

/// `*italic*` and `_italic_`.
pub open spec fn emphasis() -> MdStyle {
    style_of(None, None, false, true, false)
}

/// `` `code` ``.
pub open spec fn inline_code() -> MdStyle {
    style_of(Some(MdColor::Black), Some(MdColor::Yellow), false, false, false)
}

/// The pending plain text, as a span when there is any.
pub open spec fn flush(buf: Seq<char>) -> Seq<SpanV> {
    if buf.len() == 0 {
        seq![]
    } else {
        seq![(buf, plain())]
    }
}

/// Inline spans of `s` from position `i`, with `buf` the plain text gathered so far.
pub open spec fn inline_from(s: Seq<char>, i: int, buf: Seq<char>) -> Seq<SpanV>
    decreases s.len() - i,
{
    if i < 0 || i >= s.len() {
        flush(buf)
    } else if i + 1 < s.len() && s[i] == '*' && s[i + 1] == '*' && text::find_from(
        s,
        i + 2,
        seq!['*', '*'],
    ) is Some {
        let end = text::find_from(s, i + 2, seq!['*', '*'])->0;
        proof {
            text::lemma_find_from(s, i + 2, seq!['*', '*']);
        }
        flush(buf) + seq![(s.subrange(i + 2, end), strong())] + inline_from(s, end + 2, seq![])
    } else if i + 1 < s.len() && s[i] == '_' && s[i + 1] == '_' && text::find_from(
        s,
        i + 2,
        seq!['_', '_'],
    ) is Some {
        let end = text::find_from(s, i + 2, seq!['_', '_'])->0;
        proof {
            text::lemma_find_from(s, i + 2, seq!['_', '_']);
        }
        flush(buf) + seq![(s.subrange(i + 2, end), strong())] + inline_from(s, end + 2, seq![])
    } else if (s[i] == '*' || s[i] == '_') && (i == 0 || s[i - 1] == ' ') && text::find_from(
        s,
        i + 1,
        seq![s[i]],
    ) is Some {
        let end = text::find_from(s, i + 1, seq![s[i]])->0;
        proof {
            text::lemma_find_from(s, i + 1, seq![s[i]]);
        }
        flush(buf) + seq![(s.subrange(i + 1, end), emphasis())] + inline_from(s, end + 1, seq![])
    } else if s[i] == '`' && text::find_from(s, i + 1, seq!['`']) is Some {
        let end = text::find_from(s, i + 1, seq!['`'])->0;
        proof {
            text::lemma_find_from(s, i + 1, seq!['`']);
        }
        flush(buf) + seq![(seq![' '] + s.subrange(i + 1, end) + seq![' '], inline_code())]
            + inline_from(s, end + 1, seq![])
    } else {
        inline_from(s, i + 1, buf.push(s[i]))
    }
}

/// The inline spans of `s`.
pub open spec fn spec_parse_inline(s: Seq<char>) -> Seq<SpanV> {
    inline_from(s, 0, seq![])
}

/// The rule that closes a code block.
pub open spec fn close_rule() -> Seq<char> {
    "─────────────────────────────────"@
}

/// A horizontal rule: 48 box-drawing dashes.
pub open spec fn hrule() -> Seq<char> {
    Seq::new(48, |_i: int| '─')
}

/// The marker that opens a code block, with its language label.
pub open spec fn fence_open(label: Seq<char>) -> Seq<char> {
    "▌ "@ + label + " ─────────────────────────────"@
}

/// The rendering of one raw line, and whether a code block is open after it.
pub open spec fn spec_render_line(raw: Seq<char>, in_code: bool) -> (Seq<SpanV>, bool) {
    let ts = text::trim_start(raw);
    if text::starts_with(ts, seq!['`', '`', '`']) {
        if in_code {
            (seq![(close_rule(), dim())], false)
        } else {
            let fence = text::trim(text::trim_start_char(ts, '`'));
            let label = if fence.len() == 0 {
                "code"@
            } else {
                fence
            };
            (seq![(fence_open(label), dim())], true)
        }
    } else if in_code {
        (seq![(seq![' ', ' '] + raw, code_line())], true)
    } else {
        let t = text::trim(raw);
        if t == seq!['-', '-', '-'] || t == seq!['=', '=', '='] || t == seq!['*', '*', '*'] {
            (seq![(hrule(), dim())], false)
        } else if text::starts_with(t, seq!['#', '#', '#', ' ']) {
            (seq![(seq![' ', ' '] + t.skip(4), header3())], false)
        } else if text::starts_with(t, seq!['#', '#', ' ']) {
            (seq![(seq![' ', ' '] + t.skip(3), header12())], false)
        } else if text::starts_with(t, seq!['#', ' ']) {
            (seq![(t.skip(2), header12())], false)
        } else if text::starts_with(t, seq!['-', ' ']) || text::starts_with(t, seq!['*', ' ']) {
            (seq![("  • "@, bullet())] + spec_parse_inline(t.skip(2)), false)
        } else if text::starts_with(t, seq![' ', ' ', '-', ' ']) || text::starts_with(
            t,
            seq![' ', ' ', '*', ' '],
        ) {
            (seq![("    ‣ "@, bullet())] + spec_parse_inline(t.skip(4)), false)
        } else {
            (spec_parse_inline(t), false)
        }
    }
}

/// The rendering of a sequence of raw lines, starting with `in_code` as the
/// code-block state.
pub open spec fn render_lines(ls: Seq<Seq<char>>, in_code: bool) -> Seq<Seq<SpanV>>
    decreases ls.len(),
{
    if ls.len() == 0 {
        seq![]
    } else {
        let (l, st) = spec_render_line(ls[0], in_code);
        seq![l] + render_lines(ls.drop_first(), st)
    }
}

/// The rendering of a whole markdown text.
pub open spec fn spec_render_markdown(input: Seq<char>) -> Seq<Seq<SpanV>> {
    render_lines(text::lines(input), false)
}

/// Rendering yields exactly one line per input line.
pub proof fn lemma_render_lines_len(ls: Seq<Seq<char>>, in_code: bool)
    ensures
        render_lines(ls, in_code).len() == ls.len(),
    decreases ls.len(),
{
    if ls.len() > 0 {
        let (l, st) = spec_render_line(ls[0], in_code);
        lemma_render_lines_len(ls.drop_first(), st);
    }
}

/// The first position at or after `start` where `delim` occurs in `chars`.
pub fn find_closing(chars: &[char], start: usize, delim: &str) -> (r: Option<usize>)
    ensures
        match r {
            Some(k) => text::find_from(chars@, start as int, delim@) == Some(k as int),
            None => text::find_from(chars@, start as int, delim@) is None,
        },
{
    let dc = chars_of(delim);
    find_from_chars(chars, start, &dc)
}

fn span(text: &[char], style: MdStyle) -> (out: MdSpan)
    ensures
        out@ == (text@, style),
{
    MdSpan { text: string_of(text), style }
}

fn style(fg: Option<MdColor>, bg: Option<MdColor>, bold: bool, italic: bool, underlined: bool) -> (out: MdStyle)
    ensures
        out == style_of(fg, bg, bold, italic, underlined),
{
    MdStyle { fg, bg, bold, italic, underlined }
}

/// Parses inline markdown spans: `**bold**`, `__bold__`, `*italic*`, `_italic_`,
/// `` `code` `` and plain text.
#[verifier::rlimit(30)]
pub fn parse_inline(chars: &[char]) -> (spans: Vec<MdSpan>)
    ensures
        span_views(spans@) == spec_parse_inline(chars@),
{
    let ghost s = chars@;
    let mut spans: Vec<MdSpan> = Vec::new();
    let mut buf: Vec<char> = Vec::new();
    let mut i: usize = 0;
    proof {
        reveal_strlit("**");
        reveal_strlit("__");
        reveal_strlit("*");
        reveal_strlit("_");
        reveal_strlit("`");
        assert("**"@ =~= seq!['*', '*']);
        assert("__"@ =~= seq!['_', '_']);
        assert("*"@ =~= seq!['*']);
        assert("_"@ =~= seq!['_']);
        assert("`"@ =~= seq!['`']);
    }
    while i < chars.len()
        invariant
            s == chars@,
            i <= chars.len(),
            "**"@ == seq!['*', '*'],
            "__"@ == seq!['_', '_'],
            "*"@ == seq!['*'],
            "_"@ == seq!['_'],
            "`"@ == seq!['`'],
            span_views(spans@) + inline_from(s, i as int, buf@) == inline_from(s, 0, seq![]),
        decreases chars.len() - i,
    {
        let ghost b0 = buf@;
        let ghost before = span_views(spans@);
        if i + 1 < chars.len() && chars[i] == '*' && chars[i + 1] == '*' {
            if let Some(end) = find_closing(chars, i + 2, "**") {
                proof {
                    text::lemma_find_from(s, i + 2, seq!['*', '*']);
                }
                let inner = sub_chars(chars, i + 2, end);
                flush_buf(&mut spans, &mut buf);
                spans.push(span(&inner, style(None, None, true, false, false)));
                assert(span_views(spans@) =~= before + flush(b0) + seq![
                    (s.subrange(i + 2, end as int), strong()),
                ]);
                i = end + 2;
                continue;
            }
        }
        if i + 1 < chars.len() && chars[i] == '_' && chars[i + 1] == '_' {
            if let Some(end) = find_closing(chars, i + 2, "__") {
                proof {
                    text::lemma_find_from(s, i + 2, seq!['_', '_']);
                }
                let inner = sub_chars(chars, i + 2, end);
                flush_buf(&mut spans, &mut buf);
                spans.push(span(&inner, style(None, None, true, false, false)));
                assert(span_views(spans@) =~= before + flush(b0) + seq![
                    (s.subrange(i + 2, end as int), strong()),
                ]);
                i = end + 2;
                continue;
            }
        }
        if (chars[i] == '*' || chars[i] == '_') && (i == 0 || chars[i - 1] == ' ') {
            let delim = if chars[i] == '*' {
                "*"
            } else {
                "_"
            };
            if let Some(end) = find_closing(chars, i + 1, delim) {
                proof {
                    assert(delim@ == seq![s[i as int]]);
                    text::lemma_find_from(s, i + 1, seq![s[i as int]]);
                }
                let inner = sub_chars(chars, i + 1, end);
                flush_buf(&mut spans, &mut buf);
                spans.push(span(&inner, style(None, None, false, true, false)));
                assert(span_views(spans@) =~= before + flush(b0) + seq![
                    (s.subrange(i + 1, end as int), emphasis()),
                ]);
                i = end + 1;
                continue;
            }
        }
        if chars[i] == '`' {
            if let Some(end) = find_closing(chars, i + 1, "`") {
                proof {
                    text::lemma_find_from(s, i + 1, seq!['`']);
                }
                let mut inner: Vec<char> = Vec::new();
                inner.push(' ');
                let mid = sub_chars(chars, i + 1, end);
                let mut inner = concat_chars(&inner, &mid);
                inner.push(' ');
                assert(inner@ =~= seq![' '] + s.subrange(i + 1, end as int) + seq![' ']);
                flush_buf(&mut spans, &mut buf);
                spans.push(
                    span(&inner, style(Some(MdColor::Black), Some(MdColor::Yellow), false, false, false)),
                );
                assert(span_views(spans@) =~= before + flush(b0) + seq![
                    (seq![' '] + s.subrange(i + 1, end as int) + seq![' '], inline_code()),
                ]);
                i = end + 1;
                continue;
            }
        }
        buf.push(chars[i]);
        i = i + 1;
    }
    let ghost b0 = buf@;
    let ghost before = span_views(spans@);
    flush_buf(&mut spans, &mut buf);
    assert(span_views(spans@) =~= before + flush(b0));
    spans
}

fn flush_buf(spans: &mut Vec<MdSpan>, buf: &mut Vec<char>)
    ensures
        span_views(final(spans)@) == span_views(old(spans)@) + flush(old(buf)@),
        final(buf)@ == Seq::<char>::empty(),
{
    if buf.len() > 0 {
        let ghost before = span_views(spans@);
        spans.push(span(buf, style(None, None, false, false, false)));
        assert(span_views(spans@) =~= before + flush(old(buf)@));
    } else {
        assert(span_views(spans@) =~= span_views(old(spans)@) + flush(old(buf)@));
    }
    *buf = Vec::new();
}


fn one_line(text: &[char], style: MdStyle) -> (out: MdLine)
    ensures
        out@ == seq![(text@, style)],
{
    let mut spans: Vec<MdSpan> = Vec::new();
    spans.push(span(text, style));
    assert(span_views(spans@) =~= seq![(text@, style)]);
    MdLine { spans }
}

fn chars2(a: char, b: char) -> (out: Vec<char>)
    ensures
        out@ == seq![a, b],
{
    let mut v: Vec<char> = Vec::new();
    v.push(a);
    v.push(b);
    assert(v@ =~= seq![a, b]);
    v
}

fn chars3(a: char, b: char, c: char) -> (out: Vec<char>)
    ensures
        out@ == seq![a, b, c],
{
    let mut v = chars2(a, b);
    v.push(c);
    assert(v@ =~= seq![a, b, c]);
    v
}

fn chars4(a: char, b: char, c: char, d: char) -> (out: Vec<char>)
    ensures
        out@ == seq![a, b, c, d],
{
    let mut v = chars3(a, b, c);
    v.push(d);
    assert(v@ =~= seq![a, b, c, d]);
    v
}

fn rule_chars() -> (out: Vec<char>)
    ensures
        out@ == hrule(),
{
    let mut v: Vec<char> = Vec::new();
    let mut i: usize = 0;
    while i < 48
        invariant
            i <= 48,
            v@ == Seq::new(i as nat, |_i: int| '─'),
        decreases 48 - i,
    {
        v.push('─');
        assert(v@ =~= Seq::new((i + 1) as nat, |_i: int| '─'));
        i = i + 1;
    }
    v
}

/// Renders one raw line, given whether a code block is open before it; also
/// returns whether a code block is open after it.
#[verifier::rlimit(30)]
pub fn render_line(raw: &[char], in_code: bool) -> (out: (MdLine, bool))
    ensures
        (out.0@, out.1) == spec_render_line(raw@, in_code),
{
    let ts = text::trim_start_chars(raw);
    let tick = '`';
    let fence = chars3(tick, tick, tick);
    if text::starts_with_chars(&ts, &fence) {
        if in_code {
            let r = chars_of("─────────────────────────────────");
            return (one_line(&r, style(Some(MdColor::DarkGray), None, false, false, false)), false);
        } else {
            let f1 = text::trim_start_char_chars(&ts, tick);
            let f = text::trim_chars(&f1);
            let label = if f.len() == 0 {
                chars_of("code")
            } else {
                f
            };
            let a = chars_of("▌ ");
            let b = chars_of(" ─────────────────────────────");
            let al = concat_chars(&a, &label);
            let t = concat_chars(&al, &b);
            return (one_line(&t, style(Some(MdColor::DarkGray), None, false, false, false)), true);
        }
    }
    if in_code {
        let sp = chars2(' ', ' ');
        let t = concat_chars(&sp, raw);
        return (one_line(&t, style(Some(MdColor::Yellow), None, false, false, false)), true);
    }
    let t = text::trim_chars(raw);
    if text::eq_chars(&t, &chars3('-', '-', '-')) || text::eq_chars(&t, &chars3('=', '=', '='))
        || text::eq_chars(&t, &chars3('*', '*', '*')) {
        let r = rule_chars();
        return (one_line(&r, style(Some(MdColor::DarkGray), None, false, false, false)), false);
    }
    if text::starts_with_chars(&t, &chars4('#', '#', '#', ' ')) {
        let rest = sub_chars(&t, 4, t.len());
        assert(rest@ =~= t@.skip(4));
        let h = concat_chars(&chars2(' ', ' '), &rest);
        return (one_line(&h, style(Some(MdColor::Cyan), None, true, false, false)), false);
    }
    if text::starts_with_chars(&t, &chars3('#', '#', ' ')) {
        let rest = sub_chars(&t, 3, t.len());
        assert(rest@ =~= t@.skip(3));
        let h = concat_chars(&chars2(' ', ' '), &rest);
        return (one_line(&h, style(Some(MdColor::Cyan), None, true, false, true)), false);
    }
    if text::starts_with_chars(&t, &chars2('#', ' ')) {
        let rest = sub_chars(&t, 2, t.len());
        assert(rest@ =~= t@.skip(2));
        return (one_line(&rest, style(Some(MdColor::Cyan), None, true, false, true)), false);
    }
    if text::starts_with_chars(&t, &chars2('-', ' ')) || text::starts_with_chars(
        &t,
        &chars2('*', ' '),
    ) {
        let p = chars_of("  • ");
        return (with_prefix(&p, &t, 2), false);
    }
    if text::starts_with_chars(&t, &chars4(' ', ' ', '-', ' ')) || text::starts_with_chars(
        &t,
        &chars4(' ', ' ', '*', ' '),
    ) {
        let p = chars_of("    ‣ ");
        return (with_prefix(&p, &t, 4), false);
    }
    let spans = parse_inline(&t);
    (MdLine { spans }, false)
}

fn with_prefix(p: &[char], t: &[char], skip: usize) -> (out: MdLine)
    requires
        skip <= t.len(),
    ensures
        out@ == seq![(p@, bullet())] + spec_parse_inline(t@.skip(skip as int)),
{
    let rest = sub_chars(t, skip, t.len());
    assert(rest@ =~= t@.skip(skip as int));
    let mut inline = parse_inline(&rest);
    let mut spans: Vec<MdSpan> = Vec::new();
    spans.push(span(p, style(Some(MdColor::Cyan), None, false, false, false)));
    let ghost head = span_views(spans@);
    assert(head =~= seq![(p@, bullet())]);
    spans.append(&mut inline);
    assert(span_views(spans@) =~= head + spec_parse_inline(rest@));
    MdLine { spans }
}

/// Converts a markdown string into styled lines, one per line of `input`.
#[verifier::rlimit(30)]
pub fn render_markdown(input: &str) -> (out: Vec<MdLine>)
    ensures
        line_views(out@) == spec_render_markdown(input@),
        out.len() == text::lines(input@).len(),
{
    let s = chars_of(input);
    let ls = text::lines_of(&s);
    let ghost all = text::views(ls@);
    let mut out: Vec<MdLine> = Vec::new();
    let mut in_code = false;
    let mut i: usize = 0;
    assert(all.skip(0) =~= all);
    while i < ls.len()
        invariant
            i <= ls.len(),
            all == text::views(ls@),
            all.len() == ls.len(),
            line_views(out@) + render_lines(all.skip(i as int), in_code) == render_lines(all, false),
        decreases ls.len() - i,
    {
        let ghost before = line_views(out@);
        let (line, st) = render_line(&ls[i], in_code);
        assert(all.skip(i as int).drop_first() =~= all.skip(i + 1));
        assert(all.skip(i as int)[0] == ls@[i as int]@);
        out.push(line);
        assert(line_views(out@) =~= before.push(line@));
        assert(line_views(out@) + render_lines(all.skip(i + 1), st) =~= before + render_lines(
            all.skip(i as int),
            in_code,
        ));
        in_code = st;
        i = i + 1;
    }
    assert(all.skip(ls.len() as int) =~= Seq::<Seq<char>>::empty());
    assert(line_views(out@) =~= line_views(out@) + render_lines(all.skip(ls.len() as int), in_code));
    proof {
        lemma_render_lines_len(all, false);
    }
    out
}


/// `s` holds none of the inline markup characters `*`, `_` and `` ` ``.
pub open spec fn no_markup(s: Seq<char>) -> bool {
    forall|j: int| 0 <= j < s.len() ==> s[j] != '*' && s[j] != '_' && s[j] != '`'
}

proof fn lemma_inline_plain(s: Seq<char>, i: int, buf: Seq<char>)
    requires
        no_markup(s),
        0 <= i <= s.len(),
    ensures
        inline_from(s, i, buf) == flush(buf + s.skip(i)),
    decreases s.len() - i,
{
    if i < s.len() {
        lemma_inline_plain(s, i + 1, buf.push(s[i]));
        assert(buf.push(s[i]) + s.skip(i + 1) =~= buf + s.skip(i));
    } else {
        assert(buf + s.skip(i) =~= buf);
    }
}

/// Text without markup characters is rendered as a single unstyled span (or
/// no span at all when it is empty).
pub proof fn law_plain_text_unchanged(s: Seq<char>)
    requires
        no_markup(s),
    ensures
        spec_parse_inline(s) == flush(s),
{
    lemma_inline_plain(s, 0, seq![]);
    assert(Seq::<char>::empty() + s.skip(0) =~= s);
}

/// Inside a fenced code block every line that is not a fence is shown
/// verbatim, indented by two spaces, and the block stays open.
pub proof fn law_code_block_verbatim(raw: Seq<char>)
    requires
        !text::starts_with(text::trim_start(raw), seq!['`', '`', '`']),
    ensures
        spec_render_line(raw, true) == (seq![(seq![' ', ' '] + raw, code_line())], true),
{
}

/// A fence line opens a code block when none is open and closes the open one
/// otherwise.
pub proof fn law_fence_toggles(raw: Seq<char>, in_code: bool)
    requires
        text::starts_with(text::trim_start(raw), seq!['`', '`', '`']),
    ensures
        spec_render_line(raw, in_code).1 == !in_code,
{
}

/// Plain characters (no `*`, `_` or `` ` ``) are gathered into the pending text.
proof fn lemma_inline_skip_plain(s: Seq<char>, i: int, k: int, buf: Seq<char>)
    requires
        0 <= i <= k <= s.len(),
        forall|j: int| i <= j < k ==> s[j] != '*' && s[j] != '_' && s[j] != '`',
    ensures
        inline_from(s, i, buf) == inline_from(s, k, buf + s.subrange(i, k)),
    decreases k - i,
{
    if i < k {
        lemma_inline_skip_plain(s, i + 1, k, buf.push(s[i]));
        assert(buf.push(s[i]) + s.subrange(i + 1, k) =~= buf + s.subrange(i, k));
    } else {
        assert(buf + s.subrange(i, k) =~= buf);
    }
}

/// A `*` at position `k`, at the start or after a space, followed by `w` (no
/// `*`, not empty) and a closing `*`, makes `w` an italic span.
proof fn lemma_emphasis_at(s: Seq<char>, k: int, w: Seq<char>, buf: Seq<char>)
    requires
        0 <= k,
        k + w.len() + 2 <= s.len(),
        s[k] == '*',
        k == 0 || s[k - 1] == ' ',
        s.subrange(k + 1, k + 1 + w.len()) == w,
        s[k + 1 + w.len()] == '*',
        w.len() > 0,
        forall|i: int| 0 <= i < w.len() ==> w[i] != '*',
    ensures
        inline_from(s, k, buf) == flush(buf) + seq![
            (w, MdStyle { fg: None, bg: None, bold: false, italic: true, underlined: false }),
        ] + inline_from(s, k + w.len() + 2, seq![]),
{
    let e = k + 1 + w.len();
    assert(s[k + 1] == s.subrange(k + 1, k + 1 + w.len())[0]);
    text::lemma_find_from(s, k + 1, seq!['*']);
    assert(s.subrange(e, e + 1) =~= seq!['*']);
    assert(text::matches_at(s, e, seq!['*']));
    assert forall|j: int| k + 1 <= j < e implies !text::matches_at(s, j, seq!['*']) by {
        assert(s[j] == s.subrange(k + 1, k + 1 + w.len())[j - k - 1]);
        if text::matches_at(s, j, seq!['*']) {
            assert(s.subrange(j, j + 1)[0] == s[j]);
        }
    }
    assert(text::find_from(s, k + 1, seq![s[k]]) == Some(e));
}

/// Emphasis is recognised at the start of a text and after a space: "*w*"
/// (`w` not empty, without `*`) gives `w` as an italic span, after the plain
/// text before it.
pub proof fn law_emphasis_recognised(p: Seq<char>, w: Seq<char>, r: Seq<char>)
    requires
        no_markup(p),
        w.len() > 0,
        forall|i: int| 0 <= i < w.len() ==> w[i] != '*',
    ensures
        spec_parse_inline(seq!['*'] + w + seq!['*'] + r).len() > 0,
        spec_parse_inline(seq!['*'] + w + seq!['*'] + r)[0] == (
            w,
            MdStyle { fg: None, bg: None, bold: false, italic: true, underlined: false },
        ),
        spec_parse_inline(p + seq![' ', '*'] + w + seq!['*'] + r).len() > 1,
        spec_parse_inline(p + seq![' ', '*'] + w + seq!['*'] + r)[0] == (
            p + seq![' '],
            MdStyle { fg: None, bg: None, bold: false, italic: false, underlined: false },
        ),
        spec_parse_inline(p + seq![' ', '*'] + w + seq!['*'] + r)[1] == (
            w,
            MdStyle { fg: None, bg: None, bold: false, italic: true, underlined: false },
        ),
{
    let s0 = seq!['*'] + w + seq!['*'] + r;
    assert(s0.subrange(1, 1 + w.len() as int) =~= w);
    lemma_emphasis_at(s0, 0, w, seq![]);
    let s1 = p + seq![' ', '*'] + w + seq!['*'] + r;
    let k = p.len() + 1int;
    assert(s1.subrange(k + 1, k + 1 + w.len()) =~= w);
    assert forall|j: int| 0 <= j < k implies s1[j] != '*' && s1[j] != '_' && s1[j] != '`' by {
        if j < p.len() {
            assert(s1[j] == p[j]);
        }
    }
    lemma_inline_skip_plain(s1, 0, k, seq![]);
    assert(Seq::<char>::empty() + s1.subrange(0, k) =~= p + seq![' ']);
    lemma_emphasis_at(s1, k, w, p + seq![' ']);
}

} // verus!
