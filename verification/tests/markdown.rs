use omniscientia::markdown::{find_closing, parse_inline, render_markdown, MdColor, MdLine, MdStyle};

fn st(fg: Option<MdColor>, bg: Option<MdColor>, bold: bool, italic: bool, underlined: bool) -> MdStyle {
    MdStyle { fg, bg, bold, italic, underlined }
}

fn plain() -> MdStyle {
    st(None, None, false, false, false)
}

fn spans(line: &MdLine) -> Vec<(String, MdStyle)> {
    line.spans.iter().map(|s| (s.text.clone(), s.style)).collect()
}

fn chars(s: &str) -> Vec<char> {
    s.chars().collect()
}

#[test]
fn one_output_line_per_input_line() {
    let input = "# Title\n\nsome *text*\n```rust\nfn main() {}\n```\n- item\n---\n";
    let out = render_markdown(input);
    assert_eq!(out.len(), input.lines().count());
    assert_eq!(out.len(), 8);
}

#[test]
fn headers_are_styled() {
    let out = render_markdown("# One\n## Two\n### Three");
    assert_eq!(spans(&out[0]), vec![("One".to_string(), st(Some(MdColor::Cyan), None, true, false, true))]);
    assert_eq!(spans(&out[1]), vec![("  Two".to_string(), st(Some(MdColor::Cyan), None, true, false, true))]);
    assert_eq!(spans(&out[2]), vec![("  Three".to_string(), st(Some(MdColor::Cyan), None, true, false, false))]);
}

#[test]
fn code_block_lines_are_verbatim() {
    let out = render_markdown("```python\nx = *y*\n```\nafter");
    assert_eq!(
        spans(&out[0]),
        vec![("▌ python ─────────────────────────────".to_string(), st(Some(MdColor::DarkGray), None, false, false, false))]
    );
    assert_eq!(spans(&out[1]), vec![("  x = *y*".to_string(), st(Some(MdColor::Yellow), None, false, false, false))]);
    assert_eq!(
        spans(&out[2]),
        vec![("─────────────────────────────────".to_string(), st(Some(MdColor::DarkGray), None, false, false, false))]
    );
    assert_eq!(spans(&out[3]), vec![("after".to_string(), plain())]);
}

#[test]
fn fence_without_language_is_labelled_code() {
    let out = render_markdown("   ```\nbody");
    assert_eq!(spans(&out[0])[0].0, "▌ code ─────────────────────────────");
    assert_eq!(spans(&out[1])[0].0, "  body");
}

#[test]
fn rules_and_empty_lines() {
    let out = render_markdown("  ---  \n\n***");
    assert_eq!(spans(&out[0])[0].0, "─".repeat(48));
    assert!(out[1].spans.is_empty());
    assert_eq!(spans(&out[2])[0].0, "─".repeat(48));
}

#[test]
fn list_items_get_bullets() {
    let out = render_markdown("- first\n* second **bold**");
    assert_eq!(
        spans(&out[0]),
        vec![
            ("  • ".to_string(), st(Some(MdColor::Cyan), None, false, false, false)),
            ("first".to_string(), plain()),
        ]
    );
    assert_eq!(
        spans(&out[1]),
        vec![
            ("  • ".to_string(), st(Some(MdColor::Cyan), None, false, false, false)),
            ("second ".to_string(), plain()),
            ("bold".to_string(), st(None, None, true, false, false)),
        ]
    );
}

#[test]
fn inline_markup() {
    let out = parse_inline(&chars("a **b** _c_ `d` __e__ *f*"));
    let got: Vec<(String, MdStyle)> = out.iter().map(|s| (s.text.clone(), s.style)).collect();
    assert_eq!(
        got,
        vec![
            ("a ".to_string(), plain()),
            ("b".to_string(), st(None, None, true, false, false)),
            (" ".to_string(), plain()),
            ("c".to_string(), st(None, None, false, true, false)),
            (" ".to_string(), plain()),
            (" d ".to_string(), st(Some(MdColor::Black), Some(MdColor::Yellow), false, false, false)),
            (" ".to_string(), plain()),
            ("e".to_string(), st(None, None, true, false, false)),
            (" ".to_string(), plain()),
            ("f".to_string(), st(None, None, false, true, false)),
        ]
    );
}

#[test]
fn italic_needs_a_space_or_start_before_it() {
    let out = parse_inline(&chars("snake_case_name"));
    assert_eq!(out.len(), 1);
    assert_eq!(out[0].text, "snake_case_name");
}

#[test]
fn unclosed_markup_stays_plain() {
    let out = parse_inline(&chars("x `unclosed"));
    assert_eq!(out.len(), 1);
    assert_eq!(out[0].text, "x `unclosed");
}

#[test]
fn plain_text_is_one_unstyled_span() {
    let out = parse_inline(&chars("just words, no markup"));
    assert_eq!(out.len(), 1);
    assert_eq!(out[0].text, "just words, no markup");
    assert_eq!(out[0].style, plain());
    assert!(parse_inline(&[]).is_empty());
}

#[test]
fn find_closing_finds_first_from_start() {
    let c = chars("a**b**c**");
    assert_eq!(find_closing(&c, 0, "**"), Some(1));
    assert_eq!(find_closing(&c, 3, "**"), Some(4));
    assert_eq!(find_closing(&c, 8, "**"), None);
    assert_eq!(find_closing(&c, 20, "*"), None);
}

#[test]
fn crlf_lines_lose_their_carriage_return() {
    let out = render_markdown("one\r\ntwo");
    assert_eq!(out.len(), 2);
    assert_eq!(out[0].spans[0].text, "one");
}
