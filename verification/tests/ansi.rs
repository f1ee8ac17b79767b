use batrs::ansi::effect::LineEffect;
use batrs::ansi::line::StyledLine;
use batrs::ansi::palette::{get_color, TerminalColor, BOLD_WHITE, RED, TEXT};
use batrs::ansi::style::{AnsiCode, TextColor, TextStyle};
use batrs::output_buffer::OutputBuffer;
use unicode_segmentation::UnicodeSegmentation;

#[test]
fn style_line_apply_to_sets_line_color() {
    let mut line = StyledLine::new("hello");
    LineEffect::StyleLine(TextStyle::GREEN()).apply_to(&mut line);
    assert!(line.styled_chars.iter().all(|c| c.color == AnsiCode::Green));
}

#[test]
fn style_block_apply_to_styles_matching_text() {
    let mut line = StyledLine::new("foo bar");
    LineEffect::StyleBlock {
        text: "foo".to_string(),
        style: TextStyle::RED(),
    }
    .apply_to(&mut line);
    assert_eq!(line.styled_chars[0].color, AnsiCode::Red);
}

#[test]
fn style_plain_byte_range_apply_to_styles_substring() {
    let mut line = StyledLine::new("alpha beta gamma");
    let start = line.plain_line.find("beta").unwrap();
    let end = start + "beta".len();
    LineEffect::StylePlainByteRange {
        range: start..end,
        style: TextStyle::BRIGHT_RED(),
    }
    .apply_to(&mut line);
    assert_eq!(line.styled_chars[6].color, AnsiCode::Red);
    assert!(line.styled_chars[6].bold);
    assert_eq!(line.styled_chars[0].color, TextColor::Default);
}

#[test]
fn insert_plain_after_plain_byte_idx_apply_to_inserts_suffix() {
    let mut line = StyledLine::new("ab");
    LineEffect::InsertPlainAfterPlainByteIdx {
        byte_idx: 1,
        suffix: "X".to_string(),
    }
    .apply_to(&mut line);
    assert_eq!(line.plain_line, "aXb");
}

#[test]
fn plain_byte_range_style_marks_substring() {
    let mut line = StyledLine::new("alpha β gamma");
    let beta_start = line.plain_line.find('β').unwrap();
    let beta_end = beta_start + "β".len();
    line.set_plain_byte_range_style(beta_start..beta_end, TextStyle::BRIGHT_RED());
    let beta_grapheme = line.plain_line[..beta_start].graphemes(true).count();
    assert_eq!(
        line.styled_chars[beta_grapheme].color,
        TextStyle::BRIGHT_RED().color
    );
    assert!(line.styled_chars[beta_grapheme].bold);
    assert_eq!(line.styled_chars[0].color, TextColor::Default);
}

#[test]
fn styled_tab_expands_with_active_style() {
    let line = StyledLine::new("\x1b[32mA\tB");

    assert_eq!(line.plain_line, "A       B");
    assert_eq!(line.styled_chars.len(), 9);
    assert!(line.styled_chars[0..8]
        .iter()
        .all(|c| c.color == AnsiCode::Green));
}

#[test]
fn leading_tab_expands_to_spaces() {
    let line = StyledLine::new("\tHellish bandolier contains:");

    assert_eq!(line.plain_line, "        Hellish bandolier contains:");
    assert_eq!(line.styled_chars.len(), line.plain_line.chars().count());
    assert!(line.styled_chars.iter().all(|c| c.character != "\t"));
}

#[test]
fn bright_white_stays_bold_and_uses_palette_white() {
    let line = StyledLine::new("\x1b[1;37mwhite\x1b[0m");

    assert_eq!(line.styled_chars[0].color, AnsiCode::White);
    assert!(line.styled_chars[0].bold);
    let first = &line.styled_chars[0];
    assert_eq!(get_color(TextStyle::new(first.color, first.bold)), BOLD_WHITE());
    let rendered = line.to_wrapped_lines(80);
    assert_eq!(rendered[0][0].color, BOLD_WHITE());
    assert!(rendered[0][0].bold);
}

#[test]
fn parses_and_renders_256_color_foreground() {
    let line = StyledLine::new("\x1b[38;5;219mpink\x1b[0m plain");

    assert_eq!(line.plain_line, "pink plain");
    assert_eq!(line.styled_chars[0].color, TextColor::Indexed(219));
    assert_eq!(line.styled_chars[4].color, TextColor::Default);

    let rendered = line.to_wrapped_lines(80);
    assert_eq!(rendered[0][0].color, TerminalColor::Indexed(219));
    assert_eq!(rendered[0][4].color, TEXT());
}

#[test]
fn parses_and_renders_truecolor_foreground() {
    let line = StyledLine::new("\x1b[38;2;255;128;64morange\x1b[0m");

    assert_eq!(line.plain_line, "orange");
    assert_eq!(line.styled_chars[0].color, TextColor::Rgb(255, 128, 64));

    let rendered = line.to_wrapped_lines(80);
    assert_eq!(rendered[0][0].color, TerminalColor::Rgb(255, 128, 64));
}

#[test]
fn bold_default_text_renders_as_bright_white() {
    let line = StyledLine::new("\x1b[1mYou start chanting.\x1b[0m");

    assert_eq!(line.styled_chars[0].color, TextColor::Default);
    assert!(line.styled_chars[0].bold);

    let rendered = line.to_wrapped_lines(80);
    assert_eq!(rendered[0][0].color, BOLD_WHITE());
    assert!(rendered[0][0].bold);
}

#[test]
fn wrapped_lines_cut_every_width_cells() {
    let line = StyledLine::new("abcdefg");
    let rendered = line.to_wrapped_lines(3);
    let texts: Vec<String> = rendered.iter().map(|l| l.iter().map(|c| c.text.as_str()).collect()).collect();
    assert_eq!(texts, vec!["abc".to_string(), "def".to_string(), "g".to_string()]);
    assert!(line.to_wrapped_lines(0).is_empty());
    assert_eq!(StyledLine::new("").to_wrapped_lines(5), vec![Vec::new()]);
}

#[test]
fn reset_returns_following_text_to_default_style() {
    let line = StyledLine::new("\x1b[31mred\x1b[0mplain");

    assert_eq!(line.styled_chars[0].color, AnsiCode::Red);
    assert_eq!(line.styled_chars[3].color, TextColor::Default);
    assert!(!line.styled_chars[3].bold);
    let first = &line.styled_chars[0];
    assert_eq!(get_color(TextStyle::new(first.color, first.bold)), RED());
    let fourth = &line.styled_chars[3];
    assert_eq!(get_color(TextStyle::new(fourth.color, fourth.bold)), TEXT());
}

#[test]
fn non_sgr_escape_is_removed_without_styling() {
    let line = StyledLine::new("a\x1b[2Kb");
    assert_eq!(line.plain_line, "ab");
    assert!(line.styled_chars.iter().all(|c| c.color == TextColor::Default && !c.bold));
}

#[test]
fn bright_foreground_codes_set_bold() {
    let line = StyledLine::new("\x1b[94mx");
    assert_eq!(line.styled_chars[0].color, AnsiCode::Blue);
    assert!(line.styled_chars[0].bold);
}

#[test]
fn empty_sgr_resets_style() {
    let line = StyledLine::new("\x1b[1;31ma\x1b[mb");
    assert!(line.styled_chars[0].bold);
    assert_eq!(line.styled_chars[1].color, TextColor::Default);
    assert!(!line.styled_chars[1].bold);
}

#[test]
fn tab_after_text_stops_at_next_column_of_eight() {
    let line = StyledLine::new("abc\tX");
    assert_eq!(line.plain_line, "abc     X");
}

#[test]
fn insert_at_front_takes_first_cell_style() {
    let mut line = StyledLine::new("\x1b[31mab");
    line.insert_plain_after_plain_byte_idx(0, "Z");
    assert_eq!(line.plain_line, "Zab");
    assert_eq!(line.styled_chars[0].character, "Z");
    assert_eq!(line.styled_chars[0].color, AnsiCode::Red);
}

#[test]
fn insert_past_end_is_clamped() {
    let mut line = StyledLine::new("ab");
    line.insert_plain_after_plain_byte_idx(99, "!");
    assert_eq!(line.plain_line, "ab!");
    assert_eq!(line.styled_chars.len(), 3);
}

#[test]
fn try_apply_refuses_byte_offset_inside_character() {
    let mut line = StyledLine::new("β");
    let done = LineEffect::InsertPlainAfterPlainByteIdx {
        byte_idx: 1,
        suffix: "x".to_string(),
    }
    .try_apply_to(&mut line);
    assert!(!done);
    assert_eq!(line.plain_line, "β");
}

#[test]
fn block_style_without_match_changes_nothing() {
    let mut line = StyledLine::new("foo");
    line.set_block_style("zzz", TextStyle::RED());
    assert!(line.styled_chars.iter().all(|c| c.color == TextColor::Default));
}

#[test]
fn output_buffer_drops_gagged_lines() {
    let mut buffer = OutputBuffer::new();
    let mut gagged = StyledLine::new("hidden");
    gagged.gag = true;
    buffer.append_lines(vec![StyledLine::new("one"), gagged, StyledLine::new("two")]);
    let plain: Vec<&str> = buffer.lines().iter().map(|l| l.plain_line.as_str()).collect();
    assert_eq!(plain, vec!["one", "two"]);
}

#[test]
fn block_style_styles_every_occurrence() {
    let mut line = StyledLine::new("foo bar foo");
    line.set_block_style("foo", TextStyle::RED());
    assert_eq!(line.plain_line, "foo bar foo");
    for (i, cell) in line.styled_chars.iter().enumerate() {
        let expected = if i < 3 || i >= 8 { TextColor::Ansi(AnsiCode::Red) } else { TextColor::Default };
        assert_eq!(cell.color, expected, "cell {i}");
        assert!(!cell.bold);
    }
}

#[test]
fn block_style_finds_occurrences_by_grapheme() {
    let mut line = StyledLine::new("é-x é-x");
    line.set_block_style("x", TextStyle::RED());
    let red: Vec<usize> = line
        .styled_chars
        .iter()
        .enumerate()
        .filter(|(_, cell)| cell.color == TextColor::Ansi(AnsiCode::Red))
        .map(|(i, _)| i)
        .collect();
    assert_eq!(red, vec![2, 6]);
    let mut empty = StyledLine::new("abc");
    empty.set_block_style("", TextStyle::RED());
    assert!(empty.styled_chars.iter().all(|c| c.color == TextColor::Default));
}
