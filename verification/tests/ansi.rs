use rustlab::ansi::{collect_spans, indexed_color, basic_color, parse, rgb, Rgb, VtEvent};

#[test]
fn plain_text_passthrough() {
    let spans = parse("hello world");
    assert_eq!(spans.len(), 1);
    assert_eq!(spans[0].text, "hello world");
    assert_eq!(spans[0].color, None);
}

#[test]
fn colored_traceback_fragment() {
    let spans = parse("\u{1b}[0;31mZeroDivisionError\u{1b}[0m: division by zero");
    assert_eq!(spans.len(), 2);
    assert_eq!(spans[0].text, "ZeroDivisionError");
    assert!(spans[0].color.is_some());
    assert_eq!(spans[1].text, ": division by zero");
    assert_eq!(spans[1].color, None);
}

#[test]
fn newlines_survive() {
    let spans = parse("line1\nline2");
    assert_eq!(spans[0].text, "line1\nline2");
}

#[test]
fn indexed_256_color() {
    let spans = parse("\u{1b}[38;5;196mred\u{1b}[0m");
    assert_eq!(spans[0].text, "red");
    assert!(spans[0].color.is_some());
}

#[test]
fn red_is_the_palette_red() {
    let spans = parse("\u{1b}[31mx");
    assert_eq!(spans[0].color, Some(Rgb { r: 0xe7, g: 0x5c, b: 0x58 }));
    assert!(!spans[0].bold);
}

#[test]
fn bold_and_bright_then_reset() {
    let spans = parse("\u{1b}[1;92mok\u{1b}[22mplain\u{1b}[39mend");
    assert_eq!(spans.len(), 3);
    assert!(spans[0].bold);
    assert_eq!(spans[0].color, Some(Rgb { r: 0x5a, g: 0xf7, b: 0x8e }));
    assert!(!spans[1].bold);
    assert_eq!(spans[1].color, Some(Rgb { r: 0x5a, g: 0xf7, b: 0x8e }));
    assert_eq!(spans[2].color, None);
}

#[test]
fn truecolor_separate_and_colon_params() {
    let spans = parse("\u{1b}[38;2;10;20;30ma\u{1b}[38:2:1:2:3mb");
    assert_eq!(spans[0].color, Some(Rgb { r: 10, g: 20, b: 30 }));
    assert_eq!(spans[1].color, Some(Rgb { r: 1, g: 2, b: 3 }));
}

#[test]
fn non_sgr_sequences_are_dropped() {
    let spans = parse("a\u{1b}[2Kb\u{1b}]0;title\u{7}c\rd");
    assert_eq!(spans.len(), 1);
    assert_eq!(spans[0].text, "abcd");
}

#[test]
fn tabs_survive_and_empty_input_has_no_spans() {
    assert_eq!(parse("a\tb")[0].text, "a\tb");
    assert!(parse("").is_empty());
    assert!(parse("\u{1b}[31m").is_empty());
}

#[test]
fn unicode_text_is_kept() {
    let spans = parse("héllo 🦀");
    assert_eq!(spans[0].text, "héllo 🦀");
}

#[test]
fn palette_values() {
    assert_eq!(indexed_color(1), basic_color(1, false));
    assert_eq!(indexed_color(9), basic_color(1, true));
    assert_eq!(indexed_color(16), Rgb { r: 0, g: 0, b: 0 });
    assert_eq!(indexed_color(196), Rgb { r: 255, g: 0, b: 0 });
    assert_eq!(indexed_color(21), Rgb { r: 0, g: 0, b: 255 });
    assert_eq!(indexed_color(232), Rgb { r: 8, g: 8, b: 8 });
    assert_eq!(indexed_color(255), Rgb { r: 238, g: 238, b: 238 });
    assert_eq!(indexed_color(300), Rgb { r: 255, g: 255, b: 255 });
    assert_eq!(basic_color(9, false), Rgb { r: 0xc5, g: 0xc1, b: 0xb4 });
    assert_eq!(rgb(256 + 5, 7, 300), Rgb { r: 5, g: 7, b: 44 });
}

#[test]
fn collect_from_actions() {
    let events = vec![
        VtEvent::Print('a'),
        VtEvent::Csi { params: vec![vec![1]], ignore: false, action: b'm' },
        VtEvent::Print('b'),
        VtEvent::Execute(b'\n'),
        VtEvent::Execute(7),
        VtEvent::Csi { params: vec![vec![31]], ignore: true, action: b'm' },
        VtEvent::Csi { params: vec![vec![0]], ignore: false, action: b'H' },
        VtEvent::Print('c'),
    ];
    let spans = collect_spans(&events);
    assert_eq!(spans.len(), 2);
    assert_eq!(spans[0].text, "a");
    assert!(!spans[0].bold);
    assert_eq!(spans[1].text, "b\nc");
    assert!(spans[1].bold);
    assert_eq!(spans[1].color, None);
}
