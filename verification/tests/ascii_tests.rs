use alltools::ascii::{codepoint_char, codepoint_name, table_layout, TableLayout};

#[test]
fn control_characters_show_as_space() {
    for cp in 0..=32usize {
        assert_eq!(Some(' '), codepoint_char(cp));
    }
    assert_eq!(Some(' '), codepoint_char(127));
}

#[test]
fn printable_characters_show_as_themselves() {
    for cp in 33..127usize {
        assert_eq!(Some(cp as u8 as char), codepoint_char(cp));
    }
    assert_eq!(Some('é'), codepoint_char(0xe9));
    assert_eq!(Some('\u{10ffff}'), codepoint_char(0x10ffff));
    assert_eq!(None, codepoint_char(0x110000));
    assert_eq!(None, codepoint_char(0xd800));
    assert_eq!(None, codepoint_char(0xdfff));
    assert_eq!(Some('\u{e000}'), codepoint_char(0xe000));
    assert_eq!(Some('\u{d7ff}'), codepoint_char(0xd7ff));
}

#[test]
fn only_the_low_32_bits_count() {
    if usize::BITS > 32 {
        let high = 1usize << 32;
        assert_eq!(Some('A'), codepoint_char(high + 65));
        assert_eq!(Some('\0'), codepoint_char(high));
    }
}

#[test]
fn names_of_code_points() {
    assert_eq!(Some("Null"), codepoint_name(0));
    assert_eq!(Some("End of transmission block"), codepoint_name(23));
    assert_eq!(Some("Space"), codepoint_name(32));
    assert_eq!(Some("Exclamation mark"), codepoint_name(33));
    assert_eq!(Some("Slash / Solidus"), codepoint_name(47));
    assert_eq!(Some("Zero"), codepoint_name(48));
    assert_eq!(Some("Nine"), codepoint_name(57));
    assert_eq!(Some("Capital A"), codepoint_name(65));
    assert_eq!(Some("Capital Z"), codepoint_name(90));
    assert_eq!(Some("A"), codepoint_name(97));
    assert_eq!(Some("Z"), codepoint_name(122));
    assert_eq!(Some("Tilde"), codepoint_name(126));
    assert_eq!(Some("Delete"), codepoint_name(127));
    assert_eq!(Some("<Unknown>"), codepoint_name(128));
    assert_eq!(Some("<Unknown>"), codepoint_name(usize::MAX));
    for cp in 0..128usize {
        let name = codepoint_name(cp).unwrap();
        assert!(!name.is_empty());
        assert_ne!("<Unknown>", name);
    }
    for letter in 0..26usize {
        let capital = codepoint_name(65 + letter).unwrap();
        let small = codepoint_name(97 + letter).unwrap();
        assert_eq!(format!("Capital {}", small), capital);
        assert_eq!(((65 + letter) as u8 as char).to_string(), small);
    }
}

#[test]
fn layout_follows_terminal_width() {
    assert_eq!(
        TableLayout { first_codepoint: 32, columns: 2, rows: 48 },
        table_layout(false, None)
    );
    assert_eq!(
        TableLayout { first_codepoint: 0, columns: 2, rows: 64 },
        table_layout(true, None)
    );
    assert_eq!(
        TableLayout { first_codepoint: 32, columns: 1, rows: 96 },
        table_layout(false, Some(0))
    );
    assert_eq!(
        TableLayout { first_codepoint: 32, columns: 1, rows: 96 },
        table_layout(false, Some(62))
    );
    assert_eq!(
        TableLayout { first_codepoint: 32, columns: 1, rows: 96 },
        table_layout(false, Some(125))
    );
    assert_eq!(
        TableLayout { first_codepoint: 32, columns: 2, rows: 48 },
        table_layout(false, Some(126))
    );
    assert_eq!(
        TableLayout { first_codepoint: 0, columns: 3, rows: 42 },
        table_layout(true, Some(200))
    );
    assert_eq!(
        TableLayout { first_codepoint: 0, columns: 1040, rows: 0 },
        table_layout(true, Some(u16::MAX))
    );
}

#[test]
fn cells_run_down_the_columns() {
    let layout = table_layout(false, Some(200));
    assert_eq!(3, layout.columns);
    assert_eq!(32, layout.rows);
    assert_eq!(32, layout.cell(0, 0));
    assert_eq!(33, layout.cell(1, 0));
    assert_eq!(64, layout.cell(0, 1));
    assert_eq!(127, layout.cell(31, 2));
    for width in [None, Some(1u16), Some(63), Some(130), Some(200), Some(500), Some(4000)] {
        for show_all in [false, true] {
            let layout = table_layout(show_all, width);
            let mut seen = std::collections::HashSet::new();
            for row in 0..layout.rows {
                for column in 0..layout.columns {
                    let cp = layout.cell(row, column);
                    assert!(cp >= layout.first_codepoint && cp <= 127);
                    assert!(seen.insert(cp));
                    assert!(codepoint_char(cp).is_some());
                }
            }
        }
    }
}
