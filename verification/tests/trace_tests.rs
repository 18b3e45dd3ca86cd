use alltools::trace::{include_chain, parse_line, record_path, trim, TraceLine};

fn included(indent: usize, path: &str) -> TraceLine {
    TraceLine::Included { indent, path: path.to_string() }
}

#[test]
fn trim_cuts_white_space_off_both_ends() {
    for text in ["", " ", "a", " a", "a ", "  a b  ", "\t a\u{a0}\n", "\u{3000}x\u{2028}", "a\tb", "é ", " \u{200b} "] {
        assert_eq!(text.trim(), trim(text), "{:?}", text);
    }
    assert_eq!("a b", trim("  a b  "));
    assert_eq!("", trim(" \t\r\n"));
}

#[test]
fn lines_that_name_no_file() {
    assert_eq!(TraceLine::Other, parse_line(""));
    assert_eq!(TraceLine::Other, parse_line("main.cpp"));
    assert_eq!(TraceLine::Other, parse_line("Note: including file"));
    assert_eq!(TraceLine::Other, parse_line("note: including file: a.h"));
    assert_eq!(TraceLine::Other, parse_line(" Note: including file: a.h"));
    assert_eq!(TraceLine::Other, parse_line("Note: including files: a.h"));
}

#[test]
fn lines_that_name_a_file() {
    assert_eq!(included(0, "C:\\inc\\a.h"), parse_line("Note: including file: C:\\inc\\a.h"));
    assert_eq!(included(1, "b.h"), parse_line("Note: including file:  b.h"));
    assert_eq!(included(4, "deep/c.h"), parse_line("Note: including file:     deep/c.h"));
    assert_eq!(included(0, "with space.h"), parse_line("Note: including file: with space.h  "));
    // white space other than spaces counts no depth and is no part of the path
    assert_eq!(included(1, "d.h"), parse_line("Note: including file:  \td.h"));
    assert_eq!(included(0, "é.h"), parse_line("Note: including file: é.h"));
}

#[test]
fn lines_without_path_or_depth() {
    assert_eq!(TraceLine::Blank, parse_line("Note: including file:"));
    assert_eq!(TraceLine::Blank, parse_line("Note: including file:   "));
    assert_eq!(TraceLine::Unindented, parse_line("Note: including file:a.h"));
    assert_eq!(TraceLine::Unindented, parse_line("Note: including file:\ta.h"));
}

#[test]
fn paths_are_recorded_by_depth() {
    let mut seen: Vec<String> = Vec::new();
    record_path(&mut seen, 0, "a.h".to_string());
    record_path(&mut seen, 1, "b.h".to_string());
    record_path(&mut seen, 2, "c.h".to_string());
    assert_eq!(vec!["a.h", "b.h", "c.h"], seen);
    record_path(&mut seen, 1, "d.h".to_string());
    assert_eq!(vec!["a.h", "d.h", "c.h"], seen);
    record_path(&mut seen, 7, "e.h".to_string());
    assert_eq!(vec!["a.h", "d.h", "c.h", "e.h"], seen);
    record_path(&mut seen, 0, "f.h".to_string());
    assert_eq!(vec!["f.h", "d.h", "c.h", "e.h"], seen);
}

#[test]
fn chain_is_indented_by_depth() {
    let seen = vec!["a.h".to_string(), "b.h".to_string(), "c.h".to_string()];
    assert_eq!(vec![" -> a.h"], include_chain(&seen, 0));
    assert_eq!(vec![" -> a.h", "     -> b.h"], include_chain(&seen, 1));
    assert_eq!(vec![" -> a.h", "     -> b.h", "         -> c.h"], include_chain(&seen, 2));
    for (idx, line) in include_chain(&seen, 2).iter().enumerate() {
        assert_eq!(&format!(" {:indent$}-> {}", "", seen[idx], indent = 4 * idx), line);
    }
}
