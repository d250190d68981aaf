use llvm_sys_query::code::{line_count, span_source, unindent_lines, CodeError};

#[test]
fn unindent_removes_shared_indentation() {
    let lines = ["    fn a() {", "        x", "    }"];
    assert_eq!(unindent_lines(&lines), "fn a() {\n    x\n}");
}

#[test]
fn unindent_counts_whole_groups_of_four_spaces() {
    let lines = ["      a", "    b"];
    assert_eq!(unindent_lines(&lines), "  a\nb");
    let lines = ["   a", "        b"];
    assert_eq!(unindent_lines(&lines), "   a\n        b");
}

#[test]
fn unindent_empty_line_shares_no_indentation() {
    let lines = ["    a", ""];
    assert_eq!(unindent_lines(&lines), "    a\n");
}

#[test]
fn unindent_of_no_lines_is_empty() {
    let lines: [&str; 0] = [];
    assert_eq!(unindent_lines(&lines), "");
}

#[test]
fn unindent_single_line() {
    assert_eq!(unindent_lines(&["        let x = 1;"]), "let x = 1;");
}

#[test]
fn unindent_keeps_tabs_and_other_characters() {
    let lines = ["\ta", "    b"];
    assert_eq!(unindent_lines(&lines), "\ta\n    b");
    let lines = ["    é", "        ü"];
    assert_eq!(unindent_lines(&lines), "é\n    ü");
}

#[test]
fn unindent_all_space_line() {
    let lines = ["        ", "            x"];
    assert_eq!(unindent_lines(&lines), "\n    x");
}

#[test]
fn unindent_twice_is_unindent_once() {
    let lines = ["        a", "            b", "          c"];
    let once = unindent_lines(&lines);
    let again_lines: Vec<&str> = once.split('\n').collect();
    assert_eq!(unindent_lines(&again_lines), once);
}

#[test]
fn unindent_removes_only_spaces() {
    let lines = ["        a", "            b"];
    let out = unindent_lines(&lines);
    for (line, stripped) in lines.iter().zip(out.split('\n')) {
        assert!(line.ends_with(stripped));
        assert!(line[..line.len() - stripped.len()].chars().all(|c| c == ' '));
    }
}

#[test]
fn line_count_follows_str_lines() {
    assert_eq!(line_count(""), 0);
    assert_eq!(line_count("a"), 1);
    assert_eq!(line_count("a\nb"), 2);
    assert_eq!(line_count("a\nb\n"), 2);
    assert_eq!(line_count("\n"), 1);
    assert_eq!(line_count("a\r\nb\r\n\r\n"), 3);
}

#[test]
fn span_source_takes_the_lines_of_the_span() {
    let text = "mod m {\n    fn f() {\n        g();\n    }\n}\n";
    assert_eq!(span_source(text, 2, 4), "fn f() {\n    g();\n}");
    assert_eq!(span_source(text, 3, 3), "g();");
    assert_eq!(span_source(text, 1, 5), text.trim_end_matches('\n'));
}

#[test]
fn span_source_strips_carriage_returns() {
    let text = "    a\r\n        b\r\nc";
    assert_eq!(span_source(text, 1, 2), "a\n    b");
    assert_eq!(span_source(text, 3, 3), "c");
}

#[test]
fn span_source_of_an_empty_range() {
    assert_eq!(span_source("a\nb\n", 2, 1), "");
}

#[test]
fn code_error_variants() {
    let e = CodeError::FileNotFound;
    assert!(matches!(e, CodeError::FileNotFound));
    let e = CodeError::Io(std::io::Error::new(std::io::ErrorKind::Other, "x"));
    assert!(matches!(e, CodeError::Io(_)));
}

#[test]
fn code_error_messages() {
    assert_eq!(CodeError::FileNotFound.message(), "File was not found");
    let e = CodeError::Io(std::io::Error::new(std::io::ErrorKind::Other, "denied"));
    assert_eq!(e.message(), "IO Error: denied");
}

#[test]
fn a_shared_extra_indent_changes_nothing() {
    let lines = ["  fn a() {", "      x", "  }", ""];
    let shifted: Vec<String> = lines.iter().map(|l| format!("    {l}")).collect();
    let shifted_refs: Vec<&str> = shifted.iter().map(|s| s.as_str()).collect();
    assert_eq!(unindent_lines(&shifted_refs), unindent_lines(&lines));
}

#[test]
fn unindenting_the_text_again_changes_nothing() {
    let lines = ["    a", "", "        b"];
    let once = unindent_lines(&lines);
    let again: Vec<&str> = once.split('\n').collect();
    assert_eq!(unindent_lines(&again), once);
    let none: [&str; 0] = [];
    let empty = unindent_lines(&none);
    let again: Vec<&str> = empty.split('\n').collect();
    assert_eq!(unindent_lines(&again), empty);
}
