use adbc_cli::{classify_line, LineAction};

#[test]
fn blank_lines_are_skipped() {
    assert!(matches!(classify_line(""), LineAction::Skip));
    assert!(matches!(classify_line("  \n"), LineAction::Skip));
}

#[test]
fn exit_and_quit_end_the_session() {
    assert!(matches!(classify_line("exit\n"), LineAction::Quit));
    assert!(matches!(classify_line("  quit  "), LineAction::Quit));
    assert!(matches!(classify_line("EXIT"), LineAction::Run(ref q) if q == "EXIT"));
}

#[test]
fn other_lines_are_trimmed_queries() {
    match classify_line("  select 1;\n") {
        LineAction::Run(q) => assert_eq!(q, "select 1;"),
        other => panic!("unexpected {:?}", other),
    }
    assert!(matches!(classify_line("exit now"), LineAction::Run(ref q) if q == "exit now"));
}
