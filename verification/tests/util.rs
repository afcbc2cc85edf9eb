use pwmgr::command::prompt::read_answer;
use pwmgr::command::util::is_blank;

#[test]
fn blank_empty_and_spaces() {
    assert!(is_blank(""));
    assert!(is_blank("   "));
    assert!(is_blank("\u{3000}\u{3000}"));
    assert!(!is_blank("a"));
    assert!(!is_blank(" a "));
}

#[test]
fn blank_sees_tabs_and_line_ends() {
    assert!(is_blank("\t\n\r "));
    assert!(!is_blank("\t.\n"));
}

#[test]
fn answers_are_read_from_a_line() {
    assert!(read_answer("y", false));
    assert!(read_answer("yes", false));
    assert!(!read_answer("n", true));
    assert!(!read_answer("yess", true));
    assert!(read_answer("", true));
    assert!(!read_answer("", false));
}
