use nerva::repl::{apply_reply, submit_line, trim_str, TurnAction};
use nerva::session::{Role, Session};
use nerva::transport::TransportError;

#[test]
fn trim_drops_surrounding_whitespace() {
    assert_eq!(trim_str("  hi  "), "hi");
    assert_eq!(trim_str("\u{a0}hi\u{3000}"), "hi");
    assert_eq!(trim_str("\u{2003}\u{85}word\u{2028}"), "word");
    assert_eq!(trim_str("\t hello\n"), "hello");
    assert_eq!(trim_str(" \t\r\n"), "");
    assert_eq!(trim_str(""), "");
    assert_eq!(trim_str("word"), "word");
}

#[test]
fn exit_sentinels_end_the_loop_without_appending() {
    for line in ["quit", "exit", "QUIT", "eXiT", "  quit  ", "\tExit\n", "quit\u{a0}", "\u{2007}exit"] {
        let mut sess = Session::with_system("sys".to_string());
        let a = submit_line(&mut sess, line);
        assert_eq!(a, TurnAction::Exit);
        assert_eq!(sess.len(), 1);
    }
}

#[test]
fn blank_lines_append_nothing() {
    for line in ["", "   ", "\t", " \r\n ", "\u{a0}", "\u{a0}\u{2003}\u{200a}", "\u{1680}\u{205f}"] {
        let mut sess = Session::with_system("sys".to_string());
        let a = submit_line(&mut sess, line);
        assert_eq!(a, TurnAction::Prompt);
        assert_eq!(sess.len(), 1);
    }
}

#[test]
fn a_real_line_appends_exactly_one_user_message() {
    let mut sess = Session::with_system("sys".to_string());
    let a = submit_line(&mut sess, "  hello there  ");
    assert_eq!(a, TurnAction::Send);
    assert_eq!(sess.len(), 2);
    let msgs = sess.snapshot();
    assert_eq!(msgs[1].role, Role::User);
    assert_eq!(msgs[1].content, "hello there");
}

#[test]
fn unicode_whitespace_is_trimmed_from_a_turn() {
    let mut sess = Session::new();
    let a = submit_line(&mut sess, "\u{a0}hello\u{2028}");
    assert_eq!(a, TurnAction::Send);
    assert_eq!(sess.len(), 1);
    assert_eq!(sess.snapshot()[0].content, "hello");
}

#[test]
fn near_sentinels_are_ordinary_lines() {
    for line in ["quitt", "exits", "qui", "quit now"] {
        let mut sess = Session::new();
        let a = submit_line(&mut sess, line);
        assert_eq!(a, TurnAction::Send);
        assert_eq!(sess.len(), 1);
    }
}

#[test]
fn successful_reply_appended_raw_and_shown_cleaned() {
    let mut sess = Session::with_system("sys".to_string());
    submit_line(&mut sess, "question");
    let shown = apply_reply(&mut sess, Ok("<think>why</think>answer".to_string()));
    assert_eq!(shown, "answer");
    assert_eq!(sess.len(), 3);
    let msgs = sess.snapshot();
    assert_eq!(msgs[2].role, Role::Assistant);
    assert_eq!(msgs[2].content, "<think>why</think>answer");
}

#[test]
fn failed_reply_leaves_the_user_turn_dangling() {
    let mut sess = Session::with_system("sys".to_string());
    submit_line(&mut sess, "question");
    assert_eq!(sess.len(), 2);
    let shown = apply_reply(&mut sess, Err(TransportError::BadStatus(404)));
    assert_eq!(shown, "API request failed: 404");
    assert_eq!(sess.len(), 2);
    assert_eq!(sess.snapshot()[1].role, Role::User);
}

#[test]
fn session_starts_with_its_system_prompt() {
    let sess = Session::with_system("be helpful".to_string());
    assert_eq!(sess.len(), 1);
    assert_eq!(sess.snapshot()[0].role, Role::System);
    assert_eq!(sess.snapshot()[0].content, "be helpful");
}

#[test]
fn interpreting_a_response_touches_no_session() {
    let mut sess = Session::with_system("sys".to_string());
    submit_line(&mut sess, "question");
    let before = sess.len();
    let outcome = nerva::transport::interpret_response(503, "irrelevant");
    assert_eq!(outcome, Err(TransportError::BadStatus(503)));
    assert_eq!(sess.len(), before);
}
