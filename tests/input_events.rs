use rff::input::{next_action, Action, InputEvent, InputReader, KeyCode, KeyPress};

fn key(code: KeyCode, ctrl: bool) -> KeyPress {
    KeyPress { code, ctrl }
}

#[test]
fn interpret_poll_results() {
    let r = InputReader::new();
    assert_eq!(r.interpret(false, None), Some(InputEvent::Tick));
    assert_eq!(r.interpret(true, None), None);
    assert_eq!(r.interpret(true, Some(key(KeyCode::Enter, false))), Some(InputEvent::Enter));
    assert_eq!(r.interpret(true, Some(key(KeyCode::Esc, false))), Some(InputEvent::Esc));
    assert_eq!(
        r.interpret(true, Some(key(KeyCode::Backspace, false))),
        Some(InputEvent::Backspace)
    );
    let a = key(KeyCode::Char('a'), false);
    assert_eq!(r.interpret(true, Some(a)), Some(InputEvent::Key(a)));
}

#[test]
fn navigation_actions() {
    let down = InputEvent::Key(key(KeyCode::Char('j'), true));
    let up = InputEvent::Key(key(KeyCode::Char('k'), true));
    assert_eq!(next_action(down, 0, 3), Action::Select(1));
    assert_eq!(next_action(down, 2, 3), Action::Select(2));
    assert_eq!(next_action(down, 0, 0), Action::Stay);
    assert_eq!(next_action(up, 2, 3), Action::Select(1));
    assert_eq!(next_action(up, 0, 3), Action::Select(0));
}

#[test]
fn query_and_exit_actions() {
    assert_eq!(next_action(InputEvent::Key(key(KeyCode::Char('j'), false)), 0, 3), Action::Push('j'));
    assert_eq!(next_action(InputEvent::Backspace, 0, 3), Action::Pop);
    assert_eq!(next_action(InputEvent::Enter, 1, 3), Action::Open(1));
    assert_eq!(next_action(InputEvent::Enter, 0, 0), Action::Quit);
    assert_eq!(next_action(InputEvent::Esc, 0, 3), Action::Quit);
    assert_eq!(next_action(InputEvent::Tick, 0, 3), Action::Stay);
    assert_eq!(next_action(InputEvent::Key(key(KeyCode::Other, false)), 0, 3), Action::Stay);
}
