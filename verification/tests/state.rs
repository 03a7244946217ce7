use pulse_outputs::app::{
    clamp, clamped_subtraction, App, Config, Poll, Violation, VISIBLE_MESSAGES,
};
use pulse_outputs::cmds::{Cmd, KeyCode, KeyEvent, KeyEventKind};

fn press(code: KeyCode) -> KeyEvent {
    KeyEvent { code, kind: KeyEventKind::Press }
}

fn key(code: KeyCode) -> Cmd {
    Cmd::KeyPress(press(code))
}

fn fresh() -> App {
    App::new(Config::default())
}

#[test]
fn clamped_subtraction_subtracts() {
    assert_eq!(clamped_subtraction(10, 3), 7);
    assert_eq!(clamped_subtraction(3, 3), 0);
    assert_eq!(clamped_subtraction(usize::MAX, 1), usize::MAX - 1);
}

#[test]
fn clamped_subtraction_stops_at_zero() {
    assert_eq!(clamped_subtraction(3, 10), 0);
    assert_eq!(clamped_subtraction(0, 1), 0);
    assert_eq!(clamped_subtraction(0, usize::MAX), 0);
}

#[test]
fn clamp_gives_nothing_back() {
    assert_eq!(clamp(5, 10, 0), ());
    assert_eq!(clamp(50, 10, 0), ());
}

#[test]
fn default_config_ticks_once_a_second() {
    assert_eq!(Config::default().tick_millis, 1000);
}

#[test]
fn new_app_starts_with_one_source_and_one_message() {
    let app = App::new(Config { tick_millis: 250 });
    assert_eq!(app.counter(), 1);
    assert!(app.is_idle());
    assert!(!app.wants_exit());
    assert!(!app.should_exit());
    assert!(app.sources().is_empty());
    assert_eq!(app.messages(), &vec!["App initialized".to_string()]);
    assert_eq!(app.config(), Config { tick_millis: 250 });
}

#[test]
fn default_app_is_a_new_app_with_the_default_config() {
    let app = App::default();
    assert_eq!(app.config(), Config::default());
    assert_eq!(app.counter(), 1);
    assert!(app.is_idle());
    assert!(!app.wants_exit());
    assert!(!app.should_exit());
    assert!(app.sources().is_empty());
    assert_eq!(app.messages(), &vec!["App initialized".to_string()]);
}

#[test]
fn left_at_zero_leaves_zero_and_right_gives_one() {
    let mut app = fresh();
    assert_eq!(app.handle_cmd(key(KeyCode::Left)), Ok(None));
    assert_eq!(app.counter(), 0);
    assert_eq!(app.handle_cmd(key(KeyCode::Left)), Ok(None));
    assert_eq!(app.counter(), 0);
    assert_eq!(app.handle_cmd(key(KeyCode::Right)), Ok(None));
    assert_eq!(app.counter(), 1);
}

#[test]
fn counter_follows_a_run_of_arrows() {
    let mut app = fresh();
    let codes = [
        KeyCode::Left,
        KeyCode::Left,
        KeyCode::Left,
        KeyCode::Right,
        KeyCode::Right,
        KeyCode::Left,
        KeyCode::Left,
        KeyCode::Left,
        KeyCode::Right,
        KeyCode::Right,
        KeyCode::Right,
    ];
    let expected = [0, 0, 0, 1, 2, 1, 0, 0, 1, 2, 3];
    for (code, counter) in codes.iter().zip(expected) {
        assert_eq!(app.handle_key_event(press(*code)), None);
        assert_eq!(app.counter(), counter);
    }
}

#[test]
fn counter_has_no_ceiling_of_its_own() {
    let mut app = fresh();
    app.decrement_counter();
    for expected in 1..=1000usize {
        app.increment_counter();
        assert_eq!(app.counter(), expected);
    }
    assert_eq!(app.update(Poll::Message(key(KeyCode::Right))), Ok(None));
    assert_eq!(app.counter(), 1001);
    assert_eq!(app.sources().len(), 1001);
    assert_eq!(app.render().counter, 1001);
    for expected in (0..1001usize).rev() {
        app.decrement_counter();
        assert_eq!(app.counter(), expected);
    }
    app.decrement_counter();
    assert_eq!(app.counter(), 0);
}

#[test]
fn counter_passes_the_width_of_a_byte() {
    let mut app = fresh();
    for _ in 0..300 {
        assert_eq!(app.handle_cmd(key(KeyCode::Right)), Ok(None));
    }
    assert_eq!(app.counter(), 301);
}

#[test]
fn other_keys_leave_the_state_alone() {
    let mut app = fresh();
    for code in [KeyCode::Other, KeyCode::Char('x'), KeyCode::Char('Q')] {
        assert_eq!(app.handle_key_event(press(code)), None);
    }
    assert_eq!(app.counter(), 1);
    assert!(app.is_idle());
    assert!(!app.wants_exit());
    assert_eq!(app.messages().len(), 1);
}

#[test]
fn idle_key_turns_the_flag_over() {
    let mut app = fresh();
    assert_eq!(app.handle_key_event(press(KeyCode::Char('i'))), None);
    assert!(!app.is_idle());
    assert_eq!(app.handle_key_event(press(KeyCode::Char('i'))), None);
    assert!(app.is_idle());
}

#[test]
fn message_key_logs_a_line() {
    let mut app = fresh();
    assert_eq!(app.handle_key_event(press(KeyCode::Char('m'))), None);
    assert_eq!(
        app.messages(),
        &vec!["App initialized".to_string(), "Pressed a key".to_string()]
    );
}

#[test]
fn quit_key_asks_the_worker_to_terminate() {
    let mut app = fresh();
    assert_eq!(app.handle_key_event(press(KeyCode::Char('q'))), Some(Cmd::Terminate));
    assert!(app.wants_exit());
    assert!(!app.should_exit());
}

#[test]
fn exit_notes_the_wish_and_gives_the_request() {
    let mut app = fresh();
    assert_eq!(app.exit(), Cmd::Terminate);
    assert!(app.wants_exit());
    assert!(!app.should_exit());
}

#[test]
fn z_key_asks_the_worker_to_terminate() {
    let mut app = fresh();
    assert_eq!(app.handle_key_event(press(KeyCode::Char('z'))), Some(Cmd::Terminate));
    assert!(app.wants_exit());
    assert!(!app.should_exit());
}

#[test]
fn terminate_and_worker_up_change_nothing() {
    let mut app = fresh();
    assert_eq!(app.handle_cmd(Cmd::Terminate), Ok(None));
    assert_eq!(app.handle_cmd(Cmd::IsUp), Ok(None));
    assert_eq!(app.counter(), 1);
    assert!(!app.wants_exit());
    assert!(!app.should_exit());
    assert_eq!(app.messages().len(), 1);
}

#[test]
fn text_goes_to_the_log() {
    let mut app = fresh();
    assert_eq!(app.handle_cmd(Cmd::Msg("hello".to_string())), Ok(None));
    assert_eq!(app.messages(), &vec!["App initialized".to_string(), "hello".to_string()]);
}

#[test]
fn worker_down_after_quit_ends_the_dashboard() {
    let mut app = fresh();
    assert_eq!(app.handle_cmd(key(KeyCode::Char('q'))), Ok(Some(Cmd::Terminate)));
    assert_eq!(app.handle_cmd(Cmd::IsDown), Ok(None));
    assert!(app.should_exit());
    assert_eq!(
        app.messages(),
        &vec!["App initialized".to_string(), "Pipewire went down properly".to_string()]
    );
}

#[test]
fn worker_down_unasked_is_a_violation() {
    let mut app = fresh();
    assert_eq!(app.handle_cmd(Cmd::IsDown), Err(Violation::UnexpectedDown));
    assert!(!app.should_exit());
    assert_eq!(app.messages().len(), 1);
}

#[test]
fn worker_down_after_z_ends_the_dashboard() {
    let mut app = fresh();
    assert_eq!(app.update(Poll::Message(key(KeyCode::Char('z')))), Ok(Some(Cmd::Terminate)));
    assert_eq!(app.update(Poll::Message(Cmd::IsDown)), Ok(None));
    assert!(app.should_exit());
}

#[test]
fn exit_comes_on_worker_down_after_a_request_and_on_nothing_else() {
    let others = || {
        vec![
            Cmd::Terminate,
            Cmd::IsUp,
            key(KeyCode::Char('q')),
            key(KeyCode::Char('z')),
            key(KeyCode::Right),
            Cmd::Msg("x".to_string()),
        ]
    };
    for cmd in others() {
        let mut app = fresh();
        assert!(app.handle_cmd(cmd).is_ok());
        assert!(!app.should_exit());
    }
    for cmd in others() {
        let mut app = fresh();
        assert_eq!(app.exit(), Cmd::Terminate);
        assert!(app.handle_cmd(cmd).is_ok());
        assert!(!app.should_exit());
    }
    let mut app = fresh();
    assert_eq!(app.handle_cmd(Cmd::IsDown), Err(Violation::UnexpectedDown));
    assert!(!app.should_exit());
    assert_eq!(app.exit(), Cmd::Terminate);
    assert_eq!(app.handle_cmd(Cmd::IsDown), Ok(None));
    assert!(app.should_exit());
}

#[test]
fn timeout_only_works_the_sources_out() {
    let mut app = fresh();
    assert_eq!(app.update(Poll::Timeout), Ok(None));
    assert_eq!(app.sources(), &vec![0]);
    assert_eq!(app.counter(), 1);
    assert_eq!(app.messages().len(), 1);
    assert!(!app.should_exit());
}

#[test]
fn closed_bus_is_a_violation() {
    let mut app = fresh();
    assert_eq!(app.update(Poll::Closed), Err(Violation::BusClosed));
    assert!(app.sources().is_empty());
    assert!(!app.should_exit());
}

#[test]
fn update_sizes_the_sources_by_the_counter() {
    let mut app = fresh();
    for _ in 0..3 {
        assert_eq!(app.update(Poll::Message(key(KeyCode::Right))), Ok(None));
    }
    assert_eq!(app.counter(), 4);
    assert_eq!(app.sources(), &vec![0, 1, 2, 3]);
    for _ in 0..6 {
        assert_eq!(app.update(Poll::Message(key(KeyCode::Left))), Ok(None));
    }
    assert_eq!(app.counter(), 0);
    assert!(app.sources().is_empty());
}

#[test]
fn a_whole_session_ends_cleanly() {
    let mut app = fresh();
    let polls = vec![
        Poll::Message(Cmd::IsUp),
        Poll::Timeout,
        Poll::Message(key(KeyCode::Right)),
        Poll::Message(Cmd::Msg("a source appeared".to_string())),
        Poll::Message(key(KeyCode::Char('q'))),
        Poll::Timeout,
        Poll::Message(Cmd::IsDown),
    ];
    let mut sent = Vec::new();
    for poll in polls {
        assert!(!app.should_exit());
        if let Some(cmd) = app.update(poll).unwrap() {
            sent.push(cmd);
        }
    }
    assert!(app.should_exit());
    assert_eq!(sent, vec![Cmd::Terminate]);
    assert_eq!(app.counter(), 2);
    assert_eq!(app.sources(), &vec![0, 1]);
    assert_eq!(
        app.messages(),
        &vec![
            "App initialized".to_string(),
            "a source appeared".to_string(),
            "Pipewire went down properly".to_string()
        ]
    );
}

#[test]
fn render_shows_a_short_log_whole() {
    let mut app = fresh();
    assert_eq!(app.update(Poll::Message(Cmd::Msg("one".to_string()))), Ok(None));
    let model = app.render();
    assert_eq!(model.messages, vec!["App initialized".to_string(), "one".to_string()]);
    assert_eq!(model.sources, vec![0]);
    assert_eq!(model.counter, 1);
}

#[test]
fn render_shows_the_newest_of_a_long_log() {
    let mut app = fresh();
    for n in 1..20 {
        assert_eq!(app.handle_cmd(Cmd::Msg(format!("line {}", n))), Ok(None));
    }
    assert_eq!(app.messages().len(), 20);
    let model = app.render();
    assert_eq!(model.messages.len(), VISIBLE_MESSAGES + 1);
    let expected: Vec<String> = (11..20).map(|n| format!("line {}", n)).collect();
    assert_eq!(model.messages, expected);
}

#[test]
fn render_window_fills_before_it_moves() {
    let mut app = fresh();
    for n in 1..9 {
        assert_eq!(app.handle_cmd(Cmd::Msg(format!("line {}", n))), Ok(None));
    }
    assert_eq!(app.render().messages.len(), 9);
    assert_eq!(app.render().messages[0], "App initialized".to_string());
    assert_eq!(app.handle_cmd(Cmd::Msg("line 9".to_string())), Ok(None));
    assert_eq!(app.render().messages.len(), 9);
    assert_eq!(app.render().messages[0], "line 1".to_string());
}
