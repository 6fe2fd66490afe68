use bunbuntype::error::ErrorKind;
use bunbuntype::menu::Menu;
use bunbuntype::session::TypingSession;
use bunbuntype::session::TypingTestState;
use bunbuntype::shuffle::IdentityShuffler;
use bunbuntype::timer::Countdown;
use bunbuntype::timer::CountdownState;
use bunbuntype::words::WordQueue;

fn words(list: &[&str]) -> Vec<String> {
    list.iter().map(|w| w.to_string()).collect()
}

#[test]
fn test_queue_length_constant_over_commits() {
    let mut source = IdentityShuffler;
    let mut queue = WordQueue::new(words(&["one", "two", "three"]), &mut source).unwrap();
    assert_eq!(queue.len(), 3);
    for _ in 0..7 {
        queue.commit(&"whatever".to_string());
        assert_eq!(queue.len(), 3);
    }
}

#[test]
fn test_queue_recycles_judged_words() {
    let mut source = IdentityShuffler;
    let mut queue = WordQueue::new(words(&["one", "two"]), &mut source).unwrap();
    assert_eq!(queue.current(), "one");
    assert!(queue.commit(&"one".to_string()));
    assert_eq!(queue.current(), "two");
    assert!(!queue.commit(&"wrong".to_string()));
    assert_eq!(queue.current(), "one");
}

#[test]
fn test_empty_vocabulary_is_config_error() {
    let mut source = IdentityShuffler;
    assert!(matches!(
        WordQueue::new(Vec::new(), &mut source),
        Err(ErrorKind::ConfigError)
    ));
    assert!(matches!(
        TypingSession::new(Vec::new(), &mut source),
        Err(ErrorKind::ConfigError)
    ));
}

#[test]
fn test_countdown_clamps_at_zero() {
    let mut c = Countdown::new();
    assert_eq!(c.current_state(), CountdownState::Idle);
    c.start(5).unwrap();
    c.tick(3);
    assert_eq!(c.remaining(), 2);
    assert_eq!(c.current_state(), CountdownState::Running);
    c.tick(10);
    assert_eq!(c.remaining(), 0);
    assert_eq!(c.current_state(), CountdownState::Expired);
    // reaching zero is idempotent: further ticks change nothing
    c.tick(7);
    assert_eq!(c.remaining(), 0);
    assert_eq!(c.current_state(), CountdownState::Expired);
}

#[test]
fn test_countdown_rejects_zero_and_restart() {
    let mut c = Countdown::new();
    assert_eq!(c.start(0), Err(ErrorKind::DomainError));
    c.start(10).unwrap();
    assert_eq!(c.start(10), Err(ErrorKind::InvalidStateError));
}

#[test]
fn test_session_scenario_cat_dog() {
    let mut source = IdentityShuffler;
    let mut s = TypingSession::new(words(&["cat", "dog"]), &mut source).unwrap();
    s.start(60, &mut source).unwrap();

    s.type_character('c').unwrap();
    s.type_character('a').unwrap();
    s.type_character('t').unwrap();
    assert!(s.backspace_commit().unwrap());
    assert_eq!(s.queue_word_at(0), "dog");
    assert_eq!(s.queue_word_at(1), "cat");
    assert_eq!(s.correct_count(), 3);
    assert_eq!(s.incorrect_count(), 0);

    s.type_character('d').unwrap();
    s.type_character('i').unwrap();
    s.type_character('g').unwrap();
    assert!(!s.backspace_commit().unwrap());
    assert_eq!(s.queue_word_at(0), "cat");
    assert_eq!(s.queue_word_at(1), "dog");
    assert_eq!(s.correct_count(), 3);
    assert_eq!(s.incorrect_count(), 3);
}

#[test]
fn test_whitespace_abandons_attempt() {
    let mut source = IdentityShuffler;
    let mut s = TypingSession::new(words(&["cat"]), &mut source).unwrap();
    s.start(60, &mut source).unwrap();
    s.type_character('x').unwrap();
    assert_eq!(s.buffer_chars().len(), 1);
    s.type_character(' ').unwrap();
    assert_eq!(s.buffer_chars().len(), 0);
    // the abandoned buffer was not judged
    assert_eq!(s.correct_count(), 0);
    assert_eq!(s.incorrect_count(), 0);
}

#[test]
fn test_unicode_whitespace_abandons_attempt() {
    // Vertical tab, no-break space and ideographic space are whitespace too:
    // each clears the buffer instead of joining it.
    for ws in ['\u{0b}', '\u{a0}', '\u{3000}', '\u{2003}', '\u{85}'] {
        assert!(ws.is_whitespace());
        let mut source = IdentityShuffler;
        let mut s = TypingSession::new(words(&["cat"]), &mut source).unwrap();
        s.start(60, &mut source).unwrap();
        s.type_character('c').unwrap();
        s.type_character(ws).unwrap();
        assert_eq!(s.buffer_chars().len(), 0);
        assert_eq!(s.correct_count(), 0);
        assert_eq!(s.incorrect_count(), 0);
    }
}

#[test]
fn test_finished_session_is_frozen() {
    let mut source = IdentityShuffler;
    let mut s = TypingSession::new(words(&["cat"]), &mut source).unwrap();
    s.start(2, &mut source).unwrap();
    s.type_character('c').unwrap();
    s.type_character('a').unwrap();
    s.type_character('t').unwrap();
    s.backspace_commit().unwrap();
    s.on_tick(5);
    assert_eq!(s.session_state(), TypingTestState::End);
    assert_eq!(s.remaining(), 0);

    // every mutating call is rejected and the counters stay put
    assert_eq!(s.type_character('x'), Err(ErrorKind::InvalidStateError));
    assert_eq!(s.backspace_commit(), Err(ErrorKind::InvalidStateError));
    assert_eq!(s.start(10, &mut source), Err(ErrorKind::InvalidStateError));
    assert_eq!(s.correct_count(), 3);
    assert_eq!(s.incorrect_count(), 0);

    let record = s.result().unwrap();
    // 3 characters over 2 seconds: 12000 * 3 / 2 = 18000 milli
    assert_eq!(record.wpm_milli, 18000);
    assert_eq!(record.accuracy_milli, 1000);
    assert_eq!(record.awpm_milli, 18000);
    assert_eq!(record.duration_milli, 2000);
}

#[test]
fn test_untyped_session_yields_no_record() {
    let mut source = IdentityShuffler;
    let mut s = TypingSession::new(words(&["cat"]), &mut source).unwrap();
    s.start(2, &mut source).unwrap();
    s.on_tick(2);
    assert_eq!(s.session_state(), TypingTestState::End);
    assert!(s.result().is_none());
}

#[test]
fn test_session_start_guards() {
    let mut source = IdentityShuffler;
    let mut s = TypingSession::new(words(&["cat"]), &mut source).unwrap();
    assert_eq!(s.start(0, &mut source), Err(ErrorKind::DomainError));
    s.start(60, &mut source).unwrap();
    assert_eq!(s.start(60, &mut source), Err(ErrorKind::InvalidStateError));
}

#[test]
fn test_tick_before_expiry_keeps_running() {
    let mut source = IdentityShuffler;
    let mut s = TypingSession::new(words(&["cat"]), &mut source).unwrap();
    s.start(10, &mut source).unwrap();
    s.on_tick(4);
    assert_eq!(s.session_state(), TypingTestState::Running);
    assert_eq!(s.remaining(), 6);
    assert!(s.result().is_none());
}

#[test]
fn test_menu_wraps_both_ways() {
    let mut m = Menu::new(2);
    assert_eq!(m.selected(), None);
    m.down();
    assert_eq!(m.selected(), Some(0));
    m.down();
    assert_eq!(m.selected(), Some(1));
    m.down();
    assert_eq!(m.selected(), Some(0));
    m.up();
    assert_eq!(m.selected(), Some(1));
    m.up();
    assert_eq!(m.selected(), Some(0));
}
