use sponge::sink::{close_requested, requests_close, WindowSignal};

#[test]
fn closing_and_escape_ask_to_close() {
    assert!(requests_close(WindowSignal::Closed));
    assert!(requests_close(WindowSignal::Escape));
    assert!(!requests_close(WindowSignal::Resized(640, 480)));
    assert!(!requests_close(WindowSignal::Other));
}

#[test]
fn no_signals_ask_for_nothing() {
    assert!(!close_requested(&Vec::new()));
}

#[test]
fn one_closing_signal_among_many_is_enough() {
    let quiet = vec![WindowSignal::Other, WindowSignal::Resized(1, 2), WindowSignal::Other];
    assert!(!close_requested(&quiet));
    let mut first = quiet.clone();
    first.insert(0, WindowSignal::Escape);
    assert!(close_requested(&first));
    let mut last = quiet.clone();
    last.push(WindowSignal::Closed);
    assert!(close_requested(&last));
    let mut middle = quiet;
    middle.insert(1, WindowSignal::Closed);
    assert!(close_requested(&middle));
}
