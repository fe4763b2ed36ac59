use std::sync::Arc;

use chopper::controls::Controls;
use chopper::engine::{Command, Sequencer};
use chopper::Note;
use chopper::SharedState;

fn step_of(cmd: Command) -> (usize, Option<Note>) {
    match cmd {
        Command::SetStep(i, v) => (i, v),
        _ => panic!("expected a step edit"),
    }
}

#[test]
fn controls_start_at_defaults() {
    let c = Controls::new();
    assert_eq!(c.selected_slice(), 0);
    assert_eq!(c.octave(), 0);
    assert!(c.playing());
    assert!(!c.recording());
}

#[test]
fn octave_is_clamped() {
    let mut c = Controls::new();
    for _ in 0..10 {
        c.octave_up();
    }
    assert_eq!(c.octave(), 3);
    for _ in 0..10 {
        c.octave_down();
    }
    assert_eq!(c.octave(), -3);
    c.octave_up();
    assert_eq!(c.octave(), -2);
}

#[test]
fn pad_hit_selects_and_transposes() {
    let mut c = Controls::new();
    c.octave_up();
    c.octave_up();
    match c.trigger_pad(5) {
        Command::Trigger(n) => assert_eq!(n, Note { slice: 5, semis: 24 }),
        _ => panic!("expected a trigger"),
    }
    assert_eq!(c.selected_slice(), 5);
    c.octave_down();
    c.octave_down();
    c.octave_down();
    assert_eq!(c.pad_note(2), Note { slice: 2, semis: -12 });
}

#[test]
fn toggles_send_new_state() {
    let mut c = Controls::new();
    assert!(matches!(c.toggle_playing(), Command::Play(false)));
    assert!(matches!(c.toggle_playing(), Command::Play(true)));
    assert!(matches!(c.toggle_recording(), Command::Record(true)));
    assert!(c.recording());
}

#[test]
fn click_fills_empty_and_clears_filled() {
    let mut c = Controls::new();
    c.trigger_pad(7);
    c.octave_down();
    assert_eq!(step_of(c.click_step(4, None)), (4, Some(Note { slice: 7, semis: -12 })));
    assert_eq!(step_of(c.click_step(4, Some(Note { slice: 1, semis: 0 }))), (4, None));
}

#[test]
fn click_twice_toggles_back() {
    let c = Controls::new();
    let mut seq = Sequencer::new(vec![(0, 10)], SharedState::new());
    let cmd = c.click_step(6, seq.pattern()[6]);
    seq.apply(cmd, false);
    assert_eq!(seq.pattern()[6], Some(Note { slice: 0, semis: 0 }));
    let cmd = c.click_step(6, seq.pattern()[6]);
    seq.apply(cmd, false);
    assert_eq!(seq.pattern(), [None; 16]);
}

#[test]
fn scroll_moves_pitch_within_range() {
    let c = Controls::new();
    let n = Note { slice: 3, semis: 23 };
    assert_eq!(step_of(c.scroll_step(2, Some(n), true).unwrap()), (2, Some(Note { slice: 3, semis: 24 })));
    let n = Note { slice: 3, semis: 24 };
    assert_eq!(step_of(c.scroll_step(2, Some(n), true).unwrap()), (2, Some(Note { slice: 3, semis: 24 })));
    let n = Note { slice: 3, semis: -24 };
    assert_eq!(step_of(c.scroll_step(2, Some(n), false).unwrap()), (2, Some(Note { slice: 3, semis: -24 })));
    let n = Note { slice: 3, semis: 36 };
    assert_eq!(step_of(c.scroll_step(2, Some(n), false).unwrap()), (2, Some(Note { slice: 3, semis: 24 })));
    assert!(c.scroll_step(2, None, true).is_none());
}

#[test]
fn recorded_pad_hit_lands_in_pattern() {
    let shared = SharedState::new();
    let mut seq = Sequencer::new(vec![(0, 10); 16], Arc::clone(&shared));
    let mut c = Controls::new();
    seq.apply(c.toggle_recording(), false);
    c.octave_up();
    seq.fire_step();
    seq.fire_step();
    seq.fire_step();
    let cmd = c.trigger_pad(9);
    seq.apply(cmd, false);
    assert_eq!(seq.pattern()[2], Some(Note { slice: 9, semis: 12 }));
    assert_eq!(seq.pattern().iter().filter(|s| s.is_some()).count(), 1);
}
