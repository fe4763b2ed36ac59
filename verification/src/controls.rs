use vstd::prelude::*;

use crate::engine::Command;
use crate::note::Note;

verus! {

/// Lowest and highest octave shift of the pads.
pub const MIN_OCTAVE: i8 = -3;
pub const MAX_OCTAVE: i8 = 3;

/// Widest transposition a step reaches by scrolling, either way.
pub const MAX_STEP_SEMIS: i8 = 24;

/// `x` clamped into `lo ..= hi`.
pub open spec fn clamp(x: int, lo: int, hi: int) -> int {
    if x < lo {
        lo
    } else if x > hi {
        hi
    } else {
        x
    }
}

/// The interface's own settings: the selected slice, the octave shift of the
/// pads and the transport flags it shows.
pub struct Controls {
    selected_slice: u8,
    octave: i8,
    playing: bool,
    recording: bool,
}

impl Controls {
    pub closed spec fn selected_view(&self) -> u8 {
        self.selected_slice
    }

    pub closed spec fn octave_view(&self) -> int {
        self.octave as int
    }

    pub closed spec fn playing_view(&self) -> bool {
        self.playing
    }

    pub closed spec fn recording_view(&self) -> bool {
        self.recording
    }

    /// The octave shift stays within `MIN_OCTAVE ..= MAX_OCTAVE`.
    pub open spec fn wf(&self) -> bool {
        MIN_OCTAVE <= self.octave_view() <= MAX_OCTAVE
    }

    /// The note a pad plays: its slice, shifted by whole octaves.
    pub open spec fn pad_note_of(&self, idx: u8) -> Note {
        Note { slice: idx, semis: (self.octave_view() * 12) as i8 }
    }

    /// What a left click on a step sends: a filled step is cleared, an empty
    /// one gets the selected slice at the current octave.
    pub open spec fn click_command(&self, step: usize, current: Option<Note>) -> Command {
        Command::SetStep(
            step,
            if current is Some {
                None
            } else {
                Some(self.pad_note_of(self.selected_view()))
            },
        )
    }

    /// Settings at start: slice 0, octave 0, playing, not recording.
    pub fn new() -> (c: Self)
        ensures
            c.wf(),
            c.selected_view() == 0,
            c.octave_view() == 0,
            c.playing_view(),
            !c.recording_view(),
    {
        Controls { selected_slice: 0, octave: 0, playing: true, recording: false }
    }

    pub fn selected_slice(&self) -> (s: u8)
        ensures
            s == self.selected_view(),
    {
        self.selected_slice
    }

    pub fn octave(&self) -> (o: i8)
        ensures
            o == self.octave_view(),
    {
        self.octave
    }

    pub fn playing(&self) -> (b: bool)
        ensures
            b == self.playing_view(),
    {
        self.playing
    }

    pub fn recording(&self) -> (b: bool)
        ensures
            b == self.recording_view(),
    {
        self.recording
    }

    /// The note that pad `idx` plays at the current octave.
    pub fn pad_note(&self, idx: u8) -> (n: Note)
        requires
            self.wf(),
        ensures
            n == self.pad_note_of(idx),
            n.slice == idx,
            n.semis == 12 * self.octave_view(),
            -36 <= n.semis <= 36,
    {
        Note { slice: idx, semis: self.octave * 12 }
    }

    /// Hitting pad `idx` selects its slice and plays it.
    pub fn trigger_pad(&mut self, idx: u8) -> (cmd: Command)
        requires
            old(self).wf(),
        ensures
            final(self).wf(),
            final(self).selected_view() == idx,
            final(self).octave_view() == old(self).octave_view(),
            final(self).playing_view() == old(self).playing_view(),
            final(self).recording_view() == old(self).recording_view(),
            cmd == Command::Trigger(old(self).pad_note_of(idx)),
            cmd matches Command::Trigger(n) && n.slice == idx && n.semis == 12 * old(self).octave_view(),
    {
        self.selected_slice = idx;
        Command::Trigger(self.pad_note(idx))
    }

    /// One octave up, no higher than `MAX_OCTAVE`.
    pub fn octave_up(&mut self)
        requires
            old(self).wf(),
        ensures
            final(self).wf(),
            final(self).octave_view() == clamp(old(self).octave_view() + 1, MIN_OCTAVE as int, MAX_OCTAVE as int),
            final(self).selected_view() == old(self).selected_view(),
            final(self).playing_view() == old(self).playing_view(),
            final(self).recording_view() == old(self).recording_view(),
    {
        if self.octave < MAX_OCTAVE {
            self.octave = self.octave + 1;
        }
    }

    /// One octave down, no lower than `MIN_OCTAVE`.
    pub fn octave_down(&mut self)
        requires
            old(self).wf(),
        ensures
            final(self).wf(),
            final(self).octave_view() == clamp(old(self).octave_view() - 1, MIN_OCTAVE as int, MAX_OCTAVE as int),
            final(self).selected_view() == old(self).selected_view(),
            final(self).playing_view() == old(self).playing_view(),
            final(self).recording_view() == old(self).recording_view(),
    {
        if self.octave > MIN_OCTAVE {
            self.octave = self.octave - 1;
        }
    }

    /// Starts or stops the transport.
    pub fn toggle_playing(&mut self) -> (cmd: Command)
        requires
            old(self).wf(),
        ensures
            final(self).wf(),
            final(self).playing_view() == !old(self).playing_view(),
            final(self).selected_view() == old(self).selected_view(),
            final(self).octave_view() == old(self).octave_view(),
            final(self).recording_view() == old(self).recording_view(),
            cmd == Command::Play(final(self).playing_view()),
    {
        self.playing = !self.playing;
        Command::Play(self.playing)
    }

    /// Turns record mode on or off.
    pub fn toggle_recording(&mut self) -> (cmd: Command)
        requires
            old(self).wf(),
        ensures
            final(self).wf(),
            final(self).recording_view() == !old(self).recording_view(),
            final(self).selected_view() == old(self).selected_view(),
            final(self).octave_view() == old(self).octave_view(),
            final(self).playing_view() == old(self).playing_view(),
            cmd == Command::Record(final(self).recording_view()),
    {
        self.recording = !self.recording;
        Command::Record(self.recording)
    }

    /// A left click on `step`, which holds `current`.
    pub fn click_step(&self, step: usize, current: Option<Note>) -> (cmd: Command)
        requires
            self.wf(),
        ensures
            cmd == self.click_command(step, current),
    {
        match current {
            Some(_) => Command::SetStep(step, None),
            None => Command::SetStep(step, Some(self.pad_note(self.selected_slice))),
        }
    }

    /// A scroll over `step`, which holds `current`: a filled step moves one
    /// semitone up or down, kept within `-MAX_STEP_SEMIS ..= MAX_STEP_SEMIS`;
    /// an empty step is left alone.
    pub fn scroll_step(&self, step: usize, current: Option<Note>, up: bool) -> (cmd: Option<Command>)
        ensures
            match current {
                Some(n) => cmd == Some(
                    Command::SetStep(
                        step,
                        Some(
                            Note {
                                slice: n.slice,
                                semis: clamp(
                                    n.semis + (if up { 1int } else { -1int }),
                                    -MAX_STEP_SEMIS as int,
                                    MAX_STEP_SEMIS as int,
                                ) as i8,
                            },
                        ),
                    ),
                ),
                None => cmd is None,
            },
            cmd matches Some(Command::SetStep(_, Some(m))) ==> -MAX_STEP_SEMIS <= m.semis
                <= MAX_STEP_SEMIS,
    {
        match current {
            Some(n) => {
                let moved: i16 = if up { n.semis as i16 + 1 } else { n.semis as i16 - 1 };
                let semis: i8 = if moved < -(MAX_STEP_SEMIS as i16) {
                    -MAX_STEP_SEMIS
                } else if moved > MAX_STEP_SEMIS as i16 {
                    MAX_STEP_SEMIS
                } else {
                    moved as i8
                };
                Some(Command::SetStep(step, Some(Note { slice: n.slice, semis })))
            },
            None => None,
        }
    }
}

} // verus!
