use std::sync::Arc;

use vstd::prelude::*;

use crate::note::Note;
use crate::shared::SharedState;

verus! {

/// The step after `step`, wrapping round after the last one.
pub open spec fn next_step(step: int) -> int {
    (step + 1) % 16
}

/// The step before `step`, wrapping round before the first one.
pub open spec fn prev_step(step: int) -> int {
    (step + 15) % 16
}

/// The step a hit is recorded into. `step` is the next step due to sound; a hit
/// closer to it than to the step sounding now lands on it, any other hit lands
/// on the step sounding now.
pub open spec fn quantized_step(step: int, closer_to_next: bool) -> int {
    if closer_to_next {
        step
    } else {
        prev_step(step)
    }
}

/// `v` is the voice a new hit takes: the first idle voice, or voice 0 when all
/// of them are busy.
pub open spec fn allocated_voice(active: Seq<bool>, v: int) -> bool {
    &&& 0 <= v < active.len()
    &&& {
        ||| (!active[v] && forall|j: int| 0 <= j < v ==> #[trigger] active[j])
        ||| (v == 0 && forall|j: int| 0 <= j < active.len() ==> #[trigger] active[j])
    }
}

/// What playing `note` does to the voices: when the note names an existing
/// slice, the allocated voice starts on that slice, else nothing happens.
pub open spec fn voice_started(
    active: Seq<bool>,
    slices: Seq<(usize, usize)>,
    note: Note,
    started: Option<VoiceStart>,
    active_after: Seq<bool>,
) -> bool {
    if (note.slice as int) < slices.len() {
        &&& started matches Some(t)
        &&& allocated_voice(active, t.voice as int)
        &&& t.start == slices[note.slice as int].0
        &&& t.end == slices[note.slice as int].1
        &&& t.semis == note.semis
        &&& active_after == active.update(t.voice as int, true)
    } else {
        &&& started is None
        &&& active_after == active
    }
}

/// The empty pattern.
pub open spec fn empty_pattern() -> Seq<Option<Note>> {
    Seq::new(16, |i: int| None)
}

/// A voice to start: which voice, the slice bounds it plays, and its transposition.
#[derive(Clone, Copy, Debug, PartialEq, Eq, Structural)]
pub struct VoiceStart {
    pub voice: usize,
    pub start: usize,
    pub end: usize,
    pub semis: i8,
}

/// A change to the sequencer.
pub enum Command {
    SetPattern([Option<Note>; 16]),
    SetStep(usize, Option<Note>),
    Trigger(Note),
    Play(bool),
    Record(bool),
    Clear,
    LoadSlices(Vec<(usize, usize)>),
}

/// The decisions of the audio engine: the pattern, the step due next, the
/// transport flags, the slices of the sample and which voices are busy.
pub struct Sequencer {
    slices: Vec<(usize, usize)>,
    pattern: [Option<Note>; 16],
    active: [bool; 16],
    step: usize,
    playing: bool,
    recording: bool,
    shared: Arc<SharedState>,
    /// The pattern last handed to the shared state, if any.
    handed_pattern: Ghost<Option<Seq<Option<Note>>>>,
    /// The step last announced to the shared state, if any.
    handed_step: Ghost<Option<int>>,
}

impl Sequencer {
    pub closed spec fn pattern_view(&self) -> Seq<Option<Note>> {
        self.pattern@
    }

    pub closed spec fn active_view(&self) -> Seq<bool> {
        self.active@
    }

    pub closed spec fn slices_view(&self) -> Seq<(usize, usize)> {
        self.slices@
    }

    /// The step due to sound next.
    pub closed spec fn step_view(&self) -> int {
        self.step as int
    }

    pub closed spec fn playing_view(&self) -> bool {
        self.playing
    }

    pub closed spec fn recording_view(&self) -> bool {
        self.recording
    }

    /// The shared state that steps and pattern changes are published to.
    pub closed spec fn shared_view(&self) -> Arc<SharedState> {
        self.shared
    }

    /// The pattern last handed to the shared state for the interface, if any.
    pub closed spec fn handed_pattern_view(&self) -> Option<Seq<Option<Note>>> {
        self.handed_pattern@
    }

    /// The step last announced to the shared state as playing, if any.
    pub closed spec fn handed_step_view(&self) -> Option<int> {
        self.handed_step@
    }

    /// Nothing new has been handed to the shared state between `self` and `other`.
    pub open spec fn same_handed(&self, other: &Self) -> bool {
        &&& other.handed_pattern_view() == self.handed_pattern_view()
        &&& other.handed_step_view() == self.handed_step_view()
    }

    /// The step is a step of the pattern; pattern and voices have sixteen entries.
    pub open spec fn wf(&self) -> bool {
        &&& 0 <= self.step_view() < 16
        &&& self.pattern_view().len() == 16
        &&& self.active_view().len() == 16
    }

    /// Everything but the pattern and the busy voices is as in `self`.
    pub open spec fn same_settings(&self, other: &Self) -> bool {
        &&& other.shared_view() == self.shared_view()
        &&& other.step_view() == self.step_view()
        &&& other.slices_view() == self.slices_view()
        &&& other.playing_view() == self.playing_view()
        &&& other.recording_view() == self.recording_view()
    }

    /// A fresh sequencer over `slices`: empty pattern, all voices idle, step 0,
    /// playing, not recording.
    pub fn new(slices: Vec<(usize, usize)>, shared: Arc<SharedState>) -> (s: Self)
        ensures
            s.wf(),
            s.pattern_view() == empty_pattern(),
            s.active_view() == Seq::new(16, |i: int| false),
            s.slices_view() == slices@,
            s.step_view() == 0,
            s.playing_view(),
            !s.recording_view(),
            s.shared_view() == shared,
            s.handed_pattern_view() is None,
            s.handed_step_view() is None,
    {
        let s = Sequencer {
            slices,
            pattern: [None; 16],
            active: [false; 16],
            step: 0,
            playing: true,
            recording: false,
            shared,
            handed_pattern: Ghost(None),
            handed_step: Ghost(None),
        };
        assert(s.pattern@ =~= empty_pattern());
        assert(s.active@ =~= Seq::new(16, |i: int| false));
        s
    }

    /// Whether the transport is running.
    pub fn is_playing(&self) -> (b: bool)
        ensures
            b == self.playing_view(),
    {
        self.playing
    }

    /// The step due to sound next.
    pub fn step(&self) -> (n: usize)
        ensures
            n == self.step_view(),
    {
        self.step
    }

    /// The pattern as it stands.
    pub fn pattern(&self) -> (p: [Option<Note>; 16])
        ensures
            p@ == self.pattern_view(),
    {
        self.pattern
    }

    /// Whether record mode is on.
    pub fn is_recording(&self) -> (b: bool)
        ensures
            b == self.recording_view(),
    {
        self.recording
    }

    /// Whether voice `v` is sounding.
    pub fn is_active(&self, v: usize) -> (b: bool)
        requires
            self.wf(),
            v < 16,
        ensures
            b == self.active_view()[v as int],
    {
        self.active[v]
    }

    /// Marks voice `v` idle once it has played to the end of its slice.
    pub fn release(&mut self, v: usize)
        requires
            old(self).wf(),
            v < 16,
        ensures
            final(self).wf(),
            old(self).same_settings(final(self)),
            final(self).pattern_view() == old(self).pattern_view(),
            final(self).active_view() == old(self).active_view().update(v as int, false),
            old(self).same_handed(final(self)),
    {
        self.active[v] = false;
    }

    /// The step a hit is recorded into; `closer_to_next` says whether the hit
    /// came in the later half of the current step.
    pub fn nearest_step(&self, closer_to_next: bool) -> (n: usize)
        requires
            self.wf(),
        ensures
            n == quantized_step(self.step_view(), closer_to_next),
            n < 16,
    {
        if closer_to_next {
            self.step
        } else {
            (self.step + 15) % 16
        }
    }

    /// Starts a voice on the slice that `note` names, taking the first idle
    /// voice or, when all are busy, voice 0.
    fn trigger(&mut self, note: Note) -> (r: Option<VoiceStart>)
        requires
            old(self).wf(),
        ensures
            final(self).wf(),
            old(self).same_settings(final(self)),
            final(self).pattern_view() == old(self).pattern_view(),
            old(self).same_handed(final(self)),
            voice_started(old(self).active_view(), old(self).slices_view(), note, r, final(self).active_view()),
    {
        let idx = note.slice as usize;
        if idx >= self.slices.len() {
            return None;
        }
        let (start, end) = self.slices[idx];
        let mut i: usize = 0;
        while i < 16 && self.active[i]
            invariant
                i <= 16,
                self.active@.len() == 16,
                forall|j: int| 0 <= j < i ==> #[trigger] self.active@[j],
            decreases 16 - i,
        {
            i += 1;
        }
        let v = if i < 16 { i } else { 0 };
        self.active[v] = true;
        Some(VoiceStart { voice: v, start, end, semis: note.semis })
    }

    /// Plays the step that is due: announces it, starts the note stored there
    /// and moves on to the next step.
    pub fn fire_step(&mut self) -> (r: Option<VoiceStart>)
        requires
            old(self).wf(),
        ensures
            final(self).wf(),
            final(self).step_view() == next_step(old(self).step_view()),
            final(self).shared_view() == old(self).shared_view(),
            final(self).slices_view() == old(self).slices_view(),
            final(self).playing_view() == old(self).playing_view(),
            final(self).recording_view() == old(self).recording_view(),
            final(self).pattern_view() == old(self).pattern_view(),
            final(self).handed_step_view() == Some(old(self).step_view()),
            final(self).handed_pattern_view() == old(self).handed_pattern_view(),
            match old(self).pattern_view()[old(self).step_view()] {
                Some(n) => voice_started(old(self).active_view(), old(self).slices_view(), n, r, final(self).active_view()),
                None => r is None && final(self).active_view() == old(self).active_view(),
            },
    {
        self.announce_step();
        let r = match self.pattern[self.step] {
            Some(n) => self.trigger(n),
            None => None,
        };
        self.step = (self.step + 1) % 16;
        r
    }

    /// Moves the transport on: when it is playing and `due` says the current
    /// step's time is up, plays the due step as `fire_step` does and returns
    /// `(true, voice)`; otherwise changes nothing and returns `(false, None)`.
    pub fn advance(&mut self, due: bool) -> (r: (bool, Option<VoiceStart>))
        requires
            old(self).wf(),
        ensures
            final(self).wf(),
            r.0 == (old(self).playing_view() && due),
            final(self).shared_view() == old(self).shared_view(),
            final(self).slices_view() == old(self).slices_view(),
            final(self).playing_view() == old(self).playing_view(),
            final(self).recording_view() == old(self).recording_view(),
            final(self).pattern_view() == old(self).pattern_view(),
            r.0 ==> final(self).step_view() == next_step(old(self).step_view()) && match old(
                self,
            ).pattern_view()[old(self).step_view()] {
                Some(n) => voice_started(
                    old(self).active_view(),
                    old(self).slices_view(),
                    n,
                    r.1,
                    final(self).active_view(),
                ),
                None => r.1 is None && final(self).active_view() == old(self).active_view(),
            },
            !r.0 ==> r.1 is None && final(self).step_view() == old(self).step_view()
                && final(self).active_view() == old(self).active_view(),
            final(self).handed_step_view() == (if r.0 {
                Some(old(self).step_view())
            } else {
                old(self).handed_step_view()
            }),
            final(self).handed_pattern_view() == old(self).handed_pattern_view(),
    {
        if self.playing && due {
            let t = self.fire_step();
            (true, t)
        } else {
            (false, None)
        }
    }

    /// What `apply(cmd, closer_to_next)` makes of `self`: `post` is the new
    /// state and `started` the voice it starts.
    pub open spec fn applied(
        &self,
        cmd: Command,
        closer_to_next: bool,
        post: &Self,
        started: Option<VoiceStart>,
    ) -> bool {
        &&& post.step_view() == self.step_view()
        &&& post.shared_view() == self.shared_view()
        &&& post.handed_step_view() == self.handed_step_view()
        &&& post.handed_pattern_view() == (if self.pattern_changes(cmd) {
            Some(post.pattern_view())
        } else {
            self.handed_pattern_view()
        })
        &&& match cmd {
            Command::SetPattern(p) => {
                &&& post.pattern_view() == p@
                &&& self.keeps_all_but_pattern(post, started)
            },
            Command::SetStep(i, v) => {
                &&& post.pattern_view() == (if i < 16 {
                    self.pattern_view().update(i as int, v)
                } else {
                    self.pattern_view()
                })
                &&& self.keeps_all_but_pattern(post, started)
            },
            Command::Trigger(n) => {
                &&& voice_started(self.active_view(), self.slices_view(), n, started, post.active_view())
                &&& post.pattern_view() == (if self.recording_view() && self.playing_view() {
                    self.pattern_view().update(quantized_step(self.step_view(), closer_to_next), Some(n))
                } else {
                    self.pattern_view()
                })
                &&& self.same_settings(post)
            },
            Command::Play(p) => {
                &&& post.playing_view() == p
                &&& post.recording_view() == self.recording_view()
                &&& post.slices_view() == self.slices_view()
                &&& post.pattern_view() == self.pattern_view()
                &&& post.active_view() == self.active_view()
                &&& started is None
            },
            Command::Record(r) => {
                &&& post.recording_view() == r
                &&& post.playing_view() == self.playing_view()
                &&& post.slices_view() == self.slices_view()
                &&& post.pattern_view() == self.pattern_view()
                &&& post.active_view() == self.active_view()
                &&& started is None
            },
            Command::Clear => {
                &&& post.pattern_view() == empty_pattern()
                &&& self.keeps_all_but_pattern(post, started)
            },
            Command::LoadSlices(sl) => {
                &&& post.slices_view() == sl@
                &&& post.active_view() == Seq::new(16, |i: int| false)
                &&& post.pattern_view() == self.pattern_view()
                &&& post.playing_view() == self.playing_view()
                &&& post.recording_view() == self.recording_view()
                &&& started is None
            },
        }
    }

    /// Whether `cmd` writes the pattern, and so hands the new pattern to the
    /// shared state.
    pub open spec fn pattern_changes(&self, cmd: Command) -> bool {
        match cmd {
            Command::SetPattern(_) => true,
            Command::SetStep(i, _) => i < 16,
            Command::Trigger(_) => self.recording_view() && self.playing_view(),
            Command::Clear => true,
            _ => false,
        }
    }

    /// Hands the current pattern to the shared state for the interface.
    fn hand_over_pattern(&mut self)
        requires
            old(self).wf(),
        ensures
            final(self).wf(),
            old(self).same_settings(final(self)),
            final(self).pattern_view() == old(self).pattern_view(),
            final(self).active_view() == old(self).active_view(),
            final(self).handed_step_view() == old(self).handed_step_view(),
            final(self).handed_pattern_view() == Some(old(self).pattern_view()),
    {
        self.shared.publish_pattern(self.pattern);
        self.handed_pattern = Ghost(Some(self.pattern@));
    }

    /// Announces the step due now to the shared state as the one playing.
    fn announce_step(&mut self)
        requires
            old(self).wf(),
        ensures
            final(self).wf(),
            old(self).same_settings(final(self)),
            final(self).pattern_view() == old(self).pattern_view(),
            final(self).active_view() == old(self).active_view(),
            final(self).handed_pattern_view() == old(self).handed_pattern_view(),
            final(self).handed_step_view() == Some(old(self).step_view()),
    {
        self.shared.publish_step(self.step);
        self.handed_step = Ghost(Some(self.step as int));
    }

    /// Only the pattern may differ between `self` and `post`, and no voice starts.
    pub open spec fn keeps_all_but_pattern(&self, post: &Self, started: Option<VoiceStart>) -> bool {
        &&& self.same_settings(post)
        &&& post.active_view() == self.active_view()
        &&& started is None
    }

    /// Carries out `cmd`. A `Trigger` starts a voice and, while recording and
    /// playing, also writes the note into the step nearest to the hit, which
    /// depends on `closer_to_next` (see `nearest_step`). Returns the voice to
    /// start, if any. Every change to the pattern is copied to the shared state.
    pub fn apply(&mut self, cmd: Command, closer_to_next: bool) -> (r: Option<VoiceStart>)
        requires
            old(self).wf(),
        ensures
            final(self).wf(),
            old(self).applied(cmd, closer_to_next, final(self), r),
    {
        match cmd {
            Command::SetPattern(p) => {
                self.pattern = p;
                self.hand_over_pattern();
                None
            },
            Command::SetStep(i, v) => {
                if i < 16 {
                    self.pattern[i] = v;
                    self.hand_over_pattern();
                }
                None
            },
            Command::Trigger(n) => {
                let r = self.trigger(n);
                if self.recording && self.playing {
                    let into = self.nearest_step(closer_to_next);
                    self.pattern[into] = Some(n);
                    self.hand_over_pattern();
                }
                r
            },
            Command::Play(p) => {
                self.playing = p;
                None
            },
            Command::Record(r) => {
                self.recording = r;
                None
            },
            Command::Clear => {
                self.pattern = [None; 16];
                self.hand_over_pattern();
                assert(self.pattern@ =~= empty_pattern());
                None
            },
            Command::LoadSlices(sl) => {
                self.slices = sl;
                self.active = [false; 16];
                assert(self.active@ =~= Seq::new(16, |i: int| false));
                None
            },
        }
    }
}

} // verus!
