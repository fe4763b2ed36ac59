use vstd::prelude::*;

use crate::controls::Controls;
use crate::engine::{next_step, quantized_step, voice_started, Command, Sequencer, VoiceStart};
use crate::note::Note;
use crate::slicing::{onsets_upto, transient_slices, HOP, MIN_ONSETS, lemma_onsets_shape};

verus! {

/// The step due after `k` further steps have played from `step`.
pub open spec fn steps_ahead(step: int, k: nat) -> int
    decreases k,
{
    if k == 0 {
        step
    } else {
        next_step(steps_ahead(step, (k - 1) as nat))
    }
}

proof fn lemma_steps_ahead(step: int, k: nat)
    requires
        0 <= step < 16,
    ensures
        steps_ahead(step, k) == (step + k) % 16,
    decreases k,
{
    if k > 0 {
        lemma_steps_ahead(step, (k - 1) as nat);
        let p = (step + k - 1) % 16;
        assert((p + 1) % 16 == (step + k) % 16) by (nonlinear_arith)
            requires
                p == (step + k - 1) % 16,
        ;
    }
}

/// Playing steps runs through the pattern in order and wraps round: after `k`
/// steps from `step` the step due is `(step + k) % 16`, so after sixteen steps
/// the pattern starts over at the same step.
pub proof fn lemma_steps_cycle(step: int, k: nat)
    requires
        0 <= step < 16,
    ensures
        steps_ahead(step, k) == (step + k) % 16,
        steps_ahead(step, 16) == step,
{
    lemma_steps_ahead(step, k);
    lemma_steps_ahead(step, 16);
}

/// A left click toggles a step: an empty step gets the selected slice at the
/// current octave, a filled step is emptied, and no other step changes.
pub proof fn lemma_click_toggles(
    controls: Controls,
    seq: Sequencer,
    post: Sequencer,
    step: usize,
    closer_to_next: bool,
    started: Option<VoiceStart>,
)
    requires
        controls.wf(),
        seq.wf(),
        step < 16,
        seq.applied(
            controls.click_command(step, seq.pattern_view()[step as int]),
            closer_to_next,
            &post,
            started,
        ),
    ensures
        post.pattern_view()[step as int] == (if seq.pattern_view()[step as int] is Some {
            None
        } else {
            Some(controls.pad_note_of(controls.selected_view()))
        }),
        forall|i: int|
            0 <= i < 16 && i != step ==> #[trigger] post.pattern_view()[i] == seq.pattern_view()[i],
        started is None,
{
}

/// A pad hit while recording and playing lands in the pattern: the pad's note
/// is written into the next step or the step sounding now, whichever the hit
/// is nearer, and nothing else in the pattern changes. Without both flags on
/// the pattern is untouched.
pub proof fn lemma_recorded_hit(
    controls: Controls,
    seq: Sequencer,
    post: Sequencer,
    pad: u8,
    closer_to_next: bool,
    started: Option<VoiceStart>,
)
    requires
        controls.wf(),
        seq.wf(),
        seq.applied(Command::Trigger(controls.pad_note_of(pad)), closer_to_next, &post, started),
    ensures
        seq.recording_view() && seq.playing_view() ==> {
            let at = quantized_step(seq.step_view(), closer_to_next);
            &&& (at == seq.step_view() || next_step(at) == seq.step_view())
            &&& post.pattern_view()[at] == Some(controls.pad_note_of(pad))
            &&& forall|i: int|
                0 <= i < 16 && i != at ==> #[trigger] post.pattern_view()[i] == seq.pattern_view()[i]
        },
        !(seq.recording_view() && seq.playing_view()) ==> post.pattern_view() == seq.pattern_view(),
{
}

/// While some voice is idle a new hit never cuts a sounding voice: it takes an
/// idle one, and one more voice is busy afterwards.
pub proof fn lemma_no_steal_while_idle(
    active: Seq<bool>,
    slices: Seq<(usize, usize)>,
    note: Note,
    started: Option<VoiceStart>,
    active_after: Seq<bool>,
    idle: int,
)
    requires
        0 <= idle < active.len(),
        !active[idle],
        (note.slice as int) < slices.len(),
        voice_started(active, slices, note, started, active_after),
    ensures
        started matches Some(t) && !active[t.voice as int] && active_after[t.voice as int],
        forall|j: int| 0 <= j < active.len() && active[j] ==> #[trigger] active_after[j],
{
}

/// A pad plays its own slice shifted by whole octaves: at octave `o` (any of
/// `MIN_OCTAVE ..= MAX_OCTAVE`) its transposition is `12 * o` semitones, so
/// octave +3 plays three octaves up (+36) and octave -3 three octaves down (-36).
pub proof fn lemma_pad_octaves(controls: Controls, idx: u8)
    requires
        controls.wf(),
    ensures
        controls.pad_note_of(idx).slice == idx,
        controls.pad_note_of(idx).semis == 12 * controls.octave_view(),
        controls.octave_view() == 3 ==> controls.pad_note_of(idx).semis == 36,
        controls.octave_view() == -3 ==> controls.pad_note_of(idx).semis == -36,
{
}

/// Each command touches only its own part of the sequencer: the transport
/// flags change only by `Play` and `Record` (each only its own flag), the
/// slices only by `LoadSlices`, the pattern never by `Play`, `Record` or
/// `LoadSlices`, and the step due never by any command. In particular `Clear`
/// keeps the transport running, arming record keeps the pattern, and loading a
/// new sample keeps the pattern.
pub proof fn lemma_commands_touch_only_their_part(
    seq: Sequencer,
    cmd: Command,
    closer_to_next: bool,
    post: Sequencer,
    started: Option<VoiceStart>,
)
    requires
        seq.wf(),
        seq.applied(cmd, closer_to_next, &post, started),
    ensures
        post.step_view() == seq.step_view(),
        !(cmd is Play) ==> post.playing_view() == seq.playing_view(),
        !(cmd is Record) ==> post.recording_view() == seq.recording_view(),
        !(cmd is LoadSlices) ==> post.slices_view() == seq.slices_view(),
        (cmd is Play || cmd is Record || cmd is LoadSlices) ==> post.pattern_view() == seq.pattern_view(),
        cmd is Clear ==> {
            &&& forall|i: int| 0 <= i < 16 ==> #[trigger] post.pattern_view()[i] is None
            &&& post.pattern_view().len() == 16
            &&& post.active_view() == seq.active_view()
        },
        cmd matches Command::Record(r) ==> post.recording_view() == r,
        cmd matches Command::Play(p) ==> post.playing_view() == p,
        cmd matches Command::LoadSlices(sl) ==> post.slices_view() == sl@ && forall|v: int|
            0 <= v < 16 ==> !#[trigger] post.active_view()[v],
{
}

/// Onset choice is greedy and has no limit on the count: every candidate frame
/// `g` (with `1 <= g < f`) that is not chosen lies less than `min_gap` frames
/// after an onset chosen before it; so a candidate at least `min_gap` frames
/// past every earlier onset is always chosen.
pub proof fn lemma_onsets_maximal(peaks: Seq<bool>, min_gap: int, f: int)
    requires
        0 <= min_gap,
        f <= peaks.len(),
        f <= usize::MAX,
    ensures
        ({
            let o = onsets_upto(peaks, min_gap, f);
            forall|g: int|
                1 <= g < f && #[trigger] peaks[g] && !o.contains(g as usize) ==> exists|i: int|
                    0 <= i < o.len() && o[i] < g && g - o[i] < min_gap
        }),
    decreases f,
{
    if f > 1 {
        lemma_onsets_maximal(peaks, min_gap, f - 1);
        lemma_onsets_shape(peaks, min_gap, f - 1);
        let prev = onsets_upto(peaks, min_gap, f - 1);
        let o = onsets_upto(peaks, min_gap, f);
        assert forall|g: int|
            1 <= g < f && #[trigger] peaks[g] && !o.contains(g as usize) implies exists|i: int|
                0 <= i < o.len() && o[i] < g && g - o[i] < min_gap by {
            if g < f - 1 {
                if prev.contains(g as usize) {
                    let k = choose|k: int| 0 <= k < prev.len() && prev[k] == g as usize;
                    assert(o[k] == prev[k]);
                    assert(o.contains(g as usize));
                }
                let i = choose|i: int| 0 <= i < prev.len() && prev[i] < g && g - prev[i] < min_gap;
                assert(o[i] == prev[i]);
            } else {
                if !(g - prev.last() >= min_gap) {
                    assert(o == prev);
                    assert(o[prev.len() - 1] == prev.last());
                } else {
                    assert(o == prev.push(g as usize));
                    assert(o[prev.len() as int] == g as usize);
                }
            }
        }
    }
}

/// In onset mode every slice starts on frame 0 or on a candidate frame, and
/// every candidate frame `1 .. frames - 1` either starts a slice or lies less
/// than `min_gap` frames after the start of one; there is no cap on the number
/// of slices.
pub proof fn lemma_onset_slices_cover_candidates(len: usize, peaks: Seq<bool>, min_gap: usize)
    requires
        peaks.len() == len / HOP,
        peaks.len() >= MIN_ONSETS,
        onsets_upto(peaks, min_gap as int, peaks.len() - 1).len() >= MIN_ONSETS,
    ensures
        ({
            let r = transient_slices(len as int, peaks, min_gap as int);
            &&& forall|i: int| #![trigger r[i]] 0 < i < r.len() ==> exists|g: int|
                1 <= g < peaks.len() - 1 && #[trigger] peaks[g] && r[i].0 == g * HOP
            &&& forall|g: int|
                1 <= g < peaks.len() - 1 && #[trigger] peaks[g] ==> exists|i: int|
                    0 <= i < r.len() && r[i].0 <= g * HOP && g * HOP < r[i].0 + min_gap * HOP
                        || 0 <= i < r.len() && r[i].0 == g * HOP
        }),
{
    let frames = peaks.len() as int;
    let o = onsets_upto(peaks, min_gap as int, frames - 1);
    let r = transient_slices(len as int, peaks, min_gap as int);
    lemma_onsets_shape(peaks, min_gap as int, frames - 1);
    lemma_onsets_maximal(peaks, min_gap as int, frames - 1);
    assert(r.len() == o.len());
    assert forall|i: int| #![trigger r[i]] 0 < i < r.len() implies exists|g: int|
        1 <= g < peaks.len() - 1 && #[trigger] peaks[g] && r[i].0 == g * HOP by {
        let g = o[i] as int;
        assert(peaks[g]);
        assert(r[i].0 == g * HOP);
    }
    assert forall|g: int| 1 <= g < peaks.len() - 1 && #[trigger] peaks[g] implies exists|i: int|
        0 <= i < r.len() && r[i].0 <= g * HOP && g * HOP < r[i].0 + min_gap * HOP
            || 0 <= i < r.len() && r[i].0 == g * HOP by {
        if o.contains(g as usize) {
            let k = choose|k: int| 0 <= k < o.len() && o[k] == g as usize;
            assert(r[k].0 == g * HOP);
        } else {
            let i = choose|i: int| 0 <= i < o.len() && o[i] < g && g - o[i] < min_gap;
            let a = o[i] as int;
            assert(r[i].0 == a * HOP);
            assert(a * HOP <= g * HOP && g * HOP < a * HOP + min_gap * HOP) by (nonlinear_arith)
                requires
                    a < g,
                    g - a < min_gap,
            ;
        }
    }
}

} // verus!
