//! Voices and the fixed pool that hands them out: which voice a note gets,
//! which voices a note-off releases, and what every sounding voice does on
//! each sample.

use vstd::prelude::*;
use crate::env::{Envelope, EnvelopeState, Step};
use crate::filter::Mode;
use crate::osc::Shape;

verus! {

/// The highest note number that MIDI defines. Notes above it are refused.
pub const MAX_NOTE: u8 = 127;

/// What one sample did to the two envelopes of a voice.
#[derive(Eq, PartialEq, Structural, Debug, Copy, Clone)]
pub struct VoiceStep {
    /// The amplitude envelope.
    pub env: Step,
    /// The filter envelope.
    pub filter_env: Step,
}

/// The control state of one voice: what it plays, with which waveforms, and
/// where its two envelopes stand.
#[derive(Copy, Clone, Debug)]
pub struct Voice {
    pub osc1_shape: Shape,
    pub osc2_shape: Shape,
    pub filter_mode: Mode,
    /// The amplitude envelope.
    pub env: Envelope,
    pub filter_env: Envelope,
    /// The velocity of the note, as MIDI gave it.
    pub velocity: u8,
    pub note: u8,
    pub is_active: bool,
}

impl Voice {
    /// `self` after [`Voice::reset`].
    pub open spec fn cleared(&self) -> Voice {
        Voice {
            velocity: 0,
            env: self.env.cleared(),
            filter_env: self.filter_env.cleared(),
            ..*self
        }
    }

    /// `self` taken for a new note: cleared, marked active, and with both
    /// envelopes at the start of their attack.
    pub open spec fn started(&self, note: u8, velocity: u8) -> Voice {
        Voice {
            is_active: true,
            note,
            velocity,
            env: self.env.cleared().entered(EnvelopeState::Attack),
            filter_env: self.filter_env.cleared().entered(EnvelopeState::Attack),
            ..*self
        }
    }

    /// `self` with both envelopes at the start of their release.
    pub open spec fn released(&self) -> Voice {
        Voice {
            env: self.env.entered(EnvelopeState::Release),
            filter_env: self.filter_env.entered(EnvelopeState::Release),
            ..*self
        }
    }

    /// `self` one sample later: a voice whose amplitude envelope has
    /// reached `Off` gives its slot back, and both envelopes move on.
    pub open spec fn stepped(&self) -> Voice {
        Voice {
            is_active: self.is_active && self.env.state != EnvelopeState::Off,
            env: self.env.stepped(),
            filter_env: self.filter_env.stepped(),
            ..*self
        }
    }

    /// What [`Voice::next`] reports for `self`.
    pub open spec fn step_of(&self) -> VoiceStep {
        VoiceStep { env: self.env.step_of(), filter_env: self.filter_env.step_of() }
    }

    /// The voice that [`Voice::new`] makes.
    pub open spec fn spec_idle(attack: u64, decay: u64, release: u64) -> Voice {
        Voice {
            osc1_shape: Shape::Square,
            osc2_shape: Shape::Square,
            filter_mode: Mode::Lowpass,
            env: Envelope::spec_idle(attack, decay, release),
            filter_env: Envelope::spec_idle(attack, decay, release),
            velocity: 127,
            note: 0,
            is_active: false,
        }
    }

    /// An idle voice: square waves through a low-pass filter, both
    /// envelopes `Off` with the given stage lengths, at full velocity.
    pub fn new(attack: u64, decay: u64, release: u64) -> (voice: Voice)
        ensures
            voice == Voice::spec_idle(attack, decay, release),
    {
        Voice {
            osc1_shape: Shape::Square,
            osc2_shape: Shape::Square,
            filter_mode: Mode::Lowpass,
            env: Envelope::new(attack, decay, release),
            filter_env: Envelope::new(attack, decay, release),
            velocity: 127,
            note: 0,
            is_active: false,
        }
    }

    /// Whether the voice is taken and plays `note`. No voice holds a note
    /// above [`MAX_NOTE`].
    pub open spec fn spec_holds(&self, note: u8) -> bool {
        note <= MAX_NOTE && self.is_active && self.note == note
    }

    /// Whether the voice is taken and plays `note`: whether a note-off for
    /// `note` releases it.
    #[verifier::when_used_as_spec(spec_holds)]
    pub fn holds(&self, note: u8) -> (holds: bool)
        ensures
            holds == self.spec_holds(note),
    {
        note <= MAX_NOTE && self.is_active && self.note == note
    }

    /// Advances the voice by one sample and says what its envelopes did.
    /// The voice gives its slot back on the first sample that finds its
    /// amplitude envelope `Off`.
    pub fn next(&mut self) -> (step: VoiceStep)
        ensures
            *final(self) == old(self).stepped(),
            step == old(self).step_of(),
    {
        if self.env.state() == EnvelopeState::Off {
            self.is_active = false;
        }
        let filter_env = self.filter_env.next();
        let env = self.env.next();
        VoiceStep { env, filter_env }
    }

    /// Clears what a previous note left behind: the velocity and both envelopes.
    pub fn reset(&mut self)
        ensures
            *final(self) == old(self).cleared(),
    {
        self.velocity = 0;
        self.env.reset();
        self.filter_env.reset();
    }
}

/// The place of the first voice at or after `start` that is free, or the
/// length of the pool if every voice from there on is taken.
pub open spec fn first_free_from(voices: Seq<Voice>, start: int) -> int
    decreases voices.len() - start,
{
    if start < 0 || start >= voices.len() || !voices[start].is_active {
        start
    } else {
        first_free_from(voices, start + 1)
    }
}

/// The place of the first free voice, or the length of the pool if none is free.
pub open spec fn first_free(voices: Seq<Voice>) -> int {
    first_free_from(voices, 0)
}

/// The number of voices that are taken.
pub open spec fn active_count(voices: Seq<Voice>) -> nat
    decreases voices.len(),
{
    if voices.len() == 0 {
        0
    } else {
        active_count(voices.drop_last()) + if voices.last().is_active {
            1nat
        } else {
            0nat
        }
    }
}

/// The pool after a note-on: the first free voice is started on the note.
/// A note above [`MAX_NOTE`] is refused, and a note that finds no free voice
/// is dropped; both leave the pool as it was.
pub open spec fn after_note_on(voices: Seq<Voice>, note: u8, velocity: u8) -> Seq<Voice> {
    let slot = first_free(voices);
    if note <= MAX_NOTE && slot < voices.len() {
        voices.update(slot, voices[slot].started(note, velocity))
    } else {
        voices
    }
}

/// The pool after a note-off: every taken voice that holds the note is
/// released, all others are left alone.
pub open spec fn after_note_off(voices: Seq<Voice>, note: u8) -> Seq<Voice> {
    Seq::new(
        voices.len(),
        |i: int|
            if voices[i].spec_holds(note) {
                voices[i].released()
            } else {
                voices[i]
            },
    )
}

/// The pool one sample later: every taken voice has moved on by one
/// sample, the free ones are untouched.
pub open spec fn after_sample(voices: Seq<Voice>) -> Seq<Voice> {
    Seq::new(
        voices.len(),
        |i: int|
            if voices[i].is_active {
                voices[i].stepped()
            } else {
                voices[i]
            },
    )
}

/// `first_free_from` finds the first free voice at or after `start`: every
/// voice between `start` and its result is taken, and its result is free
/// unless it is the end of the pool.
pub proof fn lemma_first_free_from(voices: Seq<Voice>, start: int)
    requires
        0 <= start <= voices.len(),
    ensures
        start <= first_free_from(voices, start) <= voices.len(),
        forall|j: int| start <= j < first_free_from(voices, start) ==> voices[j].is_active,
        first_free_from(voices, start) < voices.len() ==> !voices[first_free_from(
            voices,
            start,
        )].is_active,
    decreases voices.len() - start,
{
    if start < voices.len() && voices[start].is_active {
        lemma_first_free_from(voices, start + 1);
    }
}

/// The selections of a patch: the waveforms of the two oscillators of a
/// voice and of the pool's modulation oscillator, and the filter's response.
#[derive(Eq, PartialEq, Structural, Debug, Copy, Clone)]
pub struct Preset {
    pub osc1_waveform: Shape,
    pub osc2_waveform: Shape,
    pub filter_mode: Mode,
    pub lfo_waveform: Shape,
}

impl Voice {
    /// `self` with the selections of `preset`; the note it plays and its
    /// envelopes are left alone.
    pub open spec fn patched(&self, preset: Preset) -> Voice {
        Voice {
            osc1_shape: preset.osc1_waveform,
            osc2_shape: preset.osc2_waveform,
            filter_mode: preset.filter_mode,
            ..*self
        }
    }
}

/// The pool with the selections of `preset` in every voice, taken or free.
pub open spec fn after_preset(voices: Seq<Voice>, preset: Preset) -> Seq<Voice> {
    Seq::new(voices.len(), |i: int| voices[i].patched(preset))
}

/// A fixed pool of voices.
pub struct Voices {
    voices: Vec<Voice>,
    lfo_shape: Shape,
}

impl View for Voices {
    type V = Seq<Voice>;

    closed spec fn view(&self) -> Seq<Voice> {
        self.voices@
    }
}

impl Voices {
    /// The waveform of the oscillator that modulates every voice of the pool.
    pub closed spec fn lfo(&self) -> Shape {
        self.lfo_shape
    }

    /// A pool of `polyphony` idle voices, all alike.
    pub fn new(attack: u64, decay: u64, release: u64, polyphony: usize) -> (pool: Voices)
        ensures
            pool@.len() == polyphony,
            forall|i: int|
                0 <= i < polyphony ==> #[trigger] pool@[i] == Voice::spec_idle(
                    attack,
                    decay,
                    release,
                ),
            pool.lfo() == Shape::Square,
    {
        let mut voices: Vec<Voice> = Vec::new();
        let mut made: usize = 0;
        while made < polyphony
            invariant
                made <= polyphony,
                voices@.len() == made,
                forall|i: int|
                    0 <= i < made ==> #[trigger] voices@[i] == Voice::spec_idle(
                        attack,
                        decay,
                        release,
                    ),
            decreases polyphony - made,
        {
            voices.push(Voice::new(attack, decay, release));
            made += 1;
        }
        Voices { voices, lfo_shape: Shape::Square }
    }

    /// The number of voices in the pool. It never changes.
    pub fn capacity(&self) -> (capacity: usize)
        ensures
            capacity == self@.len(),
    {
        self.voices.len()
    }

    /// Starts the first free voice on `note`. Returns the place of that
    /// voice, or `None` if the note was refused or dropped.
    pub fn note_on(&mut self, note: u8, velocity: u8) -> (slot: Option<usize>)
        ensures
            final(self)@ == after_note_on(old(self)@, note, velocity),
            final(self)@.len() == old(self)@.len(),
            final(self).lfo() == old(self).lfo(),
            slot == if note <= MAX_NOTE && first_free(old(self)@) < old(self)@.len() {
                Some(first_free(old(self)@) as usize)
            } else {
                None
            },
    {
        if note > MAX_NOTE {
            return None;
        }
        let mut i: usize = 0;
        while i < self.voices.len()
            invariant
                note <= MAX_NOTE,
                i <= self.voices@.len(),
                *self == *old(self),
                first_free_from(self.voices@, i as int) == first_free(self.voices@),
            decreases self.voices@.len() - i,
        {
            if !self.voices[i].is_active {
                self.voices[i].reset();
                self.voices[i].is_active = true;
                self.voices[i].note = note;
                self.voices[i].velocity = velocity;
                self.voices[i].env.enter_state(EnvelopeState::Attack);
                self.voices[i].filter_env.enter_state(EnvelopeState::Attack);
                assert(self.voices@ == old(self).voices@.update(
                    i as int,
                    old(self).voices@[i as int].started(note, velocity),
                ));
                return Some(i);
            }
            i += 1;
        }
        None
    }

    /// Releases every taken voice that holds `note`. A note above
    /// [`MAX_NOTE`] releases nothing.
    pub fn note_off(&mut self, note: u8)
        ensures
            final(self)@ == after_note_off(old(self)@, note),
            final(self).lfo() == old(self).lfo(),
    {
        if note > MAX_NOTE {
            assert(self@ == after_note_off(self@, note));
            return;
        }
        let mut i: usize = 0;
        while i < self.voices.len()
            invariant
                note <= MAX_NOTE,
                i <= self.voices@.len(),
                self.voices@.len() == old(self).voices@.len(),
                self.lfo_shape == old(self).lfo_shape,
                forall|j: int|
                    0 <= j < i ==> self.voices@[j] == after_note_off(old(self).voices@, note)[j],
                forall|j: int| i <= j < self.voices@.len() ==> self.voices@[j] == old(self).voices@[j],
            decreases self.voices@.len() - i,
        {
            if self.voices[i].holds(note) {
                self.voices[i].env.enter_state(EnvelopeState::Release);
                self.voices[i].filter_env.enter_state(EnvelopeState::Release);
            }
            i += 1;
        }
        assert(self@ == after_note_off(old(self)@, note));
    }

    /// Advances voice `slot` by one sample if it is taken, and says what
    /// its envelopes did; a free voice is skipped.
    pub fn next_voice(&mut self, slot: usize) -> (step: Option<VoiceStep>)
        requires
            slot < old(self)@.len(),
        ensures
            final(self).lfo() == old(self).lfo(),
            old(self)@[slot as int].is_active ==> step == Some(old(self)@[slot as int].step_of())
                && final(self)@ == old(self)@.update(
                slot as int,
                old(self)@[slot as int].stepped(),
            ),
            !old(self)@[slot as int].is_active ==> step is None && final(self)@ == old(self)@,
    {
        if self.voices[slot].is_active {
            let step = self.voices[slot].next();
            Some(step)
        } else {
            None
        }
    }

    /// Advances every taken voice by one sample. Returns how many voices
    /// sounded on this sample.
    pub fn next(&mut self) -> (sounding: usize)
        ensures
            final(self)@ == after_sample(old(self)@),
            final(self).lfo() == old(self).lfo(),
            sounding == active_count(old(self)@),
    {
        let mut sounding: usize = 0;
        let mut i: usize = 0;
        while i < self.voices.len()
            invariant
                i <= self.voices@.len(),
                self.voices@.len() == old(self).voices@.len(),
                self.lfo_shape == old(self).lfo_shape,
                sounding == active_count(old(self).voices@.take(i as int)),
                forall|j: int|
                    0 <= j < i ==> self.voices@[j] == after_sample(old(self).voices@)[j],
                forall|j: int| i <= j < self.voices@.len() ==> self.voices@[j] == old(self).voices@[j],
            decreases self.voices@.len() - i,
        {
            proof {
                let before = old(self).voices@;
                assert(before.take(i + 1).drop_last() == before.take(i as int));
                lemma_active_count_bound(before.take(i as int));
            }
            if self.next_voice(i).is_some() {
                sounding += 1;
            }
            i += 1;
        }
        assert(old(self).voices@.take(i as int) == old(self).voices@);
        assert(self@ == after_sample(old(self)@));
        sounding
    }

    /// The voice at `slot`, to be changed in place.
    pub fn voice_mut(&mut self, slot: usize) -> (voice: &mut Voice)
        requires
            slot < old(self)@.len(),
        ensures
            *voice == old(self)@[slot as int],
            final(self)@ == old(self)@.update(slot as int, *final(voice)),
            final(self).lfo() == old(self).lfo(),
    {
        &mut self.voices[slot]
    }

    /// The waveform of the modulation oscillator.
    pub fn lfo_shape(&self) -> (shape: Shape)
        ensures
            shape == self.lfo(),
    {
        self.lfo_shape
    }

    /// The voice at `slot`.
    pub fn voice(&self, slot: usize) -> (voice: &Voice)
        requires
            slot < self@.len(),
        ensures
            *voice == self@[slot as int],
    {
        &self.voices[slot]
    }
}

/// The number of voices a synthesizer has.
pub const POLYPHONY: usize = 128;

/// A synthesizer: one pool of [`POLYPHONY`] voices.
pub struct Synth {
    voices: Voices,
}

impl View for Synth {
    type V = Seq<Voice>;

    closed spec fn view(&self) -> Seq<Voice> {
        self.voices@
    }
}

impl Synth {
    /// The waveform of the modulation oscillator.
    pub closed spec fn lfo(&self) -> Shape {
        self.voices.lfo()
    }

    /// A synthesizer whose voices are all idle, with the given envelope
    /// stage lengths.
    pub fn new(attack: u64, decay: u64, release: u64) -> (synth: Synth)
        ensures
            synth@.len() == POLYPHONY,
            forall|i: int|
                0 <= i < POLYPHONY ==> #[trigger] synth@[i] == Voice::spec_idle(
                    attack,
                    decay,
                    release,
                ),
            synth.lfo() == Shape::Square,
    {
        Synth { voices: Voices::new(attack, decay, release, POLYPHONY) }
    }

    /// Starts the first free voice on `note`; see [`Voices::note_on`].
    pub fn note_on(&mut self, note: u8, velocity: u8) -> (slot: Option<usize>)
        ensures
            final(self)@ == after_note_on(old(self)@, note, velocity),
            final(self)@.len() == old(self)@.len(),
            final(self).lfo() == old(self).lfo(),
            slot == if note <= MAX_NOTE && first_free(old(self)@) < old(self)@.len() {
                Some(first_free(old(self)@) as usize)
            } else {
                None
            },
    {
        self.voices.note_on(note, velocity)
    }

    /// Releases every voice that holds `note`; see [`Voices::note_off`].
    pub fn note_off(&mut self, note: u8)
        ensures
            final(self)@ == after_note_off(old(self)@, note),
            final(self).lfo() == old(self).lfo(),
    {
        self.voices.note_off(note)
    }

    /// Advances every taken voice by one sample; see [`Voices::next`].
    pub fn next(&mut self) -> (sounding: usize)
        ensures
            final(self)@ == after_sample(old(self)@),
            final(self).lfo() == old(self).lfo(),
            sounding == active_count(old(self)@),
    {
        self.voices.next()
    }

    /// The size of the pool and the number of voices that are taken.
    pub fn voices(&self) -> (counts: (usize, usize))
        ensures
            counts.0 == self@.len(),
            counts.1 == active_count(self@),
    {
        let available = self.voices.voices.len();
        let mut used: usize = 0;
        let mut i: usize = 0;
        while i < available
            invariant
                available == self.voices.voices@.len(),
                i <= available,
                used == active_count(self.voices.voices@.take(i as int)),
            decreases available - i,
        {
            proof {
                let all = self.voices.voices@;
                assert(all.take(i + 1).drop_last() == all.take(i as int));
                lemma_active_count_bound(all.take(i as int));
            }
            if self.voices.voices[i].is_active {
                used += 1;
            }
            i += 1;
        }
        assert(self.voices.voices@.take(i as int) == self.voices.voices@);
        (available, used)
    }

    /// Puts the selections of `preset` into every voice of the pool, taken
    /// or free, and into the modulation oscillator.
    pub fn apply_preset(&mut self, preset: &Preset)
        ensures
            final(self)@ == after_preset(old(self)@, *preset),
            final(self).lfo() == preset.lfo_waveform,
    {
        let mut i: usize = 0;
        while i < self.voices.voices.len()
            invariant
                i <= self.voices.voices@.len(),
                self.voices.voices@.len() == old(self).voices.voices@.len(),
                forall|j: int|
                    0 <= j < i ==> self.voices.voices@[j] == old(self).voices.voices@[j].patched(
                        *preset,
                    ),
                forall|j: int|
                    i <= j < self.voices.voices@.len() ==> self.voices.voices@[j] == old(
                        self,
                    ).voices.voices@[j],
            decreases self.voices.voices@.len() - i,
        {
            self.voices.voices[i].osc1_shape = preset.osc1_waveform;
            self.voices.voices[i].osc2_shape = preset.osc2_waveform;
            self.voices.voices[i].filter_mode = preset.filter_mode;
            i += 1;
        }
        self.voices.lfo_shape = preset.lfo_waveform;
        assert(self@ == after_preset(old(self)@, *preset));
    }

    /// The pool of this synthesizer.
    pub fn pool(&self) -> (pool: &Voices)
        ensures
            pool@ == self@,
            pool.lfo() == self.lfo(),
    {
        &self.voices
    }

    /// The voice at `slot`, to be changed in place.
    pub fn voice_mut(&mut self, slot: usize) -> (voice: &mut Voice)
        requires
            slot < old(self)@.len(),
        ensures
            *voice == old(self)@[slot as int],
            final(self)@ == old(self)@.update(slot as int, *final(voice)),
            final(self).lfo() == old(self).lfo(),
    {
        self.voices.voice_mut(slot)
    }

    /// Advances voice `slot` by one sample if it is taken; see
    /// [`Voices::next_voice`].
    pub fn next_voice(&mut self, slot: usize) -> (step: Option<VoiceStep>)
        requires
            slot < old(self)@.len(),
        ensures
            final(self).lfo() == old(self).lfo(),
            old(self)@[slot as int].is_active ==> step == Some(old(self)@[slot as int].step_of())
                && final(self)@ == old(self)@.update(
                slot as int,
                old(self)@[slot as int].stepped(),
            ),
            !old(self)@[slot as int].is_active ==> step is None && final(self)@ == old(self)@,
    {
        self.voices.next_voice(slot)
    }
}

/// The pool after each of `notes` was played into it, in their order; a
/// note is a note number and a velocity.
pub open spec fn after_notes(voices: Seq<Voice>, notes: Seq<(u8, u8)>) -> Seq<Voice>
    decreases notes.len(),
{
    if notes.len() == 0 {
        voices
    } else {
        after_notes(after_note_on(voices, notes.first().0, notes.first().1), notes.drop_first())
    }
}

/// The pool after a note-off for each of `notes`, in their order.
pub open spec fn after_notes_off(voices: Seq<Voice>, notes: Seq<u8>) -> Seq<Voice>
    decreases notes.len(),
{
    if notes.len() == 0 {
        voices
    } else {
        after_notes_off(after_note_off(voices, notes.first()), notes.drop_first())
    }
}

/// Whether a voice stands at the very start of its release.
pub open spec fn just_released(voice: Voice) -> bool {
    &&& voice.env.state == EnvelopeState::Release
    &&& voice.env.current_sample_idx == 0
    &&& voice.env.next_state_sample_idx == voice.env.release
}

/// The pool `samples` samples later.
pub open spec fn after_samples(voices: Seq<Voice>, samples: nat) -> Seq<Voice>
    decreases samples,
{
    if samples == 0 {
        voices
    } else {
        after_samples(after_sample(voices), (samples - 1) as nat)
    }
}

/// The number of samples after which a voice that is being released has
/// given its slot back: what is left of the release, one sample to reach
/// `Off`, and one more on which the voice finds itself `Off`.
pub open spec fn samples_to_silence(voice: Voice) -> nat {
    if !voice.is_active {
        0
    } else if voice.env.state == EnvelopeState::Off {
        1
    } else if voice.env.current_sample_idx < voice.env.next_state_sample_idx {
        (voice.env.next_state_sample_idx - voice.env.current_sample_idx + 2) as nat
    } else {
        2
    }
}

/// Whether every taken voice is on its way out: its amplitude envelope is
/// in `Release` or `Off`.
pub open spec fn all_releasing(voices: Seq<Voice>) -> bool {
    forall|i: int|
        0 <= i < voices.len() && (#[trigger] voices[i]).is_active ==> voices[i].env.state
            == EnvelopeState::Release || voices[i].env.state == EnvelopeState::Off
}

/// No more voices are taken than the pool has.
pub proof fn lemma_active_count_bound(voices: Seq<Voice>)
    ensures
        active_count(voices) <= voices.len(),
    decreases voices.len(),
{
    if voices.len() > 0 {
        lemma_active_count_bound(voices.drop_last());
    }
}

/// The count of taken voices is the size of the pool exactly when every
/// voice is taken, and zero exactly when none is.
pub proof fn lemma_active_count_extremes(voices: Seq<Voice>)
    ensures
        active_count(voices) == voices.len() <==> forall|i: int|
            0 <= i < voices.len() ==> voices[i].is_active,
        active_count(voices) == 0 <==> forall|i: int|
            0 <= i < voices.len() ==> !voices[i].is_active,
    decreases voices.len(),
{
    if voices.len() > 0 {
        let front = voices.drop_last();
        lemma_active_count_extremes(front);
        lemma_active_count_bound(front);
        assert forall|i: int| 0 <= i < front.len() implies front[i] == voices[i] by {}
        if forall|i: int| 0 <= i < voices.len() ==> voices[i].is_active {
            assert forall|i: int| 0 <= i < front.len() implies front[i].is_active by {
                assert(voices[i].is_active);
            }
        }
        if forall|i: int| 0 <= i < voices.len() ==> !voices[i].is_active {
            assert forall|i: int| 0 <= i < front.len() implies !front[i].is_active by {
                assert(!voices[i].is_active);
            }
        }
    }
}

/// Changing one voice changes the count of taken voices by what that
/// voice adds or takes away.
proof fn lemma_active_count_update(voices: Seq<Voice>, slot: int, voice: Voice)
    requires
        0 <= slot < voices.len(),
    ensures
        active_count(voices.update(slot, voice)) + (if voices[slot].is_active {
            1nat
        } else {
            0nat
        }) == active_count(voices) + (if voice.is_active {
            1nat
        } else {
            0nat
        }),
    decreases voices.len(),
{
    let changed = voices.update(slot, voice);
    if slot == voices.len() - 1 {
        assert(changed.drop_last() == voices.drop_last());
    } else {
        lemma_active_count_update(voices.drop_last(), slot, voice);
        assert(changed.drop_last() == voices.drop_last().update(slot, voice));
    }
}

/// A note-on takes exactly one voice while one is free, and none once the
/// pool is full: the note is then dropped and the pool is as it was.
pub proof fn lemma_note_on_takes_one_voice(voices: Seq<Voice>, note: u8, velocity: u8)
    requires
        note <= MAX_NOTE,
    ensures
        active_count(voices) < voices.len() ==> active_count(
            after_note_on(voices, note, velocity),
        ) == active_count(voices) + 1,
        active_count(voices) == voices.len() ==> after_note_on(voices, note, velocity) == voices,
        after_note_on(voices, note, velocity).len() == voices.len(),
{
    lemma_first_free_from(voices, 0);
    lemma_active_count_extremes(voices);
    lemma_active_count_bound(voices);
    let slot = first_free(voices);
    if slot < voices.len() {
        lemma_active_count_update(voices, slot, voices[slot].started(note, velocity));
    }
}

/// A pool takes one voice for every note played into it until it is full,
/// and stays full from then on: after any run of note-ons, the number of
/// taken voices is the number there was plus the number of notes, or the
/// size of the pool, whichever is less.
pub proof fn lemma_pool_fills_then_drops(voices: Seq<Voice>, notes: Seq<(u8, u8)>)
    requires
        forall|k: int| 0 <= k < notes.len() ==> (#[trigger] notes[k]).0 <= MAX_NOTE,
    ensures
        after_notes(voices, notes).len() == voices.len(),
        active_count(after_notes(voices, notes)) == if active_count(voices) + notes.len()
            <= voices.len() {
            active_count(voices) + notes.len()
        } else {
            voices.len()
        },
    decreases notes.len(),
{
    lemma_active_count_bound(voices);
    if notes.len() > 0 {
        let first = notes.first();
        lemma_note_on_takes_one_voice(voices, first.0, first.1);
        assert forall|k: int| 0 <= k < notes.drop_first().len() implies (
        #[trigger] notes.drop_first()[k]).0 <= MAX_NOTE by {
            assert(notes.drop_first()[k] == notes[k + 1]);
        }
        lemma_pool_fills_then_drops(after_note_on(voices, first.0, first.1), notes.drop_first());
    }
}

/// A note-off puts every voice that holds the note at the start of its
/// release, and so on its way out.
pub proof fn lemma_note_off_releases_holders(voices: Seq<Voice>, note: u8)
    ensures
        forall|i: int|
            0 <= i < voices.len() && voices[i].spec_holds(note) ==> {
                let voice = #[trigger] after_note_off(voices, note)[i];
                &&& voice.is_active
                &&& voice.env.state == EnvelopeState::Release
                &&& voice.filter_env.state == EnvelopeState::Release
                &&& voice.env.current_sample_idx == 0
                &&& voice.env.next_state_sample_idx == voices[i].env.release
                &&& samples_to_silence(voice) == voices[i].env.release + 2
            },
{
}

/// A pool in which every taken voice is on its way out is empty once the
/// longest of them has had its samples: the rest of its release and two
/// samples more.
pub proof fn lemma_released_pool_falls_silent(voices: Seq<Voice>, samples: nat)
    requires
        all_releasing(voices),
        forall|i: int| 0 <= i < voices.len() ==> samples_to_silence(#[trigger] voices[i]) <= samples,
    ensures
        active_count(after_samples(voices, samples)) == 0,
        after_samples(voices, samples).len() == voices.len(),
    decreases samples,
{
    if samples == 0 {
        lemma_active_count_extremes(voices);
    } else {
        let next = after_sample(voices);
        assert forall|i: int| 0 <= i < next.len() implies samples_to_silence(#[trigger] next[i])
            <= samples - 1 && (next[i].is_active ==> next[i].env.state == EnvelopeState::Release
            || next[i].env.state == EnvelopeState::Off) by {
            assert(samples_to_silence(voices[i]) <= samples);
        }
        lemma_released_pool_falls_silent(next, (samples - 1) as nat);
    }
}

/// Note-offs change neither which voices are taken nor what they play, and
/// leave every taken voice whose note was among them at the start of its
/// release.
proof fn lemma_notes_off(voices: Seq<Voice>, notes: Seq<u8>)
    requires
        forall|k: int| 0 <= k < notes.len() ==> notes[k] <= MAX_NOTE,
    ensures
        after_notes_off(voices, notes).len() == voices.len(),
        forall|i: int|
            0 <= i < voices.len() ==> {
                let after = #[trigger] after_notes_off(voices, notes)[i];
                &&& after.is_active == voices[i].is_active
                &&& after.note == voices[i].note
                &&& after.env.release == voices[i].env.release
                &&& voices[i].is_active && (notes.contains(voices[i].note) || just_released(
                    voices[i],
                )) ==> just_released(after)
            },
    decreases notes.len(),
{
    if notes.len() > 0 {
        let first = after_note_off(voices, notes.first());
        let rest = notes.drop_first();
        assert forall|k: int| 0 <= k < rest.len() implies rest[k] <= MAX_NOTE by {
            assert(rest[k] == notes[k + 1]);
        }
        lemma_notes_off(first, rest);
        assert forall|i: int| 0 <= i < voices.len() implies {
            let after = #[trigger] after_notes_off(voices, notes)[i];
            voices[i].is_active && (notes.contains(voices[i].note) || just_released(voices[i]))
                ==> just_released(after)
        } by {
            let note = voices[i].note;
            if voices[i].is_active && notes.contains(note) && note != notes.first() {
                let k = choose|k: int| 0 <= k < notes.len() && notes[k] == note;
                assert(rest[k - 1] == note);
            }
            assert(after_notes_off(first, rest)[i] == after_notes_off(voices, notes)[i]);
        }
    }
}

/// Once every note that sounds has had its note-off, the pool empties: as
/// soon as the longest release has had its samples and two more, no voice
/// is taken.
pub proof fn lemma_all_notes_off_empties_pool(voices: Seq<Voice>, notes: Seq<u8>, samples: nat)
    requires
        forall|k: int| 0 <= k < notes.len() ==> notes[k] <= MAX_NOTE,
        forall|i: int|
            0 <= i < voices.len() && (#[trigger] voices[i]).is_active ==> notes.contains(
                voices[i].note,
            ) && voices[i].env.release + 2 <= samples,
    ensures
        active_count(after_samples(after_notes_off(voices, notes), samples)) == 0,
{
    let released = after_notes_off(voices, notes);
    lemma_notes_off(voices, notes);
    assert forall|i: int| 0 <= i < released.len() implies samples_to_silence(
        #[trigger] released[i],
    ) <= samples && (released[i].is_active ==> released[i].env.state == EnvelopeState::Release)
    by {
        assert(voices[i].is_active ==> just_released(released[i]));
    }
    lemma_released_pool_falls_silent(released, samples);
}

} // verus!
