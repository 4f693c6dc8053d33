//! The envelope generator's clock: which stage an envelope is in, how many
//! samples it has spent there and how many the stage lasts.

use vstd::prelude::*;

verus! {

/// The stage of an envelope.
#[derive(Ord, PartialOrd, Eq, PartialEq, Structural, Copy, Clone, Debug)]
pub enum EnvelopeState {
    Attack,
    Decay,
    Release,
    Sustain,
    Off,
}

impl EnvelopeState {
    /// The stage that follows `self` in the fixed order
    /// Attack, Decay, Sustain, Release, Off; `Off` follows itself.
    pub open spec fn spec_next(&self) -> EnvelopeState {
        match self {
            EnvelopeState::Attack => EnvelopeState::Decay,
            EnvelopeState::Decay => EnvelopeState::Sustain,
            EnvelopeState::Sustain => EnvelopeState::Release,
            EnvelopeState::Release => EnvelopeState::Off,
            EnvelopeState::Off => EnvelopeState::Off,
        }
    }

    /// The place of a stage in the order in which an envelope passes
    /// through them: Attack, Decay, Sustain, Release, Off.
    pub open spec fn rank(&self) -> nat {
        match self {
            EnvelopeState::Attack => 0,
            EnvelopeState::Decay => 1,
            EnvelopeState::Sustain => 2,
            EnvelopeState::Release => 3,
            EnvelopeState::Off => 4,
        }
    }

    /// The stage that follows `self`.
    #[verifier::when_used_as_spec(spec_next)]
    pub fn next(&self) -> (following: EnvelopeState)
        ensures
            following == self.spec_next(),
    {
        match self {
            EnvelopeState::Attack => EnvelopeState::Decay,
            EnvelopeState::Decay => EnvelopeState::Sustain,
            EnvelopeState::Release => EnvelopeState::Off,
            EnvelopeState::Sustain => EnvelopeState::Release,
            EnvelopeState::Off => EnvelopeState::Off,
        }
    }
}

/// What one call of [`Envelope::next`] did.
#[derive(Eq, PartialEq, Structural, Copy, Clone, Debug)]
pub enum Step {
    /// The envelope is in `Sustain` or `Off`: nothing moved, the level holds.
    Held,
    /// One more sample was counted in the current stage.
    Ran,
    /// The stage's budget was spent: the envelope entered the stage given
    /// here and counted its first sample there.
    Entered(EnvelopeState),
}

/// The clock of one envelope generator.
///
/// All lengths are in samples. `Attack`, `Decay` and `Release` are timed:
/// each lasts as many samples as its length says, and is left on the first
/// tick that finds the counter at or past the budget. `Sustain` and `Off`
/// hold until something outside enters another stage.
#[derive(Copy, Clone, Debug)]
pub struct Envelope {
    pub state: EnvelopeState,
    /// Samples counted since the current stage was entered.
    pub current_sample_idx: u64,
    /// The count at which the current stage is left.
    pub next_state_sample_idx: u64,
    /// Length of `Attack`.
    pub attack: u64,
    /// Length of `Decay`.
    pub decay: u64,
    /// Length of `Release`.
    pub release: u64,
}

impl Envelope {
    /// The number of samples that `state` lasts; the holding stages have no budget.
    pub open spec fn length_of(&self, state: EnvelopeState) -> u64 {
        match state {
            EnvelopeState::Attack => self.attack,
            EnvelopeState::Decay => self.decay,
            EnvelopeState::Release => self.release,
            EnvelopeState::Sustain => 0,
            EnvelopeState::Off => 0,
        }
    }

    /// `self` at the start of `state`: counter at zero, budget set to the stage's length.
    pub open spec fn entered(&self, state: EnvelopeState) -> Envelope {
        Envelope {
            state,
            current_sample_idx: 0,
            next_state_sample_idx: self.length_of(state),
            attack: self.attack,
            decay: self.decay,
            release: self.release,
        }
    }

    /// `self` after [`Envelope::reset`]: `Off`, both counters at zero.
    pub open spec fn cleared(&self) -> Envelope {
        Envelope {
            state: EnvelopeState::Off,
            current_sample_idx: 0,
            next_state_sample_idx: 0,
            attack: self.attack,
            decay: self.decay,
            release: self.release,
        }
    }

    /// Whether the envelope is in a stage that never ends by itself.
    pub open spec fn holds(&self) -> bool {
        self.state == EnvelopeState::Sustain || self.state == EnvelopeState::Off
    }

    /// Whether the current stage has used up its budget.
    pub open spec fn spent(&self) -> bool {
        self.current_sample_idx >= self.next_state_sample_idx
    }

    /// `self` one sample later.
    pub open spec fn stepped(&self) -> Envelope {
        if self.holds() {
            *self
        } else if self.spent() {
            Envelope { current_sample_idx: 1, ..self.entered(self.state.spec_next()) }
        } else {
            Envelope { current_sample_idx: (self.current_sample_idx + 1) as u64, ..*self }
        }
    }

    /// What [`Envelope::next`] reports for `self`.
    pub open spec fn step_of(&self) -> Step {
        if self.holds() {
            Step::Held
        } else if self.spent() {
            Step::Entered(self.state.spec_next())
        } else {
            Step::Ran
        }
    }

    /// `self` after `samples` ticks.
    pub open spec fn run(&self, samples: nat) -> Envelope
        decreases samples,
    {
        if samples == 0 {
            *self
        } else {
            self.stepped().run((samples - 1) as nat)
        }
    }

    /// `self` with the budget of the running stage moved to `remaining`
    /// samples from now.
    pub open spec fn retimed(&self, remaining: u64) -> Envelope {
        Envelope {
            next_state_sample_idx: (self.current_sample_idx + remaining) as u64,
            ..*self
        }
    }

    /// The envelope that [`Envelope::new`] makes.
    pub open spec fn spec_idle(attack: u64, decay: u64, release: u64) -> Envelope {
        Envelope {
            state: EnvelopeState::Off,
            current_sample_idx: 0,
            next_state_sample_idx: 0,
            attack,
            decay,
            release,
        }
    }

    /// An envelope that is `Off`, with the given stage lengths.
    pub fn new(attack: u64, decay: u64, release: u64) -> (envelope: Envelope)
        ensures
            envelope == Envelope::spec_idle(attack, decay, release),
    {
        Envelope {
            state: EnvelopeState::Off,
            current_sample_idx: 0,
            next_state_sample_idx: 0,
            attack,
            decay,
            release,
        }
    }

    /// Forces the envelope `Off` and zeroes both counters; the stage lengths stay.
    pub fn reset(&mut self)
        ensures
            *final(self) == old(self).cleared(),
    {
        self.state = EnvelopeState::Off;
        self.current_sample_idx = 0;
        self.next_state_sample_idx = 0;
    }

    /// The stage the envelope is in.
    #[inline]
    pub fn state(&self) -> (state: EnvelopeState)
        ensures
            state == self.state,
    {
        self.state
    }

    /// Sets the length of `Attack`. An attack that is running is re-timed:
    /// it ends `remaining` samples from now.
    #[inline]
    pub fn attack(&mut self, attack: u64, remaining: u64)
        requires
            old(self).state == EnvelopeState::Attack ==> old(self).current_sample_idx + remaining
                <= u64::MAX,
        ensures
            *final(self) == if old(self).state == EnvelopeState::Attack {
                (Envelope { attack, ..*old(self) }).retimed(remaining)
            } else {
                Envelope { attack, ..*old(self) }
            },
    {
        self.attack = attack;
        if self.state == EnvelopeState::Attack {
            self.next_state_sample_idx = self.current_sample_idx + remaining;
        }
    }

    /// Sets the length of `Decay`. A decay that is running is re-timed:
    /// it ends `remaining` samples from now.
    #[inline]
    pub fn decay(&mut self, decay: u64, remaining: u64)
        requires
            old(self).state == EnvelopeState::Decay ==> old(self).current_sample_idx + remaining
                <= u64::MAX,
        ensures
            *final(self) == if old(self).state == EnvelopeState::Decay {
                (Envelope { decay, ..*old(self) }).retimed(remaining)
            } else {
                Envelope { decay, ..*old(self) }
            },
    {
        self.decay = decay;
        if self.state == EnvelopeState::Decay {
            self.next_state_sample_idx = self.current_sample_idx + remaining;
        }
    }

    /// Sets the length of `Release`. A release that is running is re-timed:
    /// it ends `remaining` samples from now.
    #[inline]
    pub fn release(&mut self, release: u64, remaining: u64)
        requires
            old(self).state == EnvelopeState::Release ==> old(self).current_sample_idx + remaining
                <= u64::MAX,
        ensures
            *final(self) == if old(self).state == EnvelopeState::Release {
                (Envelope { release, ..*old(self) }).retimed(remaining)
            } else {
                Envelope { release, ..*old(self) }
            },
    {
        self.release = release;
        if self.state == EnvelopeState::Release {
            self.next_state_sample_idx = self.current_sample_idx + remaining;
        }
    }

    /// Advances the envelope by one sample and says what happened.
    ///
    /// In `Sustain` and `Off` nothing moves. In a timed stage whose budget
    /// is spent the next stage is entered first; then one sample is counted.
    pub fn next(&mut self) -> (step: Step)
        ensures
            *final(self) == old(self).stepped(),
            step == old(self).step_of(),
    {
        if self.state == EnvelopeState::Sustain || self.state == EnvelopeState::Off {
            return Step::Held;
        }
        let mut step = Step::Ran;
        if self.current_sample_idx >= self.next_state_sample_idx {
            let following = self.state.next();
            self.enter_state(following);
            step = Step::Entered(following);
        }
        self.current_sample_idx += 1;
        step
    }

    /// Starts `state` now, whatever stage the envelope was in.
    pub fn enter_state(&mut self, state: EnvelopeState)
        ensures
            *final(self) == old(self).entered(state),
    {
        self.state = state;
        self.current_sample_idx = 0;
        self.next_state_sample_idx = match state {
            EnvelopeState::Attack => self.attack,
            EnvelopeState::Decay => self.decay,
            EnvelopeState::Release => self.release,
            EnvelopeState::Sustain => 0,
            EnvelopeState::Off => 0,
        };
    }
}

/// A timed stage lasts exactly as long as its budget says: an envelope that
/// is `remaining` samples short of the budget stays in its stage for every
/// one of them, counting each, and the tick after the last one enters the
/// following stage.
pub proof fn lemma_stage_lasts_its_budget(e: Envelope, samples: nat)
    requires
        !e.holds(),
        e.current_sample_idx + samples <= e.next_state_sample_idx,
    ensures
        e.run(samples) == (Envelope {
            current_sample_idx: (e.current_sample_idx + samples) as u64,
            ..e
        }),
        e.current_sample_idx + samples == e.next_state_sample_idx ==> e.run(samples + 1) == (
        Envelope { current_sample_idx: 1, ..e.entered(e.state.spec_next()) }),
    decreases samples,
{
    if samples == 0 {
        assert(e.run(1) == e.stepped().run(0));
    } else {
        let after = e.stepped();
        lemma_stage_lasts_its_budget(after, (samples - 1) as nat);
        assert(e.run(samples + 1) == after.run(samples));
    }
}

/// An envelope only ever moves forward through Attack, Decay, Sustain,
/// Release, Off, however long it runs.
pub proof fn lemma_stages_in_order(e: Envelope, samples: nat)
    ensures
        e.state.rank() <= e.run(samples).state.rank(),
        e.stepped().state == e.state || e.stepped().state == e.state.spec_next(),
    decreases samples,
{
    if samples > 0 {
        lemma_stages_in_order(e.stepped(), (samples - 1) as nat);
    }
}

/// `Sustain` and `Off` never end by themselves: an envelope that holds is
/// the same after any number of samples.
pub proof fn lemma_hold_never_ends(e: Envelope, samples: nat)
    requires
        e.holds(),
    ensures
        e.run(samples) == e,
    decreases samples,
{
    if samples > 0 {
        lemma_hold_never_ends(e.stepped(), (samples - 1) as nat);
    }
}

} // verus!
