//! On-delay timer.
//!
//! The output becomes true only after the input has been continuously true
//! for at least the required number of samples. If the input goes false at
//! any point the internal counter resets and the output is immediately false.
//!
//! The timer counts samples; the caller converts a delay in seconds to a
//! number of samples (the delay divided by the sampling time, rounded).

use vstd::prelude::*;

verus! {

/// The state of an on-delay timer, as mathematical values.
pub struct OnDelayState {
    /// Number of consecutive true samples needed for a true output.
    pub required: int,
    /// Consecutive true samples seen, capped at `required`.
    pub counter: int,
    pub output: bool,
}

/// The state after a reset: nothing counted, output false.
pub open spec fn on_delay_reset(required: int) -> OnDelayState {
    OnDelayState { required, counter: 0, output: false }
}

/// One sample of the on-delay timer.
pub open spec fn on_delay_step(s: OnDelayState, input: bool) -> OnDelayState {
    if input {
        let counter = if s.counter < s.required { s.counter + 1 } else { s.counter };
        OnDelayState { required: s.required, counter, output: counter >= s.required }
    } else {
        OnDelayState { required: s.required, counter: 0, output: false }
    }
}

/// The state after feeding `inputs`, oldest first, to a timer in state `s`.
pub open spec fn on_delay_run(s: OnDelayState, inputs: Seq<bool>) -> OnDelayState
    decreases inputs.len(),
{
    if inputs.len() == 0 {
        s
    } else {
        on_delay_step(on_delay_run(s, inputs.drop_last()), inputs.last())
    }
}

/// Number of consecutive `true` values at the end of `inputs`.
pub open spec fn trailing_true(inputs: Seq<bool>) -> nat
    decreases inputs.len(),
{
    if inputs.len() == 0 {
        0
    } else if inputs.last() {
        trailing_true(inputs.drop_last()) + 1
    } else {
        0
    }
}

/// On-Delay Timer.
pub struct OnDelay {
    samples_required: i32,
    sample_counter: i32,
    output: bool,
}

impl View for OnDelay {
    type V = OnDelayState;

    closed spec fn view(&self) -> OnDelayState {
        OnDelayState {
            required: self.samples_required as int,
            counter: self.sample_counter as int,
            output: self.output,
        }
    }
}

impl OnDelay {
    #[verifier::type_invariant]
    spec fn counter_in_range(&self) -> bool {
        0 <= self.sample_counter
    }

    /// Creates a timer that needs `samples_required` consecutive true samples.
    pub fn from_samples(samples_required: i32) -> (r: Self)
        ensures
            r@ == on_delay_reset(samples_required as int),
    {
        Self { samples_required, sample_counter: 0, output: false }
    }

    /// Sets the number of samples required and resets the timer.
    pub fn configure_samples(&mut self, samples_required: i32)
        ensures
            final(self)@ == on_delay_reset(samples_required as int),
    {
        *self = Self { samples_required, sample_counter: 0, output: false };
    }

    /// The number of consecutive true samples required.
    pub fn samples_required(&self) -> (r: i32)
        ensures
            r == self@.required,
    {
        self.samples_required
    }

    /// Clears the counter and the output.
    pub fn reset(&mut self)
        ensures
            final(self)@ == on_delay_reset(old(self)@.required),
    {
        *self = Self { samples_required: self.samples_required, sample_counter: 0, output: false };
    }

    /// Processes one sample of the input.
    pub fn update(&mut self, input: bool)
        ensures
            final(self)@ == on_delay_step(old(self)@, input),
    {
        proof {
            use_type_invariant(&*self);
        }
        if input {
            let counter = if self.sample_counter < self.samples_required {
                self.sample_counter + 1
            } else {
                self.sample_counter
            };
            *self = Self {
                samples_required: self.samples_required,
                sample_counter: counter,
                output: counter >= self.samples_required,
            };
        } else {
            *self = Self { samples_required: self.samples_required, sample_counter: 0, output: false };
        }
    }

    /// The current output.
    pub fn output(&self) -> (r: bool)
        ensures
            r == self@.output,
    {
        self.output
    }
}

/// After a reset, the on-delay output is true exactly when the latest
/// inputs include at least one `true` and at least `required` consecutive
/// `true` values at the end; the counter holds that run length, capped at
/// `required`.
pub proof fn lemma_on_delay_output(required: int, inputs: Seq<bool>)
    ensures
        on_delay_run(on_delay_reset(required), inputs).required == required,
        on_delay_run(on_delay_reset(required), inputs).counter == if trailing_true(inputs)
            < required {
            trailing_true(inputs) as int
        } else if required > 0 {
            required
        } else {
            0
        },
        on_delay_run(on_delay_reset(required), inputs).output == (trailing_true(inputs) > 0
            && trailing_true(inputs) >= required),
    decreases inputs.len(),
{
    if inputs.len() > 0 {
        lemma_on_delay_output(required, inputs.drop_last());
    }
}

} // verus!
