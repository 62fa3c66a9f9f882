//! Off-delay timer.
//!
//! The output becomes true as soon as the input is true. When the input goes
//! false the timer counts, and the output becomes false only after the input
//! has been continuously false for the required number of samples.
//!
//! The timer counts samples; the caller converts a delay in seconds to a
//! number of samples (the delay divided by the sampling time, rounded).

use vstd::prelude::*;

verus! {

/// The state of an off-delay timer, as mathematical values.
pub struct OffDelayState {
    /// Number of consecutive false samples after which the output drops.
    pub required: int,
    /// Consecutive false samples seen while the output was true.
    pub counter: int,
    pub output: bool,
}

/// The state after a reset: nothing counted, output false.
pub open spec fn off_delay_reset(required: int) -> OffDelayState {
    OffDelayState { required, counter: 0, output: false }
}

/// One sample of the off-delay timer.
pub open spec fn off_delay_step(s: OffDelayState, input: bool) -> OffDelayState {
    if input {
        OffDelayState { required: s.required, counter: 0, output: true }
    } else if s.output {
        OffDelayState {
            required: s.required,
            counter: s.counter + 1,
            output: !(s.counter + 1 >= s.required),
        }
    } else {
        OffDelayState { required: s.required, counter: 0, output: false }
    }
}

/// The state after feeding `inputs`, oldest first, to a timer in state `s`.
pub open spec fn off_delay_run(s: OffDelayState, inputs: Seq<bool>) -> OffDelayState
    decreases inputs.len(),
{
    if inputs.len() == 0 {
        s
    } else {
        off_delay_step(off_delay_run(s, inputs.drop_last()), inputs.last())
    }
}

/// Number of consecutive `false` values at the end of `inputs`.
pub open spec fn trailing_false(inputs: Seq<bool>) -> nat
    decreases inputs.len(),
{
    if inputs.len() == 0 {
        0
    } else if !inputs.last() {
        trailing_false(inputs.drop_last()) + 1
    } else {
        0
    }
}

/// Off-Delay Timer.
pub struct OffDelay {
    samples_required: i32,
    sample_counter: i32,
    output: bool,
}

impl View for OffDelay {
    type V = OffDelayState;

    closed spec fn view(&self) -> OffDelayState {
        OffDelayState {
            required: self.samples_required as int,
            counter: self.sample_counter as int,
            output: self.output,
        }
    }
}

impl OffDelay {
    /// While the output is true the counter is below the number of samples
    /// required, or zero; so it never overflows.
    #[verifier::type_invariant]
    spec fn counter_in_range(&self) -> bool {
        &&& 0 <= self.sample_counter
        &&& self.output ==> (self.sample_counter == 0 || self.sample_counter
            < self.samples_required)
    }

    /// Creates a timer whose output drops after `samples_required`
    /// consecutive false samples.
    pub fn from_samples(samples_required: i32) -> (r: Self)
        ensures
            r@ == off_delay_reset(samples_required as int),
    {
        Self { samples_required, sample_counter: 0, output: false }
    }

    /// Sets the number of samples required and resets the timer.
    pub fn configure_samples(&mut self, samples_required: i32)
        ensures
            final(self)@ == off_delay_reset(samples_required as int),
    {
        *self = Self { samples_required, sample_counter: 0, output: false };
    }

    /// The number of consecutive false samples required.
    pub fn samples_required(&self) -> (r: i32)
        ensures
            r == self@.required,
    {
        self.samples_required
    }

    /// Clears the counter and the output.
    pub fn reset(&mut self)
        ensures
            final(self)@ == off_delay_reset(old(self)@.required),
    {
        *self = Self { samples_required: self.samples_required, sample_counter: 0, output: false };
    }

    /// Processes one sample of the input.
    pub fn update(&mut self, input: bool)
        ensures
            final(self)@ == off_delay_step(old(self)@, input),
    {
        proof {
            use_type_invariant(&*self);
        }
        if input {
            *self = Self { samples_required: self.samples_required, sample_counter: 0, output: true };
        } else if self.output {
            let counter = self.sample_counter + 1;
            *self = Self {
                samples_required: self.samples_required,
                sample_counter: counter,
                output: !(counter >= self.samples_required),
            };
        } else {
            *self = Self { samples_required: self.samples_required, sample_counter: 0, output: false };
        }
    }

    /// The current output.
    pub fn output(&self) -> (r: bool)
        ensures
            r == self@.output,
    {
        self.output
    }
}

/// After a reset, the off-delay output is true exactly when the latest input
/// is `true`, or some input was `true` and fewer than `required` `false`
/// values have followed the last `true` one; while the output is true, the
/// counter holds that number of `false` values.
pub proof fn lemma_off_delay_output(required: int, inputs: Seq<bool>)
    ensures
        off_delay_run(off_delay_reset(required), inputs).required == required,
        off_delay_run(off_delay_reset(required), inputs).output == ((inputs.len() > 0
            && inputs.last()) || (inputs.contains(true) && trailing_false(inputs) < required)),
        off_delay_run(off_delay_reset(required), inputs).output ==> off_delay_run(
            off_delay_reset(required),
            inputs,
        ).counter == trailing_false(inputs),
    decreases inputs.len(),
{
    if inputs.len() > 0 {
        let prefix = inputs.drop_last();
        lemma_off_delay_output(required, prefix);
        if inputs.last() {
            assert(inputs.contains(true)) by {
                assert(inputs[inputs.len() - 1] == true);
            }
        } else {
            assert(inputs.contains(true) == prefix.contains(true)) by {
                if prefix.contains(true) {
                    let k = choose|k: int| 0 <= k < prefix.len() && prefix[k] == true;
                    assert(inputs[k] == true);
                }
                if inputs.contains(true) {
                    let k = choose|k: int| 0 <= k < inputs.len() && inputs[k] == true;
                    assert(prefix[k] == true);
                }
            }
        }
    }
}

} // verus!
