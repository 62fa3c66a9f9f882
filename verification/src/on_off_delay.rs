//! Combined on-off delay timer.
//!
//! Chains an [`OnDelay`] followed by an [`OffDelay`]. The on-delay gates
//! false→true transitions and the off-delay gates true→false transitions,
//! providing debouncing in both directions.

use crate::off_delay::{
    off_delay_reset, off_delay_run, off_delay_step, OffDelay, OffDelayState,
};
use crate::on_delay::{on_delay_reset, on_delay_run, on_delay_step, OnDelay, OnDelayState};
use vstd::prelude::*;

verus! {

/// The outputs of an on-delay timer, one per input, after a reset.
pub open spec fn on_delay_outputs(required: int, inputs: Seq<bool>) -> Seq<bool> {
    Seq::new(
        inputs.len(),
        |i: int| on_delay_run(on_delay_reset(required), inputs.take(i + 1)).output,
    )
}

/// One sample of the combined timer: the input goes through the on-delay
/// stage, whose new output goes through the off-delay stage.
pub open spec fn on_off_delay_step(s: (OnDelayState, OffDelayState), input: bool) -> (
    OnDelayState,
    OffDelayState,
) {
    let on = on_delay_step(s.0, input);
    (on, off_delay_step(s.1, on.output))
}

/// The state after feeding `inputs`, oldest first, to a timer in state `s`.
pub open spec fn on_off_delay_run(s: (OnDelayState, OffDelayState), inputs: Seq<bool>) -> (
    OnDelayState,
    OffDelayState,
)
    decreases inputs.len(),
{
    if inputs.len() == 0 {
        s
    } else {
        on_off_delay_step(on_off_delay_run(s, inputs.drop_last()), inputs.last())
    }
}

/// Combined On-Off Delay Timer.
pub struct OnOffDelay {
    on_timer: OnDelay,
    off_timer: OffDelay,
}

impl View for OnOffDelay {
    type V = (OnDelayState, OffDelayState);

    /// The states of the on-delay stage and of the off-delay stage.
    closed spec fn view(&self) -> (OnDelayState, OffDelayState) {
        (self.on_timer@, self.off_timer@)
    }
}

impl OnOffDelay {
    /// Creates a timer with no delay in either direction.
    pub fn new() -> (r: Self)
        ensures
            r@ == (on_delay_reset(0), off_delay_reset(0)),
    {
        Self { on_timer: OnDelay::from_samples(0), off_timer: OffDelay::from_samples(0) }
    }

    /// Sets both delays, in samples, and resets both stages.
    pub fn configure_samples(&mut self, on_samples: i32, off_samples: i32)
        ensures
            final(self)@ == (on_delay_reset(on_samples as int), off_delay_reset(
                off_samples as int,
            )),
    {
        self.on_timer.configure_samples(on_samples);
        self.off_timer.configure_samples(off_samples);
    }

    /// Resets both stages.
    pub fn reset(&mut self)
        ensures
            final(self)@ == (on_delay_reset(old(self)@.0.required), off_delay_reset(
                old(self)@.1.required,
            )),
    {
        self.on_timer.reset();
        self.off_timer.reset();
    }

    /// Processes one sample: the input goes through the on-delay stage, whose
    /// new output goes through the off-delay stage.
    pub fn update(&mut self, input: bool)
        ensures
            final(self)@.0 == on_delay_step(old(self)@.0, input),
            final(self)@.1 == off_delay_step(old(self)@.1, final(self)@.0.output),
    {
        self.on_timer.update(input);
        let on = self.on_timer.output();
        self.off_timer.update(on);
    }

    /// The current output (that of the off-delay stage).
    pub fn output(&self) -> (r: bool)
        ensures
            r == self@.1.output,
    {
        self.off_timer.output()
    }
}

/// After a reset, the combined timer runs its on-delay stage on the inputs,
/// and its off-delay stage on the sequence of on-delay outputs: each stage
/// sees, sample by sample, what the stage before it produced.
pub proof fn lemma_on_off_delay_chain(on_required: int, off_required: int, inputs: Seq<bool>)
    ensures
        on_off_delay_run((on_delay_reset(on_required), off_delay_reset(off_required)), inputs).0
            == on_delay_run(on_delay_reset(on_required), inputs),
        on_off_delay_run((on_delay_reset(on_required), off_delay_reset(off_required)), inputs).1
            == off_delay_run(off_delay_reset(off_required), on_delay_outputs(on_required, inputs)),
    decreases inputs.len(),
{
    if inputs.len() > 0 {
        let prefix = inputs.drop_last();
        lemma_on_off_delay_chain(on_required, off_required, prefix);
        let outs = on_delay_outputs(on_required, inputs);
        let prev = on_delay_outputs(on_required, prefix);
        assert forall|i: int| 0 <= i < prefix.len() implies #[trigger] outs[i] == prev[i] by {
            assert(inputs.take(i + 1) =~= prefix.take(i + 1));
        }
        assert(outs.drop_last() =~= prev);
        assert(inputs.take(inputs.len() as int) =~= inputs);
    }
}

} // verus!
