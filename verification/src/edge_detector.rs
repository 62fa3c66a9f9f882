//! Rising and falling edge detector for boolean signals.

use vstd::prelude::*;

verus! {

/// A rising edge: the input changes from `false` to `true`.
pub open spec fn is_rising(previous_input: bool, input: bool) -> bool {
    !previous_input && input
}

/// A falling edge: the input changes from `true` to `false`.
pub open spec fn is_falling(previous_input: bool, input: bool) -> bool {
    previous_input && !input
}

/// Rising and falling edge detector for boolean signals.
///
/// Detects transitions in a boolean input signal. A **rising edge** occurs when
/// the input changes from `false` to `true`; a **falling edge** occurs on the
/// opposite transition. The detector must be called once per control cycle via
/// [`update`](EdgeDetector::update).
pub struct EdgeDetector {
    rising_edge: bool,
    falling_edge: bool,
    previous_input: bool,
}

impl EdgeDetector {
    /// Whether the last update saw a rising edge.
    pub closed spec fn rising(&self) -> bool {
        self.rising_edge
    }

    /// Whether the last update saw a falling edge.
    pub closed spec fn falling(&self) -> bool {
        self.falling_edge
    }

    /// The input of the last update (`false` before the first one).
    pub closed spec fn previous(&self) -> bool {
        self.previous_input
    }

    /// The state of a detector that has seen no input.
    pub open spec fn is_initial(&self) -> bool {
        !self.rising() && !self.falling() && !self.previous()
    }

    /// Creates a new [`EdgeDetector`] with no prior input history.
    pub fn new() -> (r: Self)
        ensures
            r.is_initial(),
    {
        Self { rising_edge: false, falling_edge: false, previous_input: false }
    }

    /// Processes the current `input` and returns `true` when a rising edge is
    /// detected.
    pub fn update(&mut self, input: bool) -> (r: bool)
        ensures
            final(self).rising() == is_rising(old(self).previous(), input),
            final(self).falling() == is_falling(old(self).previous(), input),
            final(self).previous() == input,
            r == final(self).rising(),
    {
        self.rising_edge = !self.previous_input && input;
        self.falling_edge = self.previous_input && !input;
        self.previous_input = input;
        self.rising_edge
    }

    /// Returns `true` if the last [`update`](Self::update) detected a rising
    /// edge.
    pub fn is_rising_edge(&self) -> (r: bool)
        ensures
            r == self.rising(),
    {
        self.rising_edge
    }

    /// Returns `true` if the last [`update`](Self::update) detected a falling
    /// edge.
    pub fn is_falling_edge(&self) -> (r: bool)
        ensures
            r == self.falling(),
    {
        self.falling_edge
    }

    /// Resets the detector to its initial state (no edges, previous input
    /// `false`).
    pub fn reset(&mut self)
        ensures
            final(self).is_initial(),
    {
        self.rising_edge = false;
        self.falling_edge = false;
        self.previous_input = false;
    }
}

impl Default for EdgeDetector {
    /// Same as [`EdgeDetector::new`].
    fn default() -> (r: Self)
        ensures
            r.is_initial(),
    {
        Self::new()
    }
}

/// An update never reports a rising and a falling edge at once, and an
/// input equal to the previous one is no edge.
pub proof fn lemma_edges(previous_input: bool, input: bool)
    ensures
        !(is_rising(previous_input, input) && is_falling(previous_input, input)),
        previous_input == input ==> !is_rising(previous_input, input) && !is_falling(
            previous_input,
            input,
        ),
        is_rising(previous_input, input) || is_falling(previous_input, input) <==> previous_input
            != input,
{
}

} // verus!
