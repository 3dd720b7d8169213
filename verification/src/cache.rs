//! The cache of the current description, which tells a change from a repeat.

use vstd::prelude::*;
use crate::description::DescriptionView;
use crate::description::LogoResponse;

verus! {

/// What offering a description to the cache came to.
#[derive(Clone, Copy, Debug, PartialEq, Eq, Structural)]
pub enum SwapOutcome {
    /// The description differed from the one held and has replaced it.
    Changed,
    /// The description equals the one held; nothing was replaced.
    Unchanged,
}

/// What the cache reports when it holds `held` and is offered `candidate`.
pub open spec fn swap_outcome(held: DescriptionView, candidate: DescriptionView) -> SwapOutcome {
    if candidate == held {
        SwapOutcome::Unchanged
    } else {
        SwapOutcome::Changed
    }
}

/// What the cache holds after it held `held` and was offered `candidate`.
pub open spec fn swap_state(held: DescriptionView, candidate: DescriptionView) -> DescriptionView {
    if candidate == held {
        held
    } else {
        candidate
    }
}

/// The single current description. It is replaced as a whole, and only by a
/// description that differs from it.
#[derive(Debug)]
pub struct LogoCache {
    current: LogoResponse,
}

impl View for LogoCache {
    type V = DescriptionView;

    closed spec fn view(&self) -> DescriptionView {
        self.current@
    }
}

impl LogoCache {
    /// A cache that holds the description without characters.
    pub fn new() -> (r: Self)
        ensures
            r@ == DescriptionView::empty(),
    {
        LogoCache { current: LogoResponse::empty() }
    }

    /// Offers a description to the cache. The cache takes it and reports
    /// `Changed` if and only if it differs from the description held;
    /// otherwise the cache stays as it is and reports `Unchanged`.
    pub fn compare_and_swap(&mut self, candidate: LogoResponse) -> (r: SwapOutcome)
        ensures
            r == swap_outcome(old(self)@, candidate@),
            final(self)@ == swap_state(old(self)@, candidate@),
            final(self)@ == candidate@,
    {
        if candidate.same_as(&self.current) {
            SwapOutcome::Unchanged
        } else {
            self.current = candidate;
            SwapOutcome::Changed
        }
    }

    /// A copy of the description held.
    pub fn snapshot(&self) -> (r: LogoResponse)
        ensures
            r@ == self@,
    {
        self.current.duplicate()
    }

    /// The description held.
    pub fn current(&self) -> (r: &LogoResponse)
        ensures
            r@ == self@,
    {
        &self.current
    }
}

impl Default for LogoCache {
    fn default() -> (r: Self)
        ensures
            r@ == DescriptionView::empty(),
    {
        LogoCache::new()
    }
}

/// Offering a description a second time changes nothing: whatever the cache
/// held at first, the second offer of the same description is reported as
/// `Unchanged` and leaves the cache as the first offer left it. The first
/// offer is reported as `Changed` exactly when the description differs from
/// what the cache held.
pub proof fn lemma_swap_repeated(held: DescriptionView, candidate: DescriptionView)
    ensures
        swap_outcome(held, candidate) == SwapOutcome::Changed <==> candidate != held,
        swap_outcome(swap_state(held, candidate), candidate) == SwapOutcome::Unchanged,
        swap_state(swap_state(held, candidate), candidate) == swap_state(held, candidate),
{
}

/// A cache that is offered a description other than the one it holds, and
/// then again the same description, reports `Changed`, then `Unchanged`.
pub proof fn lemma_swap_same_twice(held: DescriptionView, first: DescriptionView)
    requires
        first != held,
    ensures
        swap_outcome(held, first) == SwapOutcome::Changed,
        swap_outcome(swap_state(held, first), first) == SwapOutcome::Unchanged,
        swap_state(swap_state(held, first), first) == first,
{
}

/// A cache that is offered a description other than the one it holds, and
/// then a description that differs from that one, reports `Changed` both
/// times and ends up holding the second.
pub proof fn lemma_swap_distinct(held: DescriptionView, first: DescriptionView, second: DescriptionView)
    requires
        first != held,
        first != second,
    ensures
        swap_outcome(held, first) == SwapOutcome::Changed,
        swap_outcome(swap_state(held, first), second) == SwapOutcome::Changed,
        swap_state(swap_state(held, first), second) == second,
{
}

} // verus!
