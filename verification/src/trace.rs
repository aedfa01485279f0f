//! Initialization ordering, proved over traces: the three stages run once
//! each, in order, strictly before any other primitive.

use vstd::prelude::*;
use crate::hal::{Event, HalModel, InitStage};

verus! {

/// True of the three initialization events, false of every other primitive.
pub open spec fn is_stage(e: Event) -> bool {
    e == Event::SysinitStart || e == Event::SysinitApp || e == Event::SysinitEnd
}

/// The exact trace the platform has seen while initialization is still under
/// way, and the head every later trace keeps.
pub open spec fn stage_trace(s: InitStage) -> Seq<Event> {
    match s {
        InitStage::Uninit => Seq::<Event>::empty(),
        InitStage::Started => seq![Event::SysinitStart],
        InitStage::AppReady => seq![Event::SysinitStart, Event::SysinitApp],
        InitStage::Ready => seq![Event::SysinitStart, Event::SysinitApp, Event::SysinitEnd],
    }
}

/// The pristine model: power-on, before any primitive has run.
pub open spec fn pristine(m: HalModel) -> bool {
    m.init == InitStage::Uninit && m.trace == Seq::<Event>::empty()
}

/// Initialization ordering invariant: until initialization is complete the
/// trace holds exactly the stages run so far, in order; afterwards the three
/// stages stand at its head, once each, and everything after them is some
/// other primitive.
pub open spec fn trace_inv(m: HalModel) -> bool {
    if m.init == InitStage::Ready {
        &&& m.trace.len() >= 3
        &&& m.trace.take(3) == stage_trace(InitStage::Ready)
        &&& forall|i: int| 3 <= i < m.trace.len() ==> !is_stage(#[trigger] m.trace[i])
    } else {
        m.trace == stage_trace(m.init)
    }
}

/// One invocation of any primitive, as the `Hal` contracts permit it: each
/// initialization stage runs only in its place and advances the stage; every
/// other primitive runs only once initialization is complete, and leaves the
/// stage alone.
pub open spec fn primitive_step(pre: HalModel, post: HalModel) -> bool {
    ||| (pre.init == InitStage::Uninit && post.init == InitStage::Started
        && post.trace == pre.trace.push(Event::SysinitStart))
    ||| (pre.init == InitStage::Started && post.init == InitStage::AppReady
        && post.trace == pre.trace.push(Event::SysinitApp))
    ||| (pre.init == InitStage::AppReady && post.init == InitStage::Ready
        && post.trace == pre.trace.push(Event::SysinitEnd))
    ||| (pre.init == InitStage::Ready && post.init == InitStage::Ready
        && exists|e: Event| !is_stage(e) && post.trace == #[trigger] pre.trace.push(e))
}

/// At power-on the ordering invariant holds.
pub proof fn lemma_trace_inv_pristine(m: HalModel)
    requires
        pristine(m),
    ensures
        trace_inv(m),
{
}

/// No primitive invocation breaks the ordering invariant.
pub proof fn lemma_trace_inv_step(pre: HalModel, post: HalModel)
    requires
        trace_inv(pre),
        primitive_step(pre, post),
    ensures
        trace_inv(post),
{
    if pre.init == InitStage::Ready {
        let e = choose|e: Event| !is_stage(e) && post.trace == #[trigger] pre.trace.push(e);
        assert(post.trace.take(3) =~= pre.trace.take(3));
    } else if pre.init == InitStage::Uninit {
        assert(post.trace =~= stage_trace(InitStage::Started));
    } else if pre.init == InitStage::Started {
        assert(post.trace =~= stage_trace(InitStage::AppReady));
    } else {
        assert(post.trace.take(3) =~= stage_trace(InitStage::Ready));
    }
}

/// Initialization ordering: wherever a trace that satisfies the invariant
/// holds an event other than the three stages, the stages stand before it,
/// once each, in their fixed order, and nowhere else.
pub proof fn lemma_init_ordering(m: HalModel, i: int)
    requires
        trace_inv(m),
        0 <= i < m.trace.len(),
        !is_stage(m.trace[i]),
    ensures
        m.init == InitStage::Ready,
        i >= 3,
        m.trace[0] == Event::SysinitStart,
        m.trace[1] == Event::SysinitApp,
        m.trace[2] == Event::SysinitEnd,
        forall|j: int| 3 <= j < m.trace.len() ==> !is_stage(#[trigger] m.trace[j]),
{
    if m.init != InitStage::Ready {
        assert(m.trace == stage_trace(m.init));
        assert(is_stage(m.trace[i]));
    }
    assert(m.trace[0] == m.trace.take(3)[0]);
    assert(m.trace[1] == m.trace.take(3)[1]);
    assert(m.trace[2] == m.trace.take(3)[2]);
}

} // verus!
