//! The platform capability: the five foreign primitives the device offers,
//! as a trait whose contracts speak of an abstract platform state.

use vstd::prelude::*;

verus! {

/// The platform's initialization progress. Three ordered stages bring the
/// system from power-on to the state in which every other primitive may run.
#[derive(Clone, Copy, Debug, PartialEq, Eq, Structural)]
pub enum InitStage {
    /// Power-on: only the first initialization stage may run.
    Uninit,
    /// The first stage has run: only the second may follow.
    Started,
    /// The second stage has run: only the third may follow.
    AppReady,
    /// Initialization is complete: GPIO and timing primitives may run.
    Ready,
}

/// One invocation of a platform primitive, as a model's trace records it.
#[derive(Clone, Copy, Debug, PartialEq, Eq, Structural)]
pub enum Event {
    /// The first initialization stage ran.
    SysinitStart,
    /// The second initialization stage ran.
    SysinitApp,
    /// The third initialization stage ran.
    SysinitEnd,
    /// The pin was asked to become an output driven to the level.
    GpioInitOut(u32, bool),
    /// The pin's output level was inverted.
    GpioToggle(u32),
    /// The thread of control blocked for the given number of ticks.
    TimeDelay(u32),
    /// A millisecond count was converted to ticks.
    MsToTicks(u32),
}

/// The abstract state of the platform. Every contract of [`Hal`] and of the
/// layers above it speaks of this model, never of device registers.
#[verifier::ext_equal]
pub struct HalModel {
    /// How far initialization has come.
    pub init: InitStage,
    /// The pins configured as outputs, each with its current level.
    pub pins: Map<u32, bool>,
    /// Platform time elapsed since power-on, in milliseconds.
    pub elapsed_ms: nat,
    /// The platform's conversion from milliseconds to its native tick unit;
    /// `None` marks a duration the tick range cannot represent.
    pub ticks_of_ms: Map<u32, Option<u32>>,
    /// The least time, in milliseconds, that a delay of the given number of
    /// ticks spans.
    pub ms_of_ticks: Map<u32, nat>,
    /// Every primitive invocation so far, oldest first.
    pub trace: Seq<Event>,
}

/// A platform converts soundly when every millisecond count it can represent
/// maps to a tick count spanning at least that many milliseconds.
pub open spec fn conv_sound(m: HalModel) -> bool {
    forall|ms: u32| (#[trigger] m.ticks_of_ms[ms]) is Some ==> m.ms_of_ticks[m.ticks_of_ms[ms]->0] >= ms
}

/// The model after one toggle of `pin`: the pin's level inverted, the call
/// recorded, everything else untouched.
pub open spec fn toggled(m: HalModel, pin: u32) -> HalModel {
    HalModel {
        pins: m.pins.insert(pin, !m.pins[pin]),
        trace: m.trace.push(Event::GpioToggle(pin)),
        ..m
    }
}

/// The five foreign primitives. Verified code reaches the platform only
/// through this trait; the contracts are the documented behaviour of the
/// primitives, stated over [`HalModel`]. Their ordering demands — each
/// initialization stage in its place, nothing else before the last stage —
/// stand in the `requires` clauses, so no verified caller can break them.
pub trait Hal: Sized {
    /// The abstract platform state this value is in. An implementation that
    /// leaves it undefined promises nothing: every contract below then holds
    /// of an arbitrary model, and nothing can be proved through it.
    open spec fn model(&self) -> HalModel {
        arbitrary()
    }

    /// First initialization stage; runs exactly once, at power-on.
    fn sysinit_start(&mut self)
        requires
            old(self).model().init == InitStage::Uninit,
        ensures
            final(self).model() == (HalModel {
                init: InitStage::Started,
                trace: old(self).model().trace.push(Event::SysinitStart),
                ..old(self).model()
            }),
    ;

    /// Second initialization stage; runs exactly once, after the first.
    fn sysinit_app(&mut self)
        requires
            old(self).model().init == InitStage::Started,
        ensures
            final(self).model() == (HalModel {
                init: InitStage::AppReady,
                trace: old(self).model().trace.push(Event::SysinitApp),
                ..old(self).model()
            }),
    ;

    /// Third initialization stage; runs exactly once, after the second.
    /// After it every other primitive is permitted.
    fn sysinit_end(&mut self)
        requires
            old(self).model().init == InitStage::AppReady,
        ensures
            final(self).model() == (HalModel {
                init: InitStage::Ready,
                trace: old(self).model().trace.push(Event::SysinitEnd),
                ..old(self).model()
            }),
    ;

    /// Configures `pin` as a digital output driven to `initial_level`.
    /// A non-zero status reports failure (an unwired pin, say) and leaves
    /// the platform as it was; which pins succeed is the platform's affair.
    fn gpio_init_out(&mut self, pin: u32, initial_level: bool) -> (status: i32)
        requires
            old(self).model().init == InitStage::Ready,
        ensures
            status == 0 ==> final(self).model() == (HalModel {
                pins: old(self).model().pins.insert(pin, initial_level),
                trace: old(self).model().trace.push(Event::GpioInitOut(pin, initial_level)),
                ..old(self).model()
            }),
            status != 0 ==> final(self).model() == (HalModel {
                trace: old(self).model().trace.push(Event::GpioInitOut(pin, initial_level)),
                ..old(self).model()
            }),
    ;

    /// Inverts the output level of a previously configured pin; never fails.
    fn gpio_toggle(&mut self, pin: u32)
        requires
            old(self).model().init == InitStage::Ready,
            old(self).model().pins.contains_key(pin),
        ensures
            final(self).model() == toggled(old(self).model(), pin),
    ;

    /// Blocks the calling thread of control for at least `ticks` ticks.
    fn time_delay(&mut self, ticks: u32)
        requires
            old(self).model().init == InitStage::Ready,
        ensures
            final(self).model().init == old(self).model().init,
            final(self).model().pins == old(self).model().pins,
            final(self).model().ticks_of_ms == old(self).model().ticks_of_ms,
            final(self).model().ms_of_ticks == old(self).model().ms_of_ticks,
            final(self).model().elapsed_ms
                >= old(self).model().elapsed_ms + old(self).model().ms_of_ticks[ticks],
            final(self).model().trace == old(self).model().trace.push(Event::TimeDelay(ticks)),
    ;

    /// Converts a millisecond count into ticks, writing the result through
    /// `ticks_out`. A non-zero status reports that the duration has no tick
    /// representation; `ticks_out` is then left as it was. Takes no time.
    fn time_ms_to_ticks(&mut self, ms: u32, ticks_out: &mut u32) -> (status: i32)
        requires
            old(self).model().init == InitStage::Ready,
        ensures
            final(self).model() == (HalModel {
                trace: old(self).model().trace.push(Event::MsToTicks(ms)),
                ..old(self).model()
            }),
            (status == 0) == (old(self).model().ticks_of_ms[ms] is Some),
            status == 0 ==> Some(*final(ticks_out)) == old(self).model().ticks_of_ms[ms],
            status != 0 ==> *final(ticks_out) == *old(ticks_out),
    ;
}

} // verus!
