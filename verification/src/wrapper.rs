//! The safe wrapper layer: the only sanctioned entry points by which
//! application logic touches platform state. Foreign failure signals become
//! one uniform [`Fault`] outcome, which the caller treats as fatal.

use vstd::prelude::*;
use crate::hal::{conv_sound, toggled, Event, Hal, HalModel, InitStage};
use crate::trace::{is_stage, lemma_trace_inv_step, trace_inv};

verus! {

/// A foreign-call failure the safe layer reports. An embedded control loop
/// has no caller to hand an error to, so whoever receives a `Fault` halts
/// the process.
#[derive(Clone, Copy, Debug, PartialEq, Eq, Structural)]
pub enum Fault {
    /// The requested millisecond count has no representation in ticks.
    TickOverflow,
    /// The platform refused to configure the pin as an output.
    GpioConfig,
}

/// Blocks the sole thread of control for at least `ms` milliseconds.
///
/// The conversion primitive decides: where `ms` is representable in ticks the
/// call waits and returns `Ok`, and at least `ms` milliseconds of platform
/// time pass; where it is not, the call returns `Err` at once, without ever
/// reaching the delay primitive, and the platform is left exactly as it was
/// but for the recorded conversion attempt.
pub fn delay_ms<H: Hal>(hal: &mut H, ms: u32) -> (r: Result<(), Fault>)
    requires
        old(hal).model().init == InitStage::Ready,
        conv_sound(old(hal).model()),
    ensures
        r is Ok <==> old(hal).model().ticks_of_ms[ms] is Some,
        r is Ok ==> {
            &&& final(hal).model().init == InitStage::Ready
            &&& final(hal).model().pins == old(hal).model().pins
            &&& final(hal).model().ticks_of_ms == old(hal).model().ticks_of_ms
            &&& final(hal).model().ms_of_ticks == old(hal).model().ms_of_ticks
            &&& final(hal).model().elapsed_ms >= old(hal).model().elapsed_ms + ms
            &&& final(hal).model().trace == old(hal).model().trace
                .push(Event::MsToTicks(ms))
                .push(Event::TimeDelay(old(hal).model().ticks_of_ms[ms]->0))
        },
        r is Err ==> r == Err::<(), Fault>(Fault::TickOverflow)
            && final(hal).model() == (HalModel {
                trace: old(hal).model().trace.push(Event::MsToTicks(ms)),
                ..old(hal).model()
            }),
        trace_inv(old(hal).model()) ==> trace_inv(final(hal).model()),
{
    let ghost m0 = old(hal).model();
    let mut ticks: u32 = 0;
    let status = hal.time_ms_to_ticks(ms, &mut ticks);
    let ghost m1 = hal.model();
    proof {
        assert(!is_stage(Event::MsToTicks(ms)));
        if trace_inv(m0) {
            lemma_trace_inv_step(m0, m1);
        }
    }
    if status != 0 {
        return Err(Fault::TickOverflow);
    }
    hal.time_delay(ticks);
    proof {
        assert(!is_stage(Event::TimeDelay(ticks)));
        if trace_inv(m0) {
            lemma_trace_inv_step(m1, hal.model());
        }
        assert(m0.ticks_of_ms[ms] is Some);
        assert(m0.ms_of_ticks[ticks] >= ms);
    }
    Ok(())
}

/// Configures `pin` as a digital output driven to `initial_level`.
///
/// A platform refusal (an unwired pin, a hardware fault) comes back as
/// `Err(Fault::GpioConfig)` with the platform left as it was but for the
/// recorded attempt; the caller treats it as fatal.
pub fn configure_output<H: Hal>(hal: &mut H, pin: u32, initial_level: bool) -> (r: Result<
    (),
    Fault,
>)
    requires
        old(hal).model().init == InitStage::Ready,
    ensures
        r is Ok ==> final(hal).model() == (HalModel {
            pins: old(hal).model().pins.insert(pin, initial_level),
            trace: old(hal).model().trace.push(Event::GpioInitOut(pin, initial_level)),
            ..old(hal).model()
        }),
        r is Err ==> r == Err::<(), Fault>(Fault::GpioConfig)
            && final(hal).model() == (HalModel {
                trace: old(hal).model().trace.push(Event::GpioInitOut(pin, initial_level)),
                ..old(hal).model()
            }),
        trace_inv(old(hal).model()) ==> trace_inv(final(hal).model()),
{
    let ghost m0 = old(hal).model();
    let status = hal.gpio_init_out(pin, initial_level);
    proof {
        assert(!is_stage(Event::GpioInitOut(pin, initial_level)));
        if trace_inv(m0) {
            lemma_trace_inv_step(m0, hal.model());
        }
    }
    if status == 0 {
        Ok(())
    } else {
        Err(Fault::GpioConfig)
    }
}

/// Inverts the output level of a previously configured pin: a thin
/// pass-through to the toggle primitive, which never fails.
pub fn toggle<H: Hal>(hal: &mut H, pin: u32)
    requires
        old(hal).model().init == InitStage::Ready,
        old(hal).model().pins.contains_key(pin),
    ensures
        final(hal).model() == toggled(old(hal).model(), pin),
        trace_inv(old(hal).model()) ==> trace_inv(final(hal).model()),
{
    let ghost m0 = old(hal).model();
    hal.gpio_toggle(pin);
    proof {
        assert(!is_stage(Event::GpioToggle(pin)));
        if trace_inv(m0) {
            lemma_trace_inv_step(m0, hal.model());
        }
    }
}

/// Toggle round trip: two consecutive toggles of one configured pin restore
/// every pin to the level it had, the toggled pin included.
pub proof fn lemma_toggle_round_trip(m: HalModel, pin: u32)
    requires
        m.pins.contains_key(pin),
    ensures
        toggled(toggled(m, pin), pin).pins == m.pins,
        toggled(toggled(m, pin), pin).pins[pin] == m.pins[pin],
{
    assert(toggled(toggled(m, pin), pin).pins =~= m.pins);
}

} // verus!
