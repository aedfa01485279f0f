//! The application control loop: one-time initialization, then a cycle of
//! {wait one period, toggle the pin}, each cycle verified against the model.

use vstd::prelude::*;
use crate::hal::{conv_sound, Event, Hal, HalModel, InitStage};
use crate::trace::{lemma_trace_inv_step, stage_trace, trace_inv};
use crate::wrapper::{configure_output, delay_ms, toggle, Fault};

verus! {

/// Compile-time configuration: which GPIO line to drive and how long to wait
/// between toggles.
#[derive(Clone, Copy, Debug, PartialEq, Eq, Structural)]
pub struct Config {
    /// The GPIO line the loop owns for the life of the process.
    pub pin: u32,
    /// The wait between toggles, in milliseconds.
    pub period_ms: u32,
}

/// Runs the three initialization stages, in their fixed order, exactly once:
/// the transition from power-on to the state every other primitive demands.
pub fn startup<H: Hal>(hal: &mut H)
    requires
        old(hal).model().init == InitStage::Uninit,
    ensures
        final(hal).model() == (HalModel {
            init: InitStage::Ready,
            trace: old(hal).model().trace + stage_trace(InitStage::Ready),
            ..old(hal).model()
        }),
        trace_inv(old(hal).model()) ==> trace_inv(final(hal).model()),
{
    let ghost m0 = old(hal).model();
    hal.sysinit_start();
    let ghost m1 = hal.model();
    hal.sysinit_app();
    let ghost m2 = hal.model();
    hal.sysinit_end();
    proof {
        assert(hal.model().trace =~= m0.trace + stage_trace(InitStage::Ready));
        if trace_inv(m0) {
            lemma_trace_inv_step(m0, m1);
            lemma_trace_inv_step(m1, m2);
            lemma_trace_inv_step(m2, hal.model());
        }
    }
}

/// The events one successful cycle appends to the trace: a conversion, a
/// delay of the converted tick count, a toggle.
pub open spec fn cycle_trace(pin: u32, period_ms: u32, ticks: u32) -> Seq<Event> {
    seq![Event::MsToTicks(period_ms), Event::TimeDelay(ticks), Event::GpioToggle(pin)]
}

/// The events `n` successful cycles append to the trace.
pub open spec fn cycles_trace(pin: u32, period_ms: u32, ticks: u32, n: nat) -> Seq<Event>
    decreases n,
{
    if n == 0 {
        Seq::<Event>::empty()
    } else {
        cycles_trace(pin, period_ms, ticks, (n - 1) as nat) + cycle_trace(pin, period_ms, ticks)
    }
}

/// One steady-state cycle: wait one period, then toggle the pin.
///
/// On a conversion failure the cycle reports the fault at once: the delay
/// primitive is never reached, the toggle for that cycle never occurs, and
/// the platform is left as it was but for the recorded conversion attempt.
pub fn blink_cycle<H: Hal>(hal: &mut H, cfg: &Config) -> (r: Result<(), Fault>)
    requires
        old(hal).model().init == InitStage::Ready,
        old(hal).model().pins.contains_key(cfg.pin),
        conv_sound(old(hal).model()),
    ensures
        r is Ok <==> old(hal).model().ticks_of_ms[cfg.period_ms] is Some,
        r is Ok ==> {
            &&& final(hal).model().init == InitStage::Ready
            &&& final(hal).model().pins == old(hal).model().pins.insert(
                cfg.pin,
                !old(hal).model().pins[cfg.pin],
            )
            &&& final(hal).model().ticks_of_ms == old(hal).model().ticks_of_ms
            &&& final(hal).model().ms_of_ticks == old(hal).model().ms_of_ticks
            &&& final(hal).model().elapsed_ms >= old(hal).model().elapsed_ms + cfg.period_ms
            &&& final(hal).model().trace == old(hal).model().trace + cycle_trace(
                cfg.pin,
                cfg.period_ms,
                old(hal).model().ticks_of_ms[cfg.period_ms]->0,
            )
        },
        r is Err ==> r == Err::<(), Fault>(Fault::TickOverflow)
            && final(hal).model() == (HalModel {
                trace: old(hal).model().trace.push(Event::MsToTicks(cfg.period_ms)),
                ..old(hal).model()
            }),
        trace_inv(old(hal).model()) ==> trace_inv(final(hal).model()),
{
    match delay_ms(hal, cfg.period_ms) {
        Err(f) => Err(f),
        Ok(()) => {
            toggle(hal, cfg.pin);
            proof {
                assert(hal.model().trace =~= old(hal).model().trace + cycle_trace(
                    cfg.pin,
                    cfg.period_ms,
                    old(hal).model().ticks_of_ms[cfg.period_ms]->0,
                ));
            }
            Ok(())
        },
    }
}

/// The whole application from power-on: initialization, the pin configured
/// as an output driven on, then `cycles` blink cycles. On the device the
/// cycle count is unbounded; a bounded run carries the same contract for
/// every prefix of that endless run. A fault anywhere is returned at once,
/// for the caller to halt on.
pub fn run<H: Hal>(hal: &mut H, cfg: &Config, cycles: u32) -> (r: Result<(), Fault>)
    requires
        old(hal).model().init == InitStage::Uninit,
        conv_sound(old(hal).model()),
    ensures
        final(hal).model().init == InitStage::Ready,
        final(hal).model().ticks_of_ms == old(hal).model().ticks_of_ms,
        final(hal).model().ms_of_ticks == old(hal).model().ms_of_ticks,
        r is Ok ==> {
            &&& cycles > 0 ==> old(hal).model().ticks_of_ms[cfg.period_ms] is Some
            &&& final(hal).model().pins == old(hal).model().pins.insert(cfg.pin, cycles % 2 == 0)
            &&& final(hal).model().elapsed_ms >= old(hal).model().elapsed_ms + (cycles as nat) * (
            cfg.period_ms as nat)
            &&& final(hal).model().trace == old(hal).model().trace + stage_trace(InitStage::Ready)
                + seq![Event::GpioInitOut(cfg.pin, true)] + cycles_trace(
                cfg.pin,
                cfg.period_ms,
                old(hal).model().ticks_of_ms[cfg.period_ms]->0,
                cycles as nat,
            )
        },
        r == Err::<(), Fault>(Fault::GpioConfig) ==> {
            &&& final(hal).model().pins == old(hal).model().pins
            &&& final(hal).model().elapsed_ms == old(hal).model().elapsed_ms
            &&& final(hal).model().trace == old(hal).model().trace + stage_trace(InitStage::Ready)
                + seq![Event::GpioInitOut(cfg.pin, true)]
        },
        r == Err::<(), Fault>(Fault::TickOverflow) ==> {
            &&& old(hal).model().ticks_of_ms[cfg.period_ms] is None
            &&& cycles > 0
            &&& final(hal).model().pins == old(hal).model().pins.insert(cfg.pin, true)
            &&& final(hal).model().elapsed_ms == old(hal).model().elapsed_ms
            &&& final(hal).model().trace == old(hal).model().trace + stage_trace(InitStage::Ready)
                + seq![Event::GpioInitOut(cfg.pin, true), Event::MsToTicks(cfg.period_ms)]
        },
        r is Err ==> r == Err::<(), Fault>(Fault::GpioConfig) || r == Err::<(), Fault>(
            Fault::TickOverflow,
        ),
        addresses_only(
            final(hal).model().trace.skip(old(hal).model().trace.len() as int),
            cfg.pin,
        ),
        trace_inv(old(hal).model()) ==> trace_inv(final(hal).model()),
{
    let ghost m0 = old(hal).model();
    startup(hal);
    match configure_output(hal, cfg.pin, true) {
        Err(f) => {
            proof {
                assert(hal.model().trace =~= m0.trace + stage_trace(InitStage::Ready) + seq![
                    Event::GpioInitOut(cfg.pin, true),
                ]);
                lemma_single_writer(cfg.pin, true, cfg.period_ms, 0, 0);
                assert(hal.model().trace.skip(m0.trace.len() as int) =~= stage_trace(
                    InitStage::Ready,
                ) + seq![Event::GpioInitOut(cfg.pin, true)] + cycles_trace(
                    cfg.pin,
                    cfg.period_ms,
                    0,
                    0,
                ));
            }
            return Err(f);
        },
        Ok(()) => {},
    }
    proof {
        assert(hal.model().trace =~= m0.trace + stage_trace(InitStage::Ready) + seq![
            Event::GpioInitOut(cfg.pin, true),
        ]);
    }
    let ghost t: u32 = m0.ticks_of_ms[cfg.period_ms]->0;
    let mut i: u32 = 0;
    #[verifier::loop_isolation(false)]
    while i < cycles
        invariant
            i <= cycles,
            t == m0.ticks_of_ms[cfg.period_ms]->0,
            hal.model().init == InitStage::Ready,
            hal.model().ticks_of_ms == m0.ticks_of_ms,
            hal.model().ms_of_ticks == m0.ms_of_ticks,
            conv_sound(hal.model()),
            hal.model().pins == m0.pins.insert(cfg.pin, i % 2 == 0),
            hal.model().elapsed_ms >= m0.elapsed_ms + (i as nat) * (cfg.period_ms as nat),
            i == 0 ==> hal.model().elapsed_ms == m0.elapsed_ms,
            i > 0 ==> m0.ticks_of_ms[cfg.period_ms] is Some,
            hal.model().trace == m0.trace + stage_trace(InitStage::Ready) + seq![
                Event::GpioInitOut(cfg.pin, true),
            ] + cycles_trace(cfg.pin, cfg.period_ms, t, i as nat),
            trace_inv(m0) ==> trace_inv(hal.model()),
        decreases cycles - i,
    {
        let ghost pre = hal.model();
        match blink_cycle(hal, cfg) {
            Err(f) => {
                proof {
                    assert(i == 0);
                    assert(hal.model().trace =~= m0.trace + stage_trace(InitStage::Ready) + seq![
                        Event::GpioInitOut(cfg.pin, true),
                        Event::MsToTicks(cfg.period_ms),
                    ]);
                    let head = stage_trace(InitStage::Ready) + seq![
                        Event::GpioInitOut(cfg.pin, true),
                    ];
                    lemma_single_writer(cfg.pin, true, cfg.period_ms, 0, 0);
                    assert(head + cycles_trace(cfg.pin, cfg.period_ms, 0, 0) =~= head);
                    lemma_addresses_only_push(head, Event::MsToTicks(cfg.period_ms), cfg.pin);
                    assert(hal.model().trace.skip(m0.trace.len() as int) =~= head.push(
                        Event::MsToTicks(cfg.period_ms),
                    ));
                }
                return Err(f);
            },
            Ok(()) => {},
        }
        proof {
            assert(pre.ticks_of_ms[cfg.period_ms]->0 == t);
            assert(hal.model().pins =~= m0.pins.insert(cfg.pin, (i + 1) % 2 == 0));
            assert((i as nat + 1) * (cfg.period_ms as nat) == (i as nat) * (cfg.period_ms as nat)
                + (cfg.period_ms as nat)) by (nonlinear_arith);
            assert(hal.model().trace =~= m0.trace + stage_trace(InitStage::Ready) + seq![
                Event::GpioInitOut(cfg.pin, true),
            ] + cycles_trace(cfg.pin, cfg.period_ms, t, (i + 1) as nat));
        }
        i = i + 1;
    }
    proof {
        lemma_single_writer(cfg.pin, true, cfg.period_ms, t, cycles as nat);
        assert(hal.model().trace.skip(m0.trace.len() as int) =~= stage_trace(InitStage::Ready)
            + seq![Event::GpioInitOut(cfg.pin, true)] + cycles_trace(
            cfg.pin,
            cfg.period_ms,
            t,
            cycles as nat,
        ));
    }
    Ok(())
}

/// Appending an event that addresses no pin keeps a trace single-writer.
proof fn lemma_addresses_only_push(t: Seq<Event>, e: Event, pin: u32)
    requires
        addresses_only(t, pin),
        gpio_pin(e) is None,
    ensures
        addresses_only(t.push(e), pin),
{
    assert forall|i: int|
        0 <= i < t.push(e).len() && gpio_pin(#[trigger] t.push(e)[i]) is Some implies gpio_pin(
        t.push(e)[i]) == Some(pin) by {
        if i < t.len() {
            assert(t.push(e)[i] == t[i]);
        } else {
            assert(t.push(e)[i] == e);
        }
    }
}

/// Which pin a GPIO event addresses; events that touch no pin address none.
pub open spec fn gpio_pin(e: Event) -> Option<u32> {
    match e {
        Event::GpioInitOut(p, _) => Some(p),
        Event::GpioToggle(p) => Some(p),
        _ => None,
    }
}

/// Single-writer exclusivity over a trace: every GPIO event in it addresses
/// `pin` and no other.
pub open spec fn addresses_only(t: Seq<Event>, pin: u32) -> bool {
    forall|i: int|
        0 <= i < t.len() && gpio_pin(#[trigger] t[i]) is Some ==> gpio_pin(t[i]) == Some(pin)
}

/// Single-writer exclusivity: the control loop's whole trace —
/// initialization, configuration, and any number of cycles — addresses no
/// pin but its own.
pub proof fn lemma_single_writer(pin: u32, level: bool, period_ms: u32, ticks: u32, n: nat)
    ensures
        addresses_only(
            stage_trace(InitStage::Ready) + seq![Event::GpioInitOut(pin, level)] + cycles_trace(
                pin,
                period_ms,
                ticks,
                n,
            ),
            pin,
        ),
    decreases n,
{
    let head = stage_trace(InitStage::Ready) + seq![Event::GpioInitOut(pin, level)];
    if n == 0 {
        assert(head + cycles_trace(pin, period_ms, ticks, n) =~= head);
        assert forall|i: int|
            0 <= i < head.len() && gpio_pin(#[trigger] head[i]) is Some implies gpio_pin(head[i])
            == Some(pin) by {
            assert(head[3] == Event::GpioInitOut(pin, level));
        }
    } else {
        lemma_single_writer(pin, level, period_ms, ticks, (n - 1) as nat);
        let prev = head + cycles_trace(pin, period_ms, ticks, (n - 1) as nat);
        let whole = head + cycles_trace(pin, period_ms, ticks, n);
        assert(whole =~= prev + cycle_trace(pin, period_ms, ticks));
        assert forall|i: int|
            0 <= i < whole.len() && gpio_pin(#[trigger] whole[i]) is Some implies gpio_pin(
            whole[i]) == Some(pin) by {
            if i < prev.len() {
                assert(whole[i] == prev[i]);
            } else {
                assert(whole[i] == cycle_trace(pin, period_ms, ticks)[i - prev.len()]);
            }
        }
    }
}

} // verus!
