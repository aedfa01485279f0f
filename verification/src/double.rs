//! A verified in-memory platform: it records every primitive invocation and
//! answers with configurable conversion rates and pin statuses, so the wrapper
//! layer and the control loop can run without hardware.

use vstd::prelude::*;
use crate::hal::{conv_sound, toggled, Event, Hal, HalModel, InitStage};
use crate::trace::pristine;

verus! {

/// The pin map an association list denotes; a later entry for a pin
/// supersedes an earlier one.
spec fn pin_map(s: Seq<(u32, bool)>) -> Map<u32, bool>
    decreases s.len(),
{
    if s.len() == 0 {
        Map::<u32, bool>::empty()
    } else {
        pin_map(s.drop_last()).insert(s.last().0, s.last().1)
    }
}

proof fn lemma_pin_map_push(s: Seq<(u32, bool)>, e: (u32, bool))
    ensures
        pin_map(s.push(e)) == pin_map(s).insert(e.0, e.1),
{
    assert(s.push(e).drop_last() =~= s);
    assert(s.push(e).last() == e);
}

/// The double's millisecond-to-tick conversion: `ticks_per_ms` ticks to the
/// millisecond, failing where the product leaves the tick range.
pub open spec fn ticks_spec(ms: u32, ticks_per_ms: u32) -> Option<u32> {
    if ms * ticks_per_ms <= u32::MAX {
        Some((ms * ticks_per_ms) as u32)
    } else {
        None
    }
}

/// The least milliseconds a tick count spans at `ticks_per_ms` ticks to the
/// millisecond.
pub open spec fn span_spec(ticks: u32, ticks_per_ms: u32) -> nat {
    if ticks_per_ms == 0 {
        0
    } else {
        (ticks as nat) / (ticks_per_ms as nat)
    }
}

/// An in-memory platform. Its model is read off its fields: the stage and
/// pin levels it stores, the time its recorded delays span, the conversion
/// its rate defines, and its event log as the trace.
pub struct TestHal {
    stage: InitStage,
    pins: Vec<(u32, bool)>,
    elapsed: Ghost<nat>,
    ticks_per_ms: u32,
    pin_count: u32,
    log: Vec<Event>,
}

impl Hal for TestHal {
    closed spec fn model(&self) -> HalModel {
        HalModel {
            init: self.stage,
            pins: pin_map(self.pins@),
            elapsed_ms: self.elapsed@,
            ticks_of_ms: Map::total(|ms: u32| ticks_spec(ms, self.ticks_per_ms)),
            ms_of_ticks: Map::total(|ticks: u32| span_spec(ticks, self.ticks_per_ms)),
            trace: self.log@,
        }
    }

    fn sysinit_start(&mut self) {
        self.stage = InitStage::Started;
        self.log.push(Event::SysinitStart);
        proof {
            assert(self.model() =~= (HalModel {
                init: InitStage::Started,
                trace: old(self).model().trace.push(Event::SysinitStart),
                ..old(self).model()
            }));
        }
    }

    fn sysinit_app(&mut self) {
        self.stage = InitStage::AppReady;
        self.log.push(Event::SysinitApp);
        proof {
            assert(self.model() =~= (HalModel {
                init: InitStage::AppReady,
                trace: old(self).model().trace.push(Event::SysinitApp),
                ..old(self).model()
            }));
        }
    }

    fn sysinit_end(&mut self) {
        self.stage = InitStage::Ready;
        self.log.push(Event::SysinitEnd);
        proof {
            assert(self.model() =~= (HalModel {
                init: InitStage::Ready,
                trace: old(self).model().trace.push(Event::SysinitEnd),
                ..old(self).model()
            }));
        }
    }

    fn gpio_init_out(&mut self, pin: u32, initial_level: bool) -> (status: i32) {
        self.log.push(Event::GpioInitOut(pin, initial_level));
        if pin < self.pin_count {
            self.pins.push((pin, initial_level));
            proof {
                lemma_pin_map_push(old(self).pins@, (pin, initial_level));
                assert(self.model() =~= (HalModel {
                    pins: old(self).model().pins.insert(pin, initial_level),
                    trace: old(self).model().trace.push(Event::GpioInitOut(pin, initial_level)),
                    ..old(self).model()
                }));
            }
            0
        } else {
            proof {
                assert(self.model() =~= (HalModel {
                    trace: old(self).model().trace.push(Event::GpioInitOut(pin, initial_level)),
                    ..old(self).model()
                }));
            }
            1
        }
    }

    fn gpio_toggle(&mut self, pin: u32) {
        let level = match self.lookup(pin) {
            Some(l) => l,
            // Unreachable: the contract admits configured pins only.
            None => false,
        };
        self.pins.push((pin, !level));
        self.log.push(Event::GpioToggle(pin));
        proof {
            lemma_pin_map_push(old(self).pins@, (pin, !level));
            assert(self.model() =~= toggled(old(self).model(), pin));
        }
    }

    fn time_delay(&mut self, ticks: u32) {
        self.elapsed = Ghost(self.elapsed@ + span_spec(ticks, self.ticks_per_ms));
        self.log.push(Event::TimeDelay(ticks));
        proof {
            assert(self.model().pins =~= old(self).model().pins);
            assert(self.model().ticks_of_ms =~= old(self).model().ticks_of_ms);
            assert(self.model().ms_of_ticks =~= old(self).model().ms_of_ticks);
            assert(old(self).model().ms_of_ticks[ticks] == span_spec(ticks, self.ticks_per_ms));
        }
    }

    fn time_ms_to_ticks(&mut self, ms: u32, ticks_out: &mut u32) -> (status: i32) {
        self.log.push(Event::MsToTicks(ms));
        proof {
            assert(self.model() =~= (HalModel {
                trace: old(self).model().trace.push(Event::MsToTicks(ms)),
                ..old(self).model()
            }));
            assert(old(self).model().ticks_of_ms[ms] == ticks_spec(ms, self.ticks_per_ms));
        }
        match ms.checked_mul(self.ticks_per_ms) {
            Some(ticks) => {
                *ticks_out = ticks;
                0
            },
            None => 1,
        }
    }
}

impl TestHal {
    /// A fresh platform at power-on: `ticks_per_ms` platform ticks to the
    /// millisecond (so conversion fails above `u32::MAX / ticks_per_ms`
    /// milliseconds), and the pins numbered below `pin_count` wired as
    /// outputs (configuring any other pin reports failure).
    pub fn new(ticks_per_ms: u32, pin_count: u32) -> (hal: TestHal)
        requires
            1 <= ticks_per_ms,
        ensures
            pristine(hal.model()),
            conv_sound(hal.model()),
            hal.model().pins == Map::<u32, bool>::empty(),
            hal.model().elapsed_ms == 0,
            forall|ms: u32| #[trigger] hal.model().ticks_of_ms[ms] == ticks_spec(ms, ticks_per_ms),
            forall|ticks: u32| #[trigger]
                hal.model().ms_of_ticks[ticks] == span_spec(ticks, ticks_per_ms),
    {
        let hal = TestHal {
            stage: InitStage::Uninit,
            pins: Vec::new(),
            elapsed: Ghost(0nat),
            ticks_per_ms,
            pin_count,
            log: Vec::new(),
        };
        proof {
            assert(hal.model().trace =~= Seq::<Event>::empty());
            assert(hal.model().pins =~= Map::<u32, bool>::empty());
            assert forall|ms: u32| (#[trigger] hal.model().ticks_of_ms[ms]) is Some implies hal
                .model().ms_of_ticks[hal.model().ticks_of_ms[ms]->0] >= ms by {
                let ticks = hal.model().ticks_of_ms[ms]->0;
                assert(ticks == ms * ticks_per_ms);
                assert((ms * ticks_per_ms) as nat / (ticks_per_ms as nat) == ms)
                    by (nonlinear_arith)
                    requires 1 <= ticks_per_ms <= u32::MAX, 0 <= ms <= u32::MAX;
            }
        }
        hal
    }

    /// The level a configured pin is currently driven to, `None` for a pin
    /// never successfully configured.
    pub fn pin_level(&self, pin: u32) -> (r: Option<bool>)
        ensures
            r == (if self.model().pins.contains_key(pin) {
                Some(self.model().pins[pin])
            } else {
                None::<bool>
            }),
    {
        self.lookup(pin)
    }

    fn lookup(&self, pin: u32) -> (r: Option<bool>)
        ensures
            r == (if pin_map(self.pins@).contains_key(pin) {
                Some(pin_map(self.pins@)[pin])
            } else {
                None::<bool>
            }),
    {
        let mut found: Option<bool> = None;
        let mut i: usize = 0;
        #[verifier::loop_isolation(false)]
        while i < self.pins.len()
            invariant
                i <= self.pins.len(),
                found == (if pin_map(self.pins@.take(i as int)).contains_key(pin) {
                    Some(pin_map(self.pins@.take(i as int))[pin])
                } else {
                    None::<bool>
                }),
            decreases self.pins.len() - i,
        {
            proof {
                assert(self.pins@.take(i + 1) =~= self.pins@.take(i as int).push(self.pins@[i as int]));
                lemma_pin_map_push(self.pins@.take(i as int), self.pins@[i as int]);
            }
            let entry = self.pins[i];
            if entry.0 == pin {
                found = Some(entry.1);
            }
            i = i + 1;
        }
        proof {
            assert(self.pins@.take(self.pins.len() as int) =~= self.pins@);
        }
        found
    }

    /// Every primitive invocation this platform has seen, oldest first.
    pub fn events(&self) -> (r: &Vec<Event>)
        ensures
            r@ == self.model().trace,
    {
        &self.log
    }

    /// How far initialization has come.
    pub fn stage(&self) -> (s: InitStage)
        ensures
            s == self.model().init,
    {
        self.stage
    }
}

} // verus!
