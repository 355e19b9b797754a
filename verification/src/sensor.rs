//! The decisions of the temperature task: what to do on the 1-wire bus next,
//! given what the last bus operation answered. The task resets the bus,
//! searches for a device, checks that it is a DS18B20, then measures in a
//! loop; accepted readings are averaged and reported.

use vstd::prelude::*;
use crate::reading::{centi_from_raw, centi_of_raw, lemma_centi_of_raw_bounds};
use crate::window::{SampleWindow, is_spike, shifted_in, mean_toward_zero, lemma_mean_within_readings, seq_sum};

verus! {

/// Pause, in milliseconds, after a failed bus reset.
pub const RESET_RETRY_MS: u64 = 1000;

/// Largest magnitude, in hundredths of a degree, of a converted reading.
pub const CENTI_LIMIT: i32 = 204800;

/// Where the task stands: which operation's answer it waits for.
#[derive(Debug, Clone, Copy, PartialEq, Eq, Structural)]
pub enum SensorPhase {
    /// A bus reset was issued.
    Resetting,
    /// The pause after a failed reset is running.
    ResetPause,
    /// A device search was issued.
    Searching,
    /// The found device is being checked for the DS18B20 family code.
    Identifying,
    /// A temperature conversion was requested.
    Measuring,
    /// The conversion time is being waited out.
    Converting,
    /// The scratchpad is being read.
    Reading,
    /// An average was handed out to be published.
    Reporting,
}

/// What the task asks its driver to do next.
#[derive(Debug, Clone, Copy, PartialEq, Eq, Structural)]
pub enum SensorAction {
    /// Reset the 1-wire bus.
    ResetBus,
    /// Search the bus for the next device.
    SearchDevice,
    /// Check that the found device is a DS18B20.
    CheckFamily,
    /// Ask the sensor to start a conversion.
    StartConversion,
    /// Sleep for this many milliseconds.
    Sleep(u64),
    /// Read the sensor's scratchpad.
    ReadScratchpad,
    /// Publish this average (hundredths of a degree) to the other tasks.
    Report(i32),
}

/// What the last operation answered.
#[derive(Debug, Clone, Copy, PartialEq, Eq, Structural)]
pub enum SensorEvent {
    ResetFailed,
    ResetDone,
    SearchFailed,
    NoDevice,
    DeviceFound,
    NotDs18b20,
    SensorReady,
    ConversionFailed,
    /// The conversion started and needs this many milliseconds.
    ConversionStarted(u16),
    ReadFailed,
    /// The raw scratchpad temperature (sixteenths of a degree).
    RawReading(u16),
    TimerElapsed,
    Reported,
}

/// Whether `e` is an answer to the operation that `p` waits for.
pub open spec fn answers(p: SensorPhase, e: SensorEvent) -> bool {
    match p {
        SensorPhase::Resetting => e is ResetFailed || e is ResetDone,
        SensorPhase::ResetPause => e is TimerElapsed,
        SensorPhase::Searching => e is SearchFailed || e is NoDevice || e is DeviceFound,
        SensorPhase::Identifying => e is NotDs18b20 || e is SensorReady,
        SensorPhase::Measuring => e is ConversionFailed || e is ConversionStarted,
        SensorPhase::Converting => e is TimerElapsed,
        SensorPhase::Reading => e is ReadFailed || (e matches SensorEvent::RawReading(raw)
            && raw != 0x8000),
        SensorPhase::Reporting => e is Reported,
    }
}

/// The next phase and action for an answer `e` in phase `p`, with the readings
/// `w` held before it.
pub open spec fn sensor_next(p: SensorPhase, w: Seq<i32>, e: SensorEvent) -> (
    SensorPhase,
    SensorAction,
) {
    match e {
        SensorEvent::ResetFailed => (SensorPhase::ResetPause, SensorAction::Sleep(RESET_RETRY_MS)),
        SensorEvent::ResetDone => (SensorPhase::Searching, SensorAction::SearchDevice),
        SensorEvent::SearchFailed => (SensorPhase::Resetting, SensorAction::ResetBus),
        SensorEvent::NoDevice => (SensorPhase::Resetting, SensorAction::ResetBus),
        SensorEvent::DeviceFound => (SensorPhase::Identifying, SensorAction::CheckFamily),
        SensorEvent::NotDs18b20 => (SensorPhase::Resetting, SensorAction::ResetBus),
        SensorEvent::SensorReady => (SensorPhase::Measuring, SensorAction::StartConversion),
        SensorEvent::ConversionFailed => (SensorPhase::Measuring, SensorAction::StartConversion),
        SensorEvent::ConversionStarted(ms) => (SensorPhase::Converting, SensorAction::Sleep(
            ms as u64,
        )),
        SensorEvent::ReadFailed => (SensorPhase::Measuring, SensorAction::StartConversion),
        SensorEvent::RawReading(raw) => {
            let c = centi_of_raw(raw) as i32;
            if is_spike(w, c) {
                (SensorPhase::Measuring, SensorAction::StartConversion)
            } else {
                (
                    SensorPhase::Reporting,
                    SensorAction::Report(mean_toward_zero(shifted_in(w, c)) as i32),
                )
            }
        },
        SensorEvent::TimerElapsed => if p is ResetPause {
            (SensorPhase::Resetting, SensorAction::ResetBus)
        } else {
            (SensorPhase::Reading, SensorAction::ReadScratchpad)
        },
        SensorEvent::Reported => (SensorPhase::Measuring, SensorAction::StartConversion),
    }
}

/// The readings after answer `e`: only an accepted raw reading changes them.
pub open spec fn sensor_window_next(w: Seq<i32>, e: SensorEvent) -> Seq<i32> {
    match e {
        SensorEvent::RawReading(raw) => {
            let c = centi_of_raw(raw) as i32;
            if is_spike(w, c) {
                w
            } else {
                shifted_in(w, c)
            }
        },
        _ => w,
    }
}

/// Every reading lies within the range a DS18B20 can report.
pub open spec fn readings_in_range(w: Seq<i32>) -> bool {
    forall|i: int| 0 <= i < w.len() ==> -CENTI_LIMIT <= #[trigger] w[i] <= CENTI_LIMIT
}

/// The temperature task's state: its phase and its window of readings.
pub struct SensorTask {
    phase: SensorPhase,
    window: SampleWindow,
}

impl View for SensorTask {
    type V = (SensorPhase, Seq<i32>);

    closed spec fn view(&self) -> (SensorPhase, Seq<i32>) {
        (self.phase, self.window@)
    }
}

impl SensorTask {
    #[verifier::type_invariant]
    spec fn inv(self) -> bool {
        readings_in_range(self.window@)
    }

    /// A task that has not read anything yet, and its first action: a bus
    /// reset.
    pub fn new() -> (r: (Self, SensorAction))
        ensures
            r.0@ == (SensorPhase::Resetting, Seq::<i32>::empty()),
            r.1 == SensorAction::ResetBus,
    {
        let window = SampleWindow::new();
        (SensorTask { phase: SensorPhase::Resetting, window }, SensorAction::ResetBus)
    }

    /// The phase the task is in.
    pub fn phase(&self) -> (p: SensorPhase)
        ensures
            p == self@.0,
    {
        self.phase
    }

    /// Takes the answer to the last action and returns the next action.
    #[verifier::rlimit(30)]
    pub fn step(&mut self, event: SensorEvent) -> (action: SensorAction)
        requires
            answers(old(self)@.0, event),
        ensures
            (final(self)@.0, action) == sensor_next(old(self)@.0, old(self)@.1, event),
            final(self)@.1 == sensor_window_next(old(self)@.1, event),
    {
        proof {
            use_type_invariant(&*self);
        }
        match event {
            SensorEvent::ResetFailed => {
                self.phase = SensorPhase::ResetPause;
                SensorAction::Sleep(RESET_RETRY_MS)
            },
            SensorEvent::ResetDone => {
                self.phase = SensorPhase::Searching;
                SensorAction::SearchDevice
            },
            SensorEvent::SearchFailed | SensorEvent::NoDevice | SensorEvent::NotDs18b20 => {
                self.phase = SensorPhase::Resetting;
                SensorAction::ResetBus
            },
            SensorEvent::DeviceFound => {
                self.phase = SensorPhase::Identifying;
                SensorAction::CheckFamily
            },
            SensorEvent::SensorReady | SensorEvent::ConversionFailed | SensorEvent::ReadFailed
            | SensorEvent::Reported => {
                self.phase = SensorPhase::Measuring;
                SensorAction::StartConversion
            },
            SensorEvent::ConversionStarted(ms) => {
                self.phase = SensorPhase::Converting;
                SensorAction::Sleep(ms as u64)
            },
            SensorEvent::TimerElapsed => {
                if self.phase == SensorPhase::ResetPause {
                    self.phase = SensorPhase::Resetting;
                    SensorAction::ResetBus
                } else {
                    self.phase = SensorPhase::Reading;
                    SensorAction::ReadScratchpad
                }
            },
            SensorEvent::RawReading(raw) => {
                let centi = centi_from_raw(raw);
                let ghost w = self.window@;
                proof {
                    if w.len() > 0 {
                        assert(-CENTI_LIMIT <= w[w.len() - 1] <= CENTI_LIMIT);
                    }
                }
                let mut window = SampleWindow::new();
                std::mem::swap(&mut window, &mut self.window);
                let avg = window.record(centi);
                proof {
                    let nw = window@;
                    if !is_spike(w, centi) {
                        assert forall|i: int| 0 <= i < nw.len() implies -CENTI_LIMIT
                            <= #[trigger] nw[i] <= CENTI_LIMIT by {
                            if w.len() < 10 {
                                if i < w.len() {
                                    assert(nw[i] == w[i]);
                                }
                            } else {
                                if i < w.len() - 1 {
                                    assert(nw[i] == w[i + 1]);
                                }
                            }
                        }
                    }
                }
                self.window = window;
                match avg {
                    None => {
                        self.phase = SensorPhase::Measuring;
                        SensorAction::StartConversion
                    },
                    Some(a) => {
                        self.phase = SensorPhase::Reporting;
                        SensorAction::Report(a)
                    },
                }
            },
        }
    }
}


/// An average is reported only right after a reading was accepted; it is the
/// truncated mean of the window that now holds that reading, and it lies
/// between the window's smallest and largest readings.
pub proof fn lemma_report_is_window_mean(p: SensorPhase, w: Seq<i32>, raw: u16, lo: int, hi: int)
    requires
        answers(p, SensorEvent::RawReading(raw)),
    ensures
        ({
            let e = SensorEvent::RawReading(raw);
            let nw = sensor_window_next(w, e);
            sensor_next(p, w, e).1 matches SensorAction::Report(a) ==> {
                &&& a as int == mean_toward_zero(nw)
                &&& nw.len() > 0
                &&& (forall|i: int| 0 <= i < nw.len() ==> lo <= #[trigger] nw[i] <= hi) ==> lo
                    <= a <= hi
            }
        }),
{
    let e = SensorEvent::RawReading(raw);
    let nw = sensor_window_next(w, e);
    if sensor_next(p, w, e).1 is Report {
        lemma_mean_within_readings(nw, i32::MIN as int, i32::MAX as int);
        if forall|i: int| 0 <= i < nw.len() ==> lo <= #[trigger] nw[i] <= hi {
            lemma_mean_within_readings(nw, lo, hi);
        }
    }
}

/// Only a raw reading that passes the spike filter changes the window: every
/// other answer, a failure among them, and every rejected spike leave it as
/// it was.
pub proof fn lemma_window_changes_only_on_acceptance(w: Seq<i32>, e: SensorEvent)
    ensures
        !(e is RawReading) ==> sensor_window_next(w, e) == w,
        e matches SensorEvent::RawReading(raw) ==> (is_spike(w, centi_of_raw(raw) as i32)
            <==> sensor_next(SensorPhase::Reading, w, e).1 == SensorAction::StartConversion),
        e matches SensorEvent::RawReading(raw) && is_spike(w, centi_of_raw(raw) as i32)
            ==> sensor_window_next(w, e) == w,
{
}


/// A reading within 5 degrees of the previous accepted one (or the first
/// reading) slides into the window of the last ten accepted readings: it is
/// appended, the oldest reading leaves once ten were held, and the reported
/// value is the sum of the new window divided by its length, rounded toward
/// zero.
pub proof fn lemma_accepted_reading_slides_window(p: SensorPhase, w: Seq<i32>, raw: u16)
    requires
        answers(p, SensorEvent::RawReading(raw)),
        w.len() <= 10,
        w.len() == 0 || (-500 <= centi_of_raw(raw) - w.last() <= 500),
    ensures
        ({
            let e = SensorEvent::RawReading(raw);
            let nw = sensor_window_next(w, e);
            let dropped: int = if w.len() == 10 { 1 } else { 0 };
            &&& nw.len() == w.len() + 1 - dropped
            &&& nw.len() <= 10
            &&& nw[nw.len() - 1] as int == centi_of_raw(raw)
            &&& forall|i: int| 0 <= i < nw.len() - 1 ==> nw[i] == w[i + dropped]
            &&& sensor_next(p, w, e).0 == SensorPhase::Reporting
            &&& sensor_next(p, w, e).1 matches SensorAction::Report(a) && a as int == (if seq_sum(nw)
                >= 0 {
                seq_sum(nw) / (nw.len() as int)
            } else {
                -((-seq_sum(nw)) / (nw.len() as int))
            })
        }),
{
    lemma_centi_of_raw_bounds(raw);
    let c = centi_of_raw(raw) as i32;
    assert(c as int == centi_of_raw(raw));
    let e = SensorEvent::RawReading(raw);
    let nw = sensor_window_next(w, e);
    assert(!is_spike(w, c));
    assert(nw == shifted_in(w, c));
    assert forall|i: int| 0 <= i < nw.len() implies i32::MIN <= #[trigger] nw[i] <= i32::MAX by {}
    lemma_mean_within_readings(nw, i32::MIN as int, i32::MAX as int);
}

} // verus!
