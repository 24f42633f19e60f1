//! The telemetry buffer: four time-aligned rolling windows and the
//! dual-cadence poll scheduler.
//!
//! Once per redraw tick the host asks whether each cadence is due. When
//! the fast path (CPU and memory) is due it hands the fresh readings to
//! [`TelemetryBuffer::record_fast`], which appends one row across all
//! four windows and resets the fast timer; when the slow path (GPU) is
//! due it runs the external query tool once and hands the outcome to
//! [`TelemetryBuffer::record_slow`], which updates the cached reading
//! (or keeps the previous one on failure) and resets the slow timer.
//! The two cadences are independent and may both fire on the same tick.

use vstd::prelude::*;

use crate::gpu::GpuReading;
use crate::gpu::updated_reading;
use crate::gpu::zero_reading;
use crate::metrics::percent_centi;
use crate::metrics::percent_centi_spec;
use crate::timer::PollTimer;
use crate::window::RollingWindow;
use crate::window::rolled;

verus! {

/// Number of samples each rolling window retains.
pub const WINDOW_SIZE: usize = 120;

/// Cadence of the fast path (CPU, memory, sensors), in milliseconds.
pub const FAST_INTERVAL_MS: u64 = 500;

/// Cadence of the slow path (the external GPU query), in milliseconds.
pub const SLOW_INTERVAL_MS: u64 = 2000;

/// The sampling core: rolling histories of elapsed time, CPU, RAM and
/// GPU usage, the last-known GPU reading, and the two cadence timers.
/// All times are milliseconds of the caller's monotonic clock.
pub struct TelemetryBuffer {
    time_ms: RollingWindow,
    cpu_centi: RollingWindow,
    ram_centi: RollingWindow,
    gpu_centi: RollingWindow,
    gpu: GpuReading,
    start_ms: u64,
    fast: PollTimer,
    slow: PollTimer,
}

impl TelemetryBuffer {
    /// Elapsed milliseconds since construction, one entry per sample,
    /// oldest first.
    pub closed spec fn times(&self) -> Seq<u64> {
        self.time_ms@
    }

    /// CPU usage history in centi-percent, oldest first.
    pub closed spec fn cpu_history(&self) -> Seq<u64> {
        self.cpu_centi@
    }

    /// RAM usage history in centi-percent, oldest first.
    pub closed spec fn ram_history(&self) -> Seq<u64> {
        self.ram_centi@
    }

    /// GPU usage history in centi-percent, oldest first.
    pub closed spec fn gpu_history(&self) -> Seq<u64> {
        self.gpu_centi@
    }

    /// The last-known GPU reading.
    pub closed spec fn gpu_reading_spec(&self) -> GpuReading {
        self.gpu
    }

    /// The instant the buffer was constructed.
    pub closed spec fn start(&self) -> u64 {
        self.start_ms
    }

    /// The fast-path cadence timer.
    pub closed spec fn fast_timer(&self) -> PollTimer {
        self.fast
    }

    /// The slow-path cadence timer.
    pub closed spec fn slow_timer(&self) -> PollTimer {
        self.slow
    }

    /// Well-formedness: the four windows are permanently full at the
    /// fixed capacity, so every stream has the same length at every
    /// observation point; the timers carry the two fixed cadences, and
    /// the fast timer never runs ahead of the clock that started it.
    pub closed spec fn wf(&self) -> bool {
        &&& self.time_ms.wf()
        &&& self.cpu_centi.wf()
        &&& self.ram_centi.wf()
        &&& self.gpu_centi.wf()
        &&& self.time_ms.cap() == WINDOW_SIZE
        &&& self.cpu_centi.cap() == WINDOW_SIZE
        &&& self.ram_centi.cap() == WINDOW_SIZE
        &&& self.gpu_centi.cap() == WINDOW_SIZE
        &&& self.times().len() == WINDOW_SIZE
        &&& self.cpu_history().len() == WINDOW_SIZE
        &&& self.ram_history().len() == WINDOW_SIZE
        &&& self.gpu_history().len() == WINDOW_SIZE
        &&& self.fast_timer().interval() == FAST_INTERVAL_MS
        &&& self.slow_timer().interval() == SLOW_INTERVAL_MS
        &&& (self.fast_timer().last_fired() matches Some(last) && last >= self.start())
    }

    /// A fresh buffer at instant `now_ms`: every window pre-filled to
    /// capacity with zeros, a zero GPU reading, the fast timer started
    /// now and the slow timer backdated so the GPU is queried on the
    /// very first tick instead of after a full slow interval.
    pub fn new(now_ms: u64) -> (b: TelemetryBuffer)
        ensures
            b.wf(),
            b.times() == Seq::new(WINDOW_SIZE as nat, |i: int| 0u64),
            b.cpu_history() == Seq::new(WINDOW_SIZE as nat, |i: int| 0u64),
            b.ram_history() == Seq::new(WINDOW_SIZE as nat, |i: int| 0u64),
            b.gpu_history() == Seq::new(WINDOW_SIZE as nat, |i: int| 0u64),
            b.gpu_reading_spec() == zero_reading(),
            b.start() == now_ms,
            b.fast_timer().last_fired() == Some(now_ms),
            b.fast_timer().interval() == FAST_INTERVAL_MS,
            b.slow_timer().interval() == SLOW_INTERVAL_MS,
            forall|t: u64| b.slow_timer().is_due(t),
    {
        TelemetryBuffer {
            time_ms: RollingWindow::new_filled(WINDOW_SIZE),
            cpu_centi: RollingWindow::new_filled(WINDOW_SIZE),
            ram_centi: RollingWindow::new_filled(WINDOW_SIZE),
            gpu_centi: RollingWindow::new_filled(WINDOW_SIZE),
            gpu: GpuReading::new_zero(),
            start_ms: now_ms,
            fast: PollTimer::started(now_ms, FAST_INTERVAL_MS),
            slow: PollTimer::backdated(SLOW_INTERVAL_MS),
        }
    }

    /// Whether the fast path is due at `now_ms`.
    pub fn fast_due(&self, now_ms: u64) -> (r: bool)
        ensures
            r == self.fast_timer().is_due(now_ms),
    {
        self.fast.fires(now_ms)
    }

    /// Whether the slow path is due at `now_ms`.
    pub fn slow_due(&self, now_ms: u64) -> (r: bool)
        ensures
            r == self.slow_timer().is_due(now_ms),
    {
        self.slow.fires(now_ms)
    }

    /// Record one fast-path sample: append the elapsed time, the CPU
    /// reading, the memory percentage computed from `mem_used` and
    /// `mem_total`, and the last-known GPU usage, evicting the oldest
    /// row, then reset the fast timer. Requiring the timer to be due
    /// keeps the fast-path windows free of spurious samples between
    /// cadence points.
    pub fn record_fast(&mut self, now_ms: u64, cpu_reading_centi: u64, mem_used: u64, mem_total: u64)
        requires
            old(self).wf(),
            old(self).fast_timer().is_due(now_ms),
        ensures
            final(self).wf(),
            final(self).times() == rolled(
                old(self).times(),
                WINDOW_SIZE as nat,
                (now_ms - old(self).start()) as u64,
            ),
            final(self).cpu_history() == rolled(
                old(self).cpu_history(),
                WINDOW_SIZE as nat,
                cpu_reading_centi,
            ),
            final(self).ram_history() == rolled(
                old(self).ram_history(),
                WINDOW_SIZE as nat,
                percent_centi_spec(mem_used, mem_total),
            ),
            final(self).gpu_history() == rolled(
                old(self).gpu_history(),
                WINDOW_SIZE as nat,
                old(self).gpu_reading_spec().usage_centi,
            ),
            final(self).gpu_reading_spec() == old(self).gpu_reading_spec(),
            final(self).start() == old(self).start(),
            final(self).fast_timer().last_fired() == Some(now_ms),
            final(self).fast_timer().interval() == old(self).fast_timer().interval(),
            final(self).slow_timer() == old(self).slow_timer(),
    {
        let elapsed = now_ms - self.start_ms;
        self.time_ms.push(elapsed);
        self.cpu_centi.push(cpu_reading_centi);
        let ram = percent_centi(mem_used, mem_total);
        self.ram_centi.push(ram);
        self.gpu_centi.push(self.gpu.usage_centi);
        self.fast.reset(now_ms);
    }

    /// Record one slow-path attempt: apply the external tool's output
    /// line to the cached GPU reading, or keep the previous reading
    /// when the tool failed (`None`), then reset the slow timer. The
    /// timer is reset in either case, so each due observation makes
    /// exactly one poll attempt however much time has passed.
    pub fn record_slow(&mut self, now_ms: u64, line: Option<&Vec<u8>>)
        requires
            old(self).wf(),
            old(self).slow_timer().is_due(now_ms),
        ensures
            final(self).wf(),
            final(self).times() == old(self).times(),
            final(self).cpu_history() == old(self).cpu_history(),
            final(self).ram_history() == old(self).ram_history(),
            final(self).gpu_history() == old(self).gpu_history(),
            final(self).start() == old(self).start(),
            final(self).fast_timer() == old(self).fast_timer(),
            line matches Some(l) ==> final(self).gpu_reading_spec() == updated_reading(
                old(self).gpu_reading_spec(),
                l@,
            ),
            line is None ==> final(self).gpu_reading_spec() == old(self).gpu_reading_spec(),
            final(self).slow_timer().last_fired() == Some(now_ms),
            final(self).slow_timer().interval() == old(self).slow_timer().interval(),
    {
        match line {
            Some(l) => {
                self.gpu = self.gpu.updated_with(l);
            },
            None => {},
        }
        self.slow.reset(now_ms);
    }

    /// The current contents of the four windows, in the order elapsed
    /// time, CPU, RAM, GPU, all of the same length, for rendering.
    pub fn snapshot(&self) -> (r: (&Vec<u64>, &Vec<u64>, &Vec<u64>, &Vec<u64>))
        ensures
            r.0@ == self.times(),
            r.1@ == self.cpu_history(),
            r.2@ == self.ram_history(),
            r.3@ == self.gpu_history(),
            self.wf() ==> r.0@.len() == r.1@.len() && r.1@.len() == r.2@.len() && r.2@.len()
                == r.3@.len(),
    {
        (self.time_ms.values(), self.cpu_centi.values(), self.ram_centi.values(), self.gpu_centi.values())
    }

    /// The most recent CPU sample, in centi-percent.
    pub fn latest_cpu_centi(&self) -> (r: u64)
        requires
            self.wf(),
        ensures
            r == self.cpu_history().last(),
    {
        self.cpu_centi.latest()
    }

    /// The most recent RAM sample, in centi-percent.
    pub fn latest_ram_centi(&self) -> (r: u64)
        requires
            self.wf(),
        ensures
            r == self.ram_history().last(),
    {
        self.ram_centi.latest()
    }

    /// The most recent GPU usage sample, in centi-percent.
    pub fn latest_gpu_centi(&self) -> (r: u64)
        requires
            self.wf(),
        ensures
            r == self.gpu_history().last(),
    {
        self.gpu_centi.latest()
    }

    /// The last-known GPU reading.
    pub fn gpu_reading(&self) -> (r: GpuReading)
        ensures
            r == self.gpu_reading_spec(),
    {
        self.gpu
    }
}

/// All four parallel streams have identical length at every observation
/// point, and that length never exceeds the fixed window capacity.
pub proof fn lemma_streams_aligned(b: TelemetryBuffer)
    requires
        b.wf(),
    ensures
        b.times().len() == b.cpu_history().len(),
        b.cpu_history().len() == b.ram_history().len(),
        b.ram_history().len() == b.gpu_history().len(),
        b.times().len() == WINDOW_SIZE,
{
}

/// No spurious fast-path samples: within one fast interval of the last
/// fast poll the fast path is not due, and `record_fast` (the only
/// operation that touches the windows) demands a due timer.
pub proof fn lemma_no_spurious_fast_sample(b: TelemetryBuffer, now_ms: u64)
    requires
        b.wf(),
        b.fast_timer().last_fired() matches Some(last) && now_ms <= last + FAST_INTERVAL_MS,
    ensures
        !b.fast_timer().is_due(now_ms),
{
}

/// One GPU poll attempt per due observation: once `record_slow` has
/// reset the slow timer at `now_ms`, the slow path is not due again
/// before a full slow interval has elapsed, however overdue the timer
/// was before — there are no catch-up bursts.
pub proof fn lemma_one_slow_poll_per_interval(b: TelemetryBuffer, now_ms: u64, later_ms: u64)
    requires
        b.wf(),
        b.slow_timer().last_fired() == Some(now_ms),
        later_ms <= now_ms + SLOW_INTERVAL_MS,
    ensures
        !b.slow_timer().is_due(later_ms),
{
}

} // verus!
