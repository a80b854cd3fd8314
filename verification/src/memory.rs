//! Process-memory accounting at the boundaries where limits are checked.

use vstd::prelude::*;
use crate::egraph::Symbol;

verus! {

/// The final memory accounting for a completed run.
///
/// Every figure is an absolute process live-heap byte count, the same
/// coordinate system the configured ceiling is expressed in, so readings are
/// directly comparable across runs and processes.
#[derive(Debug, Clone, Copy, PartialEq, Eq)]
pub struct MemoryReport {
    /// A fresh sample taken at the end of the run.
    pub final_reading: u64,
    /// Largest process live-heap reading sampled during the run.
    pub peak_reading: u64,
    /// The configured absolute process live-heap ceiling.
    pub absolute_limit: Option<u64>,
}

/// A limit-check boundary at which process memory was sampled.
#[derive(Debug, Clone, Copy, PartialEq, Eq)]
pub enum MemorySamplePhase {
    /// The iteration-start sample, immediately before hooks.
    BeforeHooks,
    /// An explicit sample requested while hooks are running.
    DuringHook,
    /// The sample immediately after one rule's search.
    AfterRuleSearch,
    /// The sample immediately after one rule's application.
    AfterRuleApplication,
    /// The sample after rebuild and iteration finalization.
    AfterRebuildFinalization,
}

/// Iteration-local peak process-memory telemetry.
#[derive(Debug, PartialEq, Eq)]
pub struct IterationMemoryPeak {
    /// Allocation at the decision boundary immediately before hooks.
    pub iteration_start_allocated: u64,
    /// Largest reading observed at any sampled boundary in this iteration.
    pub iteration_peak_allocated: u64,
    /// Boundary where `iteration_peak_allocated` was first observed.
    pub peak_phase: MemorySamplePhase,
    /// Rule responsible for the peak when it followed a rule operation.
    pub peak_rule: Option<Symbol>,
}

impl Clone for IterationMemoryPeak {
    fn clone(&self) -> (r: Self)
        ensures
            r == *self,
    {
        let peak_rule = match &self.peak_rule {
            Some(rule) => Some(rule.clone()),
            None => None,
        };
        IterationMemoryPeak {
            iteration_start_allocated: self.iteration_start_allocated,
            iteration_peak_allocated: self.iteration_peak_allocated,
            peak_phase: self.peak_phase,
            peak_rule,
        }
    }
}

/// Keeps the largest readings of a run and of its current iteration.
///
/// The tracker does not read process memory itself: each method that records
/// a sample takes the reading.
#[derive(Debug)]
pub struct MemoryTracker {
    /// The ceiling, if there is one.
    pub absolute_limit: Option<u64>,
    /// The most recent reading.
    pub latest: u64,
    /// The largest reading so far.
    pub peak_reading: u64,
    /// The accounting of the run, fixed when the run ends.
    pub final_report: Option<MemoryReport>,
    /// The peak of the current iteration, once one has begun.
    pub iteration_peak: Option<IterationMemoryPeak>,
}

/// The larger of two readings.
pub open spec fn larger(a: u64, b: u64) -> u64 {
    if b > a {
        b
    } else {
        a
    }
}

impl IterationMemoryPeak {
    /// The peak at the start of an iteration.
    pub open spec fn starting(reading: u64) -> Self {
        IterationMemoryPeak {
            iteration_start_allocated: reading,
            iteration_peak_allocated: reading,
            peak_phase: MemorySamplePhase::BeforeHooks,
            peak_rule: None,
        }
    }

    /// The peak after one more sample: it moves only for a larger reading.
    pub open spec fn after(
        self,
        phase: MemorySamplePhase,
        rule: Option<Symbol>,
        reading: u64,
    ) -> Self {
        if reading > self.iteration_peak_allocated {
            IterationMemoryPeak {
                iteration_start_allocated: self.iteration_start_allocated,
                iteration_peak_allocated: reading,
                peak_phase: phase,
                peak_rule: rule,
            }
        } else {
            self
        }
    }
}

impl MemoryTracker {
    /// The tracker once a reading has been taken.
    pub open spec fn having_read(self, reading: u64) -> Self {
        MemoryTracker {
            latest: reading,
            peak_reading: larger(self.peak_reading, reading),
            ..self
        }
    }

    /// The tracker once an iteration has begun with a reading.
    pub open spec fn having_begun(self, reading: u64) -> Self {
        MemoryTracker {
            iteration_peak: Some(IterationMemoryPeak::starting(reading)),
            ..self.having_read(reading)
        }
    }

    /// The tracker once a reading has been taken at a boundary.
    pub open spec fn having_sampled(
        self,
        phase: MemorySamplePhase,
        rule: Option<Symbol>,
        reading: u64,
    ) -> Self {
        MemoryTracker {
            iteration_peak: match self.iteration_peak {
                Some(peak) => Some(peak.after(phase, rule, reading)),
                None => None,
            },
            ..self.having_read(reading)
        }
    }

    /// The tracker once the run has ended with a reading.
    pub open spec fn having_finished(self, reading: u64) -> Self {
        MemoryTracker {
            final_report: Some(
                MemoryReport {
                    final_reading: reading,
                    peak_reading: larger(self.peak_reading, reading),
                    absolute_limit: self.absolute_limit,
                },
            ),
            ..self.having_read(reading)
        }
    }

    /// The report of a finished run.
    pub open spec fn report(self) -> Option<MemoryReport> {
        self.final_report
    }

    /// A tracker seeded with a first reading, so that one is available before
    /// the first sample.
    pub fn new(initial: u64, absolute_limit: Option<u64>) -> (r: Self)
        ensures
            r == (MemoryTracker {
                absolute_limit,
                latest: initial,
                peak_reading: initial,
                final_report: None,
                iteration_peak: None,
            }),
    {
        MemoryTracker {
            absolute_limit,
            latest: initial,
            peak_reading: initial,
            final_report: None,
            iteration_peak: None,
        }
    }

    /// Records a reading.
    pub fn raw_sample(&mut self, reading: u64) -> (r: u64)
        ensures
            r == reading,
            *final(self) == old(self).having_read(reading),
    {
        self.latest = reading;
        if reading > self.peak_reading {
            self.peak_reading = reading;
        }
        reading
    }

    /// Records the reading at the start of an iteration and starts the
    /// iteration's peak over.
    pub fn begin_iteration(&mut self, reading: u64) -> (r: u64)
        ensures
            r == reading,
            *final(self) == old(self).having_begun(reading),
    {
        let reading = self.raw_sample(reading);
        self.iteration_peak = Some(
            IterationMemoryPeak {
                iteration_start_allocated: reading,
                iteration_peak_allocated: reading,
                peak_phase: MemorySamplePhase::BeforeHooks,
                peak_rule: None,
            },
        );
        reading
    }

    /// Records the reading at a boundary and, where it exceeds the iteration's
    /// peak, the boundary too.
    pub fn sample_at(
        &mut self,
        phase: MemorySamplePhase,
        rule: Option<Symbol>,
        reading: u64,
    ) -> (r: u64)
        ensures
            r == reading,
            *final(self) == old(self).having_sampled(phase, rule, reading),
    {
        let reading = self.raw_sample(reading);
        if let Some(peak) = &mut self.iteration_peak {
            if reading > peak.iteration_peak_allocated {
                peak.iteration_peak_allocated = reading;
                peak.peak_phase = phase;
                peak.peak_rule = rule;
            }
        }
        reading
    }

    /// The peak of the current iteration.
    pub fn iteration_peak(&self) -> (r: Option<IterationMemoryPeak>)
        ensures
            r == self.iteration_peak,
    {
        match &self.iteration_peak {
            Some(peak) => Some(peak.clone()),
            None => None,
        }
    }

    /// Records the reading at the end of the run and fixes the run's report.
    pub fn finish(&mut self, reading: u64)
        ensures
            *final(self) == old(self).having_finished(reading),
    {
        let reading = self.raw_sample(reading);
        self.final_report = Some(
            MemoryReport {
                final_reading: reading,
                peak_reading: self.peak_reading,
                absolute_limit: self.absolute_limit,
            },
        );
    }

    /// The report of a finished run.
    pub fn final_report(&self) -> (r: Option<MemoryReport>)
        ensures
            r == self.report(),
    {
        self.final_report
    }
}

} // verus!
