//! Session analytics: rolling a run's scoring report into the lesson's
//! cumulative practice statistics.

use vstd::prelude::*;

use crate::lesson::PracticeStatistics;
use crate::scoring::PerformanceReport;

verus! {

/// Analytics over one finished run.
#[derive(Clone, Copy, Debug, PartialEq, Eq, Structural)]
pub struct SessionAnalytics {
    pub report: PerformanceReport,
}

impl SessionAnalytics {
    /// Wrap a finished run's report.
    pub fn new(report: PerformanceReport) -> (a: SessionAnalytics)
        ensures
            a.report == report,
    {
        SessionAnalytics { report }
    }

    /// Fold the report into cumulative statistics: the running average moves
    /// halfway toward the new accuracy (a smoothing, not a true mean), and
    /// the streak grows by one above 90 % accuracy, else shrinks by one with
    /// a floor of zero.
    pub fn update_statistics(&self, stats: &mut PracticeStatistics)
        requires
            old(stats).average_accuracy_permille <= 1000,
            self.report.accuracy_permille <= 1000,
            old(stats).highest_streak < u32::MAX,
        ensures
            final(stats).average_accuracy_permille == (old(stats).average_accuracy_permille
                + self.report.accuracy_permille) / 2,
            final(stats).highest_streak == (
            if self.report.accuracy_permille > 900 {
                old(stats).highest_streak + 1
            } else if old(stats).highest_streak > 0 {
                (old(stats).highest_streak - 1) as int
            } else {
                0int
            }),
            final(stats).last_practiced == old(stats).last_practiced,
            final(stats).average_accuracy_permille <= 1000,
    {
        stats.average_accuracy_permille = (stats.average_accuracy_permille
            + self.report.accuracy_permille) / 2;
        if self.report.accuracy_permille > 900 {
            stats.highest_streak = stats.highest_streak + 1;
        } else if stats.highest_streak > 0 {
            stats.highest_streak = stats.highest_streak - 1;
        }
    }
}

} // verus!
