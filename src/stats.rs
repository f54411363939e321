//! Counters that summarise a run.
use vstd::prelude::*;
use crate::resolve::{DateSource, ResolvedDate};

verus! {

/// Where a candidate's date came from.
#[derive(Clone, Copy, Debug, PartialEq, Eq, Structural)]
pub enum Origin {
    Metadata,
    Fallback,
}

/// How the work on one candidate ended.
#[derive(Clone, Copy, Debug, PartialEq, Eq, Structural)]
pub enum Outcome {
    Moved(Origin),
    Skipped(Origin),
    Failed,
}

pub struct Stats {
    pub total: usize,
    pub processed: usize,
    pub exif_count: usize,
    pub fallback_count: usize,
    pub skipped: usize,
    pub errors: usize,
}

impl Stats {
    /// Every candidate counted by origin was first counted as processed.
    pub open spec fn wf(&self) -> bool {
        self.exif_count + self.fallback_count <= self.processed
    }

    pub fn new() -> (r: Stats)
        ensures
            r.wf(),
            r.total == 0 && r.processed == 0 && r.exif_count == 0,
            r.fallback_count == 0 && r.skipped == 0 && r.errors == 0,
    {
        Stats { total: 0, processed: 0, exif_count: 0, fallback_count: 0, skipped: 0, errors: 0 }
    }

    pub fn set_total(&mut self, n: usize)
        ensures
            *final(self) == (Stats { total: n, ..*old(self) }),
    {
        self.total = n;
    }

    /// Starts work on a candidate unless the run was cancelled; returns
    /// whether work starts.
    pub fn begin_candidate(&mut self, cancelled: bool) -> (started: bool)
        requires
            old(self).wf(),
            old(self).processed < usize::MAX,
        ensures
            final(self).wf(),
            started == !cancelled,
            cancelled ==> *final(self) == *old(self),
            !cancelled ==> *final(self) == (Stats {
                processed: (old(self).processed + 1) as usize,
                ..*old(self)
            }),
    {
        if cancelled {
            return false;
        }
        self.processed = self.processed + 1;
        true
    }

    /// Takes back a started candidate that was abandoned, on cancellation,
    /// before any outcome: it no longer counts as processed.
    pub fn withdraw_candidate(&mut self)
        requires
            old(self).wf(),
            old(self).exif_count + old(self).fallback_count < old(self).processed,
        ensures
            final(self).wf(),
            *final(self) == (Stats {
                processed: (old(self).processed - 1) as usize,
                ..*old(self)
            }),
    {
        self.processed = self.processed - 1;
    }

    /// Counts a started candidate that was dated by `date` and then moved,
    /// or skipped as already in place: a metadata date counts for the
    /// metadata counter, a modification time for the fallback counter.
    pub fn record_dated(&mut self, date: &ResolvedDate, skipped: bool)
        requires
            old(self).wf(),
            old(self).exif_count + old(self).fallback_count < old(self).processed,
            old(self).skipped < usize::MAX,
        ensures
            final(self).wf(),
            final(self).total == old(self).total,
            final(self).processed == old(self).processed,
            final(self).errors == old(self).errors,
            final(self).exif_count == old(self).exif_count + (if date.source is Metadata {
                1int
            } else {
                0int
            }),
            final(self).fallback_count == old(self).fallback_count + (if date.source == DateSource::Fallback {
                1int
            } else {
                0int
            }),
            final(self).skipped == old(self).skipped + (if skipped {
                1int
            } else {
                0int
            }),
    {
        let o = date.origin();
        if skipped {
            self.record(Outcome::Skipped(o));
        } else {
            self.record(Outcome::Moved(o));
        }
    }

    /// Counts the outcome of a candidate whose work was started.
    pub fn record(&mut self, outcome: Outcome)
        requires
            old(self).wf(),
            old(self).exif_count + old(self).fallback_count < old(self).processed,
            outcome is Skipped ==> old(self).skipped < usize::MAX,
            outcome is Failed ==> old(self).errors < usize::MAX,
        ensures
            final(self).wf(),
            final(self).total == old(self).total,
            final(self).processed == old(self).processed,
            final(self).exif_count == old(self).exif_count + (if outcome == Outcome::Moved(
                Origin::Metadata,
            ) || outcome == Outcome::Skipped(Origin::Metadata) {
                1int
            } else {
                0int
            }),
            final(self).fallback_count == old(self).fallback_count + (if outcome == Outcome::Moved(
                Origin::Fallback,
            ) || outcome == Outcome::Skipped(Origin::Fallback) {
                1int
            } else {
                0int
            }),
            final(self).skipped == old(self).skipped + (if outcome is Skipped {
                1int
            } else {
                0int
            }),
            final(self).errors == old(self).errors + (if outcome is Failed {
                1int
            } else {
                0int
            }),
    {
        match outcome {
            Outcome::Moved(o) | Outcome::Skipped(o) => {
                if let Outcome::Skipped(_) = outcome {
                    self.skipped = self.skipped + 1;
                }
                match o {
                    Origin::Metadata => self.exif_count = self.exif_count + 1,
                    Origin::Fallback => self.fallback_count = self.fallback_count + 1,
                }
            },
            Outcome::Failed => self.errors = self.errors + 1,
        }
    }
}

/// `part / whole` as a percentage in tenths of a percent, rounded to the
/// nearest tenth with ties to even; 0 when `whole` is 0.
pub open spec fn percent_tenths_of(part: int, whole: int) -> int {
    if whole == 0 {
        0
    } else {
        let q = (part * 1000) / whole;
        let rem = (part * 1000) % whole;
        if 2 * rem > whole || (2 * rem == whole && q % 2 == 1) {
            q + 1
        } else {
            q
        }
    }
}

pub fn percent_tenths(part: usize, whole: usize) -> (r: u128)
    ensures
        r == percent_tenths_of(part as int, whole as int),
{
    if whole == 0 {
        return 0;
    }
    let scaled: u128 = (part as u128) * 1000;
    let w = whole as u128;
    let q = scaled / w;
    let rem = scaled % w;
    if 2 * rem > w || (2 * rem == w && q % 2 == 1) {
        q + 1
    } else {
        q
    }
}

} // verus!
