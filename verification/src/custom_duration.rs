use crate::sync_error::SyncError;
use vstd::prelude::*;

verus! {

pub const MILLIS_PER_MINUTE: i64 = 60_000;

pub const MILLIS_PER_HOUR: i64 = 3_600_000;

pub const MILLIS_PER_DAY: i64 = 86_400_000;

pub const MILLIS_PER_WEEK: i64 = 604_800_000;

/// One retention window: the components are additive, and each is optional.
#[derive(Debug, Clone)]
pub struct CustomDuration {
    pub minutes: Option<i64>,
    pub hours: Option<i64>,
    pub days: Option<i64>,
    pub weeks: Option<i64>,
}

/// The contribution of one optional component, in milliseconds.
pub open spec fn component_millis(v: Option<i64>, factor: int) -> int {
    match v {
        Some(x) => x * factor,
        None => 0,
    }
}

/// Whether adding one optional component to the running total `acc` stays
/// within `i64` at both the multiplication and the addition.
pub open spec fn component_fits(v: Option<i64>, factor: int, acc: int) -> bool {
    match v {
        Some(x) => i64::MIN <= x * factor <= i64::MAX && i64::MIN <= acc + x * factor <= i64::MAX,
        None => true,
    }
}

impl CustomDuration {
    /// Running total after the minutes component.
    pub open spec fn millis_after_minutes(self) -> int {
        component_millis(self.minutes, MILLIS_PER_MINUTE as int)
    }

    /// Running total after the hours component.
    pub open spec fn millis_after_hours(self) -> int {
        self.millis_after_minutes() + component_millis(self.hours, MILLIS_PER_HOUR as int)
    }

    /// Running total after the days component.
    pub open spec fn millis_after_days(self) -> int {
        self.millis_after_hours() + component_millis(self.days, MILLIS_PER_DAY as int)
    }

    /// The window's total length in milliseconds, as an unbounded integer.
    pub open spec fn total_millis(self) -> int {
        self.millis_after_days() + component_millis(self.weeks, MILLIS_PER_WEEK as int)
    }

    /// Whether the summation stays within `i64` at every step, in the order
    /// minutes, hours, days, weeks.
    pub open spec fn conversion_ok(self) -> bool {
        &&& component_fits(self.minutes, MILLIS_PER_MINUTE as int, 0)
        &&& component_fits(self.hours, MILLIS_PER_HOUR as int, self.millis_after_minutes())
        &&& component_fits(self.days, MILLIS_PER_DAY as int, self.millis_after_hours())
        &&& component_fits(self.weeks, MILLIS_PER_WEEK as int, self.millis_after_days())
    }

    /// A window of `minutes` minutes.
    pub fn minutes(minutes: i64) -> (r: Self)
        ensures
            r.minutes == Some(minutes),
            r.hours is None,
            r.days is None,
            r.weeks is None,
    {
        CustomDuration { minutes: Some(minutes), hours: None, days: None, weeks: None }
    }

    /// A window of `hours` hours.
    pub fn hours(hours: i64) -> (r: Self)
        ensures
            r.minutes is None,
            r.hours == Some(hours),
            r.days is None,
            r.weeks is None,
    {
        CustomDuration { minutes: None, hours: Some(hours), days: None, weeks: None }
    }

    /// A window of `days` days.
    pub fn days(days: i64) -> (r: Self)
        ensures
            r.minutes is None,
            r.hours is None,
            r.days == Some(days),
            r.weeks is None,
    {
        CustomDuration { minutes: None, hours: None, days: Some(days), weeks: None }
    }

    /// A window of `weeks` weeks.
    pub fn weeks(weeks: i64) -> (r: Self)
        ensures
            r.minutes is None,
            r.hours is None,
            r.days is None,
            r.weeks == Some(weeks),
    {
        CustomDuration { minutes: None, hours: None, days: None, weeks: Some(weeks) }
    }

    /// Convert the window into milliseconds, summing the components in order
    /// and failing on the first step that leaves `i64`.
    pub fn to_millis(&self) -> (r: Result<i64, SyncError>)
        ensures
            self.conversion_ok() <==> r is Ok,
            r matches Ok(v) ==> v == self.total_millis(),
            r matches Err(e) ==> e is DurationConversionError,
    {
        let mut acc: i64 = 0;
        if let Some(m) = self.minutes {
            let c = match m.checked_mul(MILLIS_PER_MINUTE) {
                Some(c) => c,
                None => {
                    return Err(SyncError::DurationConversionError);
                },
            };
            acc = match acc.checked_add(c) {
                Some(a) => a,
                None => {
                    return Err(SyncError::DurationConversionError);
                },
            };
        }
        if let Some(h) = self.hours {
            let c = match h.checked_mul(MILLIS_PER_HOUR) {
                Some(c) => c,
                None => {
                    return Err(SyncError::DurationConversionError);
                },
            };
            acc = match acc.checked_add(c) {
                Some(a) => a,
                None => {
                    return Err(SyncError::DurationConversionError);
                },
            };
        }
        if let Some(d) = self.days {
            let c = match d.checked_mul(MILLIS_PER_DAY) {
                Some(c) => c,
                None => {
                    return Err(SyncError::DurationConversionError);
                },
            };
            acc = match acc.checked_add(c) {
                Some(a) => a,
                None => {
                    return Err(SyncError::DurationConversionError);
                },
            };
        }
        if let Some(w) = self.weeks {
            let c = match w.checked_mul(MILLIS_PER_WEEK) {
                Some(c) => c,
                None => {
                    return Err(SyncError::DurationConversionError);
                },
            };
            acc = match acc.checked_add(c) {
                Some(a) => a,
                None => {
                    return Err(SyncError::DurationConversionError);
                },
            };
        }
        Ok(acc)
    }
}

} // verus!
