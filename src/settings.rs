//! Validation of user settings that the history depends on.
use vstd::prelude::*;
use crate::history::{clamp_size, MAX_HISTORY_SIZE_LIMIT};

verus! {

/// Unit of the auto-delete interval.
#[derive(Debug, Clone, Copy, PartialEq, Eq, Structural)]
pub enum DeleteUnit {
    Minutes,
    Hours,
    Days,
    Weeks,
}

/// Theme choice.
#[derive(Debug, Clone, Copy, PartialEq, Eq, Structural)]
pub enum ThemeMode {
    System,
    Dark,
    Light,
}

fn same(a: &str, b: &str) -> (r: bool)
    ensures
        r == (a@ == b@),
{
    String::from_str(a) == String::from_str(b)
}

/// The unit a setting names; anything unknown falls back to hours.
pub fn parse_delete_unit(unit: &str) -> (r: DeleteUnit)
    ensures
        r == if unit@ == "minutes"@ {
            DeleteUnit::Minutes
        } else if unit@ == "hours"@ {
            DeleteUnit::Hours
        } else if unit@ == "days"@ {
            DeleteUnit::Days
        } else if unit@ == "weeks"@ {
            DeleteUnit::Weeks
        } else {
            DeleteUnit::Hours
        },
{
    if same(unit, "minutes") {
        DeleteUnit::Minutes
    } else if same(unit, "hours") {
        DeleteUnit::Hours
    } else if same(unit, "days") {
        DeleteUnit::Days
    } else if same(unit, "weeks") {
        DeleteUnit::Weeks
    } else {
        DeleteUnit::Hours
    }
}

/// The theme a setting names; anything unknown falls back to the system theme.
pub fn parse_theme_mode(mode: &str) -> (r: ThemeMode)
    ensures
        r == if mode@ == "dark"@ {
            ThemeMode::Dark
        } else if mode@ == "light"@ {
            ThemeMode::Light
        } else {
            ThemeMode::System
        },
{
    if same(mode, "dark") {
        ThemeMode::Dark
    } else if same(mode, "light") {
        ThemeMode::Light
    } else {
        ThemeMode::System
    }
}

pub open spec fn minutes_per(unit: DeleteUnit) -> nat {
    match unit {
        DeleteUnit::Minutes => 1,
        DeleteUnit::Hours => 60,
        DeleteUnit::Days => 1440,
        DeleteUnit::Weeks => 10080,
    }
}

/// The auto-delete interval in minutes, saturating at `u64::MAX`; 0 means
/// disabled.
pub fn auto_delete_interval_in_minutes(interval: u64, unit: DeleteUnit) -> (r: u64)
    ensures
        r == if interval as nat * minutes_per(unit) > u64::MAX {
            u64::MAX as nat
        } else {
            interval as nat * minutes_per(unit)
        },
{
    let per: u64 = match unit {
        DeleteUnit::Minutes => 1,
        DeleteUnit::Hours => 60,
        DeleteUnit::Days => 1440,
        DeleteUnit::Weeks => 10080,
    };
    if interval > u64::MAX / per {
        assert(interval as nat * per as nat > u64::MAX) by (nonlinear_arith)
            requires
                interval > u64::MAX / per,
                per > 0,
        ;
        u64::MAX
    } else {
        assert(interval as nat * per as nat <= u64::MAX) by (nonlinear_arith)
            requires
                interval <= u64::MAX / per,
                per > 0,
        ;
        interval * per
    }
}

/// The configured history size, validated: 0 means the default, and the
/// result lies in [1, MAX_HISTORY_SIZE_LIMIT].
pub fn validate_max_history_size(n: usize) -> (r: usize)
    ensures
        r == clamp_size(n as nat),
        1 <= r <= MAX_HISTORY_SIZE_LIMIT,
{
    if n == 0 {
        crate::history::DEFAULT_MAX_HISTORY_SIZE
    } else if n > MAX_HISTORY_SIZE_LIMIT {
        MAX_HISTORY_SIZE_LIMIT
    } else {
        n
    }
}

} // verus!
