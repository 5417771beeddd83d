//! Time module — displays the local time.
//!
//! Reading the clock is left to the caller, which hands the time of day to
//! [`render_time`] or [`TimeModule::render_at`].
use vstd::prelude::*;

use super::{ModuleOutput, ModuleSpeed};
use crate::text::{decimal2, push_decimal2, string_from_chars};

verus! {

/// `HH:MM:SS`, or `HH:MM` without seconds, each field zero-padded to two digits.
pub open spec fn time_text(hour: u8, minute: u8, second: u8, show_seconds: bool) -> Seq<char> {
    if show_seconds {
        decimal2(hour as nat) + seq![':'] + decimal2(minute as nat) + seq![':'] + decimal2(
            second as nat,
        )
    } else {
        decimal2(hour as nat) + seq![':'] + decimal2(minute as nat)
    }
}

/// Formats a time of day.
pub fn format_time(hour: u8, minute: u8, second: u8, show_seconds: bool) -> (r: String)
    ensures
        r@ == time_text(hour, minute, second, show_seconds),
{
    let mut out: Vec<char> = Vec::new();
    push_decimal2(&mut out, hour as u64);
    out.push(':');
    push_decimal2(&mut out, minute as u64);
    if show_seconds {
        out.push(':');
        push_decimal2(&mut out, second as u64);
    }
    assert(out@ =~= time_text(hour, minute, second, show_seconds));
    string_from_chars(&out)
}

/// Renders the time of day, or nothing when the local time is unknown.
pub fn render_time(time: Option<(u8, u8, u8)>, show_seconds: bool) -> (r: Option<ModuleOutput>)
    ensures
        time is None ==> r is None,
        time matches Some((h, m, s)) ==> (r matches Some(o) && o.content@ == time_text(
            h,
            m,
            s,
            show_seconds,
        )),
{
    match time {
        Some((hour, minute, second)) => Some(
            ModuleOutput { content: format_time(hour, minute, second, show_seconds) },
        ),
        None => None,
    }
}

/// Displays the local time.
#[derive(Debug)]
pub struct TimeModule {
    show_seconds: bool,
}

impl Default for TimeModule {
    fn default() -> (r: Self)
        ensures
            r.shows_seconds(),
    {
        Self::new()
    }
}

impl TimeModule {
    /// Whether seconds are shown.
    pub closed spec fn shows_seconds(&self) -> bool {
        self.show_seconds
    }

    /// Creates a new `TimeModule` that shows seconds.
    pub fn new() -> (r: Self)
        ensures
            r.shows_seconds(),
    {
        TimeModule { show_seconds: true }
    }

    /// Creates a new `TimeModule` with explicit seconds display.
    pub fn with_show_seconds(show_seconds: bool) -> (r: Self)
        ensures
            r.shows_seconds() == show_seconds,
    {
        TimeModule { show_seconds }
    }

    /// Module name for identification.
    pub fn name(&self) -> (r: &'static str)
        ensures
            r@ == "time"@,
    {
        "time"
    }

    /// The time module is fast.
    pub fn speed(&self) -> (r: ModuleSpeed)
        ensures
            r == ModuleSpeed::Fast,
    {
        ModuleSpeed::Fast
    }

    /// Renders the given local time of day.
    pub fn render_at(&self, time: Option<(u8, u8, u8)>) -> (r: Option<ModuleOutput>)
        ensures
            time is None ==> r is None,
            time matches Some((h, m, s)) ==> (r matches Some(o) && o.content@ == time_text(
                h,
                m,
                s,
                self.shows_seconds(),
            )),
    {
        render_time(time, self.show_seconds)
    }
}

} // verus!
