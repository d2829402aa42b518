//! The user's settings and the wording of inquiry intervals.

use crate::text::{decimal, decimal_text};
use vstd::prelude::*;
use vstd::string::*;

verus! {

/// The settings that the daemon and the windows read.
#[derive(Debug)]
pub struct AppConfig {
    /// Minutes between two inquiries.
    pub daemon_interval_minutes: u64,
    /// The name of the colour scheme.
    pub theme: String,
    pub auto_start_daemon: bool,
}

/// The settings, as mathematical values.
pub struct ConfigView {
    pub daemon_interval_minutes: u64,
    pub theme: Seq<char>,
    pub auto_start_daemon: bool,
}

impl View for AppConfig {
    type V = ConfigView;

    open spec fn view(&self) -> ConfigView {
        ConfigView {
            daemon_interval_minutes: self.daemon_interval_minutes,
            theme: self.theme@,
            auto_start_daemon: self.auto_start_daemon,
        }
    }
}

impl Default for AppConfig {
    /// One inquiry per hour, the dark colour scheme, no automatic start.
    fn default() -> (config: AppConfig)
        ensures
            config.daemon_interval_minutes == 60,
            config.theme@ == "GruvboxDark"@,
            !config.auto_start_daemon,
    {
        AppConfig {
            daemon_interval_minutes: 60,
            theme: String::from_str("GruvboxDark"),
            auto_start_daemon: false,
        }
    }
}

/// The intervals, in minutes, that the settings offer.
pub open spec fn interval_choices() -> Seq<u64> {
    seq![1, 5, 10, 15, 30, 60, 120, 240, 480]
}

/// The plural ending that follows the count `n`.
pub open spec fn plural_text(n: nat) -> Seq<char> {
    if n == 1 {
        Seq::empty()
    } else {
        "s"@
    }
}

/// How an interval of `minutes` minutes is worded: in minutes below an
/// hour, in hours for whole hours, else in hours and minutes.
pub open spec fn interval_text(minutes: nat) -> Seq<char> {
    if minutes < 60 {
        decimal_text(minutes) + " minuto"@ + plural_text(minutes)
    } else if minutes % 60 == 0 {
        decimal_text(minutes / 60) + " hora"@ + plural_text(minutes / 60)
    } else {
        decimal_text(minutes / 60) + "h"@ + decimal_text(minutes % 60) + "m"@
    }
}

fn plural(n: u64) -> (s: &'static str)
    ensures
        s@ == plural_text(n as nat),
{
    if n == 1 {
        proof {
            reveal_strlit("");
        }
        assert(""@ =~= Seq::<char>::empty());
        ""
    } else {
        "s"
    }
}

impl AppConfig {
    /// The interval between two inquiries, in seconds.
    pub fn get_daemon_interval_seconds(&self) -> (seconds: u64)
        requires
            self.daemon_interval_minutes * 60 <= u64::MAX,
        ensures
            seconds == self.daemon_interval_minutes * 60,
    {
        self.daemon_interval_minutes * 60
    }

    /// The intervals that the settings offer, each with its wording.
    pub fn get_available_intervals() -> (choices: Vec<(String, u64)>)
        ensures
            choices@.len() == interval_choices().len(),
            forall|i: int|
                0 <= i < choices@.len() ==> (#[trigger] choices@[i]).1 == interval_choices()[i],
            forall|i: int|
                0 <= i < choices@.len() ==> (#[trigger] choices@[i]).0@ == interval_text(
                    interval_choices()[i] as nat,
                ),
    {
        let mut choices: Vec<(String, u64)> = Vec::new();
        choices.push((Self::format_interval_static(1), 1));
        choices.push((Self::format_interval_static(5), 5));
        choices.push((Self::format_interval_static(10), 10));
        choices.push((Self::format_interval_static(15), 15));
        choices.push((Self::format_interval_static(30), 30));
        choices.push((Self::format_interval_static(60), 60));
        choices.push((Self::format_interval_static(120), 120));
        choices.push((Self::format_interval_static(240), 240));
        choices.push((Self::format_interval_static(480), 480));
        choices
    }

    /// The wording of the configured interval.
    pub fn format_interval(&self) -> (text: String)
        ensures
            text@ == interval_text(self.daemon_interval_minutes as nat),
    {
        Self::format_interval_static(self.daemon_interval_minutes)
    }

    /// The wording of an interval of `minutes` minutes.
    pub fn format_interval_static(minutes: u64) -> (text: String)
        ensures
            text@ == interval_text(minutes as nat),
    {
        if minutes < 60 {
            let mut text = decimal(minutes);
            text.append(" minuto");
            text.append(plural(minutes));
            text
        } else {
            let hours: u64 = minutes / 60;
            let remaining_minutes: u64 = minutes % 60;
            if remaining_minutes == 0 {
                let mut text = decimal(hours);
                text.append(" hora");
                text.append(plural(hours));
                text
            } else {
                let mut text = decimal(hours);
                text.append("h");
                let rest = decimal(remaining_minutes);
                text.append(rest.as_str());
                text.append("m");
                text
            }
        }
    }
}

} // verus!
