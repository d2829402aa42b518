//! The viewer window's state: the day on show, its records, and how they
//! are worded.

use crate::clock::{date_of, local_date, parse_day, today};
use crate::config::{AppConfig, ConfigView};
use crate::database::{
    count_for, day_of, is_listing_for, views, well_formed, Database,
};
use crate::models::{Activity, ActivityView, AppPage, Day, Theme, Timestamp};
use crate::settings::{
    settings_error_message, settings_restored_message, settings_saved_message,
};
use crate::text::{decimal, decimal_text};
use vstd::prelude::*;
use vstd::string::*;

verus! {

/// How a message on the screen is meant.
#[derive(Clone, Copy, Debug, PartialEq, Eq, Structural)]
pub enum MessageTone {
    Info,
    Warning,
    Error,
}

/// The sign that opens a message of good news.
pub const INFO_SIGN: char = '\u{eab2}';

/// The sign that opens a warning.
pub const WARNING_SIGN: char = '\u{ea74}';

/// The tone of a message: that of the sign it opens with, and that of an
/// error where it opens with neither.
pub open spec fn tone_of(message: Seq<char>) -> MessageTone {
    if message.len() > 0 && message[0] == INFO_SIGN {
        MessageTone::Info
    } else if message.len() > 0 && message[0] == WARNING_SIGN {
        MessageTone::Warning
    } else {
        MessageTone::Error
    }
}

/// Reads the tone of a message from the sign it opens with.
pub fn message_tone(message: &str) -> (tone: MessageTone)
    ensures
        tone == tone_of(message@),
{
    if message.unicode_len() == 0 {
        return MessageTone::Error;
    }
    let first = message.get_char(0);
    if first == INFO_SIGN {
        MessageTone::Info
    } else if first == WARNING_SIGN {
        MessageTone::Warning
    } else {
        MessageTone::Error
    }
}

/// The whole minutes from `earlier` to `later`; none when `later` lies before.
pub open spec fn minutes_between(earlier: Timestamp, later: Timestamp) -> Option<int> {
    let nanos = (later.secs - earlier.secs) * 1_000_000_000 + (later.nanos - earlier.nanos);
    if nanos < 0 {
        None
    } else {
        Some(nanos / 60_000_000_000)
    }
}

/// The whole minutes from `earlier` to `later`; none when `later` lies before.
pub fn elapsed_minutes(earlier: &Timestamp, later: &Timestamp) -> (r: Option<u64>)
    ensures
        match r {
            Some(minutes) => minutes_between(*earlier, *later) == Some(minutes as int),
            None => minutes_between(*earlier, *later) is None,
        },
{
    let seconds: i128 = later.secs as i128 - earlier.secs as i128;
    let nanos: i128 = seconds * 1_000_000_000 + (later.nanos as i128 - earlier.nanos as i128);
    if nanos < 0 {
        None
    } else {
        let minutes: i128 = nanos / 60_000_000_000;
        Some(minutes as u64)
    }
}

/// How a time of `minutes` minutes since the record before is worded: not
/// at all below one minute, in minutes below an hour, in hours for whole
/// hours, else in hours and minutes.
pub open spec fn elapsed_text(minutes: nat) -> Option<Seq<char>> {
    if minutes == 0 {
        None
    } else if minutes < 60 {
        Some(decimal_text(minutes) + "min depois"@)
    } else if minutes % 60 == 0 {
        Some(decimal_text(minutes / 60) + "h depois"@)
    } else {
        Some(decimal_text(minutes / 60) + "h"@ + decimal_text(minutes % 60) + "m depois"@)
    }
}

/// Words the time since the record before.
pub fn elapsed_label(minutes: u64) -> (r: Option<String>)
    ensures
        match r {
            Some(text) => elapsed_text(minutes as nat) == Some(text@),
            None => elapsed_text(minutes as nat) is None,
        },
{
    if minutes == 0 {
        None
    } else if minutes < 60 {
        let mut text = decimal(minutes);
        text.append("min depois");
        Some(text)
    } else {
        let hours: u64 = minutes / 60;
        let remaining_minutes: u64 = minutes % 60;
        let mut text = decimal(hours);
        if remaining_minutes == 0 {
            text.append("h depois");
        } else {
            text.append("h");
            let rest = decimal(remaining_minutes);
            text.append(rest.as_str());
            text.append("m depois");
        }
        Some(text)
    }
}

/// The message after the records could not be loaded, for the given cause.
pub open spec fn load_error_message(cause: Seq<char>) -> Seq<char> {
    "Erro ao carregar atividades: "@ + cause
}

/// The state of the viewer window, as mathematical values.
pub struct ViewerView {
    pub db: Seq<ActivityView>,
    pub selected_date: Day,
    pub activities: Seq<ActivityView>,
    pub current_theme: Theme,
    pub message: Option<Seq<char>>,
    pub current_page: AppPage,
    pub config: ConfigView,
    pub selected_interval: u64,
}

impl ViewerView {
    /// The settings that saving writes: the selected interval and theme, and
    /// the rest as it was.
    pub open spec fn pending(self) -> ConfigView {
        ConfigView {
            daemon_interval_minutes: self.selected_interval,
            theme: self.current_theme.name_text(),
            auto_start_daemon: self.config.auto_start_daemon,
        }
    }
}

/// What showing the day `day` makes of the window: the day is selected, its
/// records are listed in ascending order, and the message is gone.
pub open spec fn shown(before: ViewerView, after: ViewerView, day: Day) -> bool {
    &&& is_listing_for(before.db, day, after.activities)
    &&& after.activities.len() == count_for(before.db, day)
    &&& after == (ViewerView {
        selected_date: day,
        activities: after.activities,
        message: None,
        ..before
    })
}

/// The state of the viewer window.
#[derive(Debug)]
pub struct ViewerApp {
    db: Database,
    selected_date: Day,
    activities: Vec<Activity>,
    current_theme: Theme,
    message: Option<String>,
    current_page: AppPage,
    config: AppConfig,
    selected_interval: u64,
}

impl View for ViewerApp {
    type V = ViewerView;

    closed spec fn view(&self) -> ViewerView {
        ViewerView {
            db: self.db@,
            selected_date: self.selected_date,
            activities: views(self.activities@),
            current_theme: self.current_theme,
            message: match self.message {
                Some(text) => Some(text@),
                None => None,
            },
            current_page: self.current_page,
            config: self.config@,
            selected_interval: self.selected_interval,
        }
    }
}

impl ViewerApp {
    /// The window before any day is shown.
    pub open spec fn fresh(db: Seq<ActivityView>, config: ConfigView, day: Day) -> ViewerView {
        ViewerView {
            db,
            selected_date: day,
            activities: Seq::empty(),
            current_theme: Theme::named(config.theme),
            message: None,
            current_page: AppPage::Viewer,
            config,
            selected_interval: config.daemon_interval_minutes,
        }
    }

    /// The window over `db` with the settings `config`, showing the day `day`.
    pub fn new_on(db: Database, config: AppConfig, day: Day) -> (app: ViewerApp)
        requires
            well_formed(db@),
        ensures
            shown(Self::fresh(db@, config@, day), app@, day),
    {
        let current_theme = Theme::from_name(config.theme.as_str());
        let selected_interval: u64 = config.daemon_interval_minutes;
        let mut app = ViewerApp {
            db,
            selected_date: day,
            activities: Vec::new(),
            current_theme,
            message: None,
            current_page: AppPage::Viewer,
            selected_interval,
            config,
        };
        assert(views(app.activities@) =~= Seq::<ActivityView>::empty());
        app.load_activities();
        app
    }

    /// The window over `db` with the settings `config`, showing today; none
    /// when the clock stands outside the supported years.
    pub fn new(db: Database, config: AppConfig) -> (r: Option<ViewerApp>)
        requires
            well_formed(db@),
        ensures
            r matches Some(app) ==> exists|day: Day| #[trigger]
                shown(Self::fresh(db@, config@, day), app@, day),
    {
        match today() {
            Some(day) => {
                let app = Self::new_on(db, config, day);
                assert(shown(Self::fresh(db@, config@, day), app@, day));
                Some(app)
            },
            None => None,
        }
    }

    /// Lists the records of the selected day again.
    pub fn load_activities(&mut self)
        requires
            well_formed(old(self)@.db),
        ensures
            shown(old(self)@, final(self)@, old(self)@.selected_date),
    {
        self.activities = self.db.get_activities_for_date(self.selected_date);
        self.message = None;
    }

    /// Shows that the records could not be loaded, for the given cause, and
    /// lists none.
    pub fn report_load_error(&mut self, cause: &str)
        ensures
            final(self)@ == (ViewerView {
                activities: Seq::empty(),
                message: Some(load_error_message(cause@)),
                ..old(self)@
            }),
    {
        let mut text = String::from_str("Erro ao carregar atividades: ");
        text.append(cause);
        self.message = Some(text);
        self.activities = Vec::new();
        assert(views(self.activities@) =~= Seq::<ActivityView>::empty());
    }

    /// Shows the day `day`.
    pub fn select_date(&mut self, day: Day)
        requires
            well_formed(old(self)@.db),
        ensures
            shown(old(self)@, final(self)@, day),
    {
        self.selected_date = day;
        self.load_activities();
    }

    /// Shows the day that `text` names in the form `YYYY-MM-DD`. A text that
    /// names no supported day changes nothing, and `false` is returned.
    pub fn select_date_text(&mut self, text: &str) -> (accepted: bool)
        requires
            well_formed(old(self)@.db),
        ensures
            match day_of(text@) {
                Some(day) => accepted && shown(old(self)@, final(self)@, day),
                None => !accepted && final(self)@ == old(self)@,
            },
    {
        match parse_day(text) {
            Ok(day) => {
                if day.is_valid() {
                    self.select_date(day);
                    true
                } else {
                    false
                }
            },
            Err(_) => false,
        }
    }

    /// Shows the day before `today`; the first supported day has none, and
    /// then nothing changes.
    pub fn select_day_before(&mut self, today: Day)
        requires
            well_formed(old(self)@.db),
            today.wf(),
        ensures
            match today.previous_spec() {
                Some(day) => shown(old(self)@, final(self)@, day),
                None => final(self)@ == old(self)@,
            },
    {
        match today.previous() {
            Some(day) => {
                self.select_date(day);
            },
            None => {},
        }
    }

    /// Selects a theme.
    pub fn change_theme(&mut self, new_theme: Theme)
        ensures
            final(self)@ == (ViewerView { current_theme: new_theme, ..old(self)@ }),
    {
        self.current_theme = new_theme;
    }

    /// Turns to a page.
    pub fn show_page(&mut self, page: AppPage)
        ensures
            final(self)@ == (ViewerView { current_page: page, ..old(self)@ }),
    {
        self.current_page = page;
    }

    /// Selects an interval, in minutes.
    pub fn select_interval(&mut self, minutes: u64)
        ensures
            final(self)@ == (ViewerView { selected_interval: minutes, ..old(self)@ }),
    {
        self.selected_interval = minutes;
    }

    /// The settings that saving writes.
    pub fn pending_config(&self) -> (config: AppConfig)
        ensures
            config@ == self@.pending(),
    {
        AppConfig {
            daemon_interval_minutes: self.selected_interval,
            theme: self.current_theme.name(),
            auto_start_daemon: self.config.auto_start_daemon,
        }
    }

    /// Takes the selection over into the settings, and shows how writing
    /// them went: `written` is `Ok` when they were written, else the cause.
    pub fn save_config(&mut self, written: Result<(), String>)
        ensures
            final(self)@ == (ViewerView {
                config: old(self)@.pending(),
                message: Some(
                    match written {
                        Ok(_) => settings_saved_message(),
                        Err(cause) => settings_error_message(cause@),
                    },
                ),
                ..old(self)@
            }),
    {
        self.config = self.pending_config();
        match written {
            Ok(_) => {
                self.message = Some(
                    String::from_str("\u{eab2} Configurações salvas com sucesso!"),
                );
            },
            Err(cause) => {
                let mut text = String::from_str("\u{274c} Erro ao salvar: ");
                text.append(cause.as_str());
                self.message = Some(text);
            },
        }
    }

    /// Selects the defaults: one inquiry per hour and the dark theme. The
    /// settings themselves stay until they are saved.
    pub fn restore_defaults(&mut self)
        ensures
            final(self)@ == (ViewerView {
                selected_interval: 60,
                current_theme: Theme::GruvboxDark,
                message: Some(settings_restored_message()),
                ..old(self)@
            }),
    {
        let defaults = AppConfig::default();
        self.selected_interval = defaults.daemon_interval_minutes;
        self.current_theme = Theme::GruvboxDark;
        self.message = Some(
            String::from_str("\u{eab2} Configurações restauradas para os padrões"),
        );
    }

    /// The time of day of a record, in the form `HH:MM`.
    pub fn format_time(&self, activity: &Activity) -> (text: String)
        requires
            activity.timestamp.wf(),
        ensures
            text@ == activity.timestamp.time_text_spec(),
    {
        activity.timestamp.time_text()
    }

    /// Whether a record is shown with its date: it is when its timestamp
    /// falls on another day than `today`.
    pub fn shows_date(activity: &Activity, today: Day) -> (b: bool)
        requires
            activity.timestamp.wf(),
        ensures
            b == (local_date(activity.timestamp) != today),
    {
        date_of(activity.timestamp) != today
    }

    /// The log.
    pub fn db(&self) -> (db: &Database)
        ensures
            db@ == self@.db,
    {
        &self.db
    }

    /// The day on show.
    pub fn selected_date(&self) -> (day: Day)
        ensures
            day == self@.selected_date,
    {
        self.selected_date
    }

    /// The records on show.
    pub fn activities(&self) -> (listing: &Vec<Activity>)
        ensures
            views(listing@) == self@.activities,
    {
        &self.activities
    }

    /// The selected theme.
    pub fn current_theme(&self) -> (theme: Theme)
        ensures
            theme == self@.current_theme,
    {
        self.current_theme
    }

    /// The page on show.
    pub fn current_page(&self) -> (page: AppPage)
        ensures
            page == self@.current_page,
    {
        self.current_page
    }

    /// The settings as they were last loaded or saved.
    pub fn config(&self) -> (config: &AppConfig)
        ensures
            config@ == self@.config,
    {
        &self.config
    }

    /// The selected interval, in minutes.
    pub fn selected_interval(&self) -> (minutes: u64)
        ensures
            minutes == self@.selected_interval,
    {
        self.selected_interval
    }

    /// The message on the screen.
    pub fn message(&self) -> (message: &Option<String>)
        ensures
            match *message {
                Some(text) => self@.message == Some(text@),
                None => self@.message is None,
            },
    {
        &self.message
    }
}

} // verus!
