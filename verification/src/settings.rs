//! The settings window's state: what is selected, and what saving makes of it.

use crate::config::{AppConfig, ConfigView};
use crate::models::Theme;
use vstd::prelude::*;
use vstd::string::*;

verus! {

/// The message after the settings were written.
pub open spec fn settings_saved_message() -> Seq<char> {
    "\u{eab2} Configurações salvas com sucesso!"@
}

/// The message after the selection went back to the defaults.
pub open spec fn settings_restored_message() -> Seq<char> {
    "\u{eab2} Configurações restauradas para os padrões"@
}

/// The message after the settings could not be written, for the given cause.
pub open spec fn settings_error_message(cause: Seq<char>) -> Seq<char> {
    "\u{274c} Erro ao salvar: "@ + cause
}

/// The state of the settings window, as mathematical values.
pub struct SettingsView {
    pub config: ConfigView,
    pub current_theme: Theme,
    pub message: Option<Seq<char>>,
    pub selected_interval: u64,
}

impl SettingsView {
    /// The settings that saving writes: the selected interval and theme, and
    /// the rest as it was.
    pub open spec fn pending(self) -> ConfigView {
        ConfigView {
            daemon_interval_minutes: self.selected_interval,
            theme: self.current_theme.name_text(),
            auto_start_daemon: self.config.auto_start_daemon,
        }
    }
}

/// The state of the settings window.
#[derive(Debug)]
pub struct SettingsApp {
    config: AppConfig,
    current_theme: Theme,
    message: Option<String>,
    selected_interval: u64,
}

impl View for SettingsApp {
    type V = SettingsView;

    closed spec fn view(&self) -> SettingsView {
        SettingsView {
            config: self.config@,
            current_theme: self.current_theme,
            message: match self.message {
                Some(text) => Some(text@),
                None => None,
            },
            selected_interval: self.selected_interval,
        }
    }
}

impl SettingsApp {
    /// The window's state for the settings `config`: their interval and
    /// their theme are selected.
    pub fn new(config: AppConfig) -> (app: SettingsApp)
        ensures
            app@ == (SettingsView {
                config: config@,
                current_theme: Theme::named(config.theme@),
                message: None,
                selected_interval: config.daemon_interval_minutes,
            }),
    {
        let current_theme = Theme::from_name(config.theme.as_str());
        let selected_interval: u64 = config.daemon_interval_minutes;
        SettingsApp { selected_interval, config, current_theme, message: None }
    }

    /// The settings that saving writes.
    pub fn pending_config(&self) -> (config: AppConfig)
        ensures
            config@ == self@.pending(),
    {
        AppConfig {
            daemon_interval_minutes: self.selected_interval,
            theme: self.current_theme.name(),
            auto_start_daemon: self.config.auto_start_daemon,
        }
    }

    /// Takes the selection over into the settings, and shows how writing
    /// them went: `written` is `Ok` when they were written, else the cause.
    pub fn save_config(&mut self, written: Result<(), String>)
        ensures
            final(self)@ == (SettingsView {
                config: old(self)@.pending(),
                message: Some(
                    match written {
                        Ok(_) => settings_saved_message(),
                        Err(cause) => settings_error_message(cause@),
                    },
                ),
                ..old(self)@
            }),
    {
        self.config = self.pending_config();
        match written {
            Ok(_) => {
                self.message = Some(
                    String::from_str("\u{eab2} Configurações salvas com sucesso!"),
                );
            },
            Err(cause) => {
                let mut text = String::from_str("\u{274c} Erro ao salvar: ");
                text.append(cause.as_str());
                self.message = Some(text);
            },
        }
    }

    /// Selects a theme.
    pub fn change_theme(&mut self, new_theme: Theme)
        ensures
            final(self)@ == (SettingsView { current_theme: new_theme, ..old(self)@ }),
    {
        self.current_theme = new_theme;
    }

    /// Selects an interval, in minutes.
    pub fn select_interval(&mut self, minutes: u64)
        ensures
            final(self)@ == (SettingsView { selected_interval: minutes, ..old(self)@ }),
    {
        self.selected_interval = minutes;
    }

    /// Selects the defaults: one inquiry per hour and the dark theme. The
    /// settings themselves stay until they are saved.
    pub fn restore_defaults(&mut self)
        ensures
            final(self)@ == (SettingsView {
                selected_interval: 60,
                current_theme: Theme::GruvboxDark,
                message: Some(settings_restored_message()),
                ..old(self)@
            }),
    {
        let defaults = AppConfig::default();
        self.selected_interval = defaults.daemon_interval_minutes;
        self.current_theme = Theme::GruvboxDark;
        self.message = Some(
            String::from_str("\u{eab2} Configurações restauradas para os padrões"),
        );
    }

    /// Whether the selected interval differs from the one in the settings.
    pub fn has_pending_interval(&self) -> (b: bool)
        ensures
            b == (self@.selected_interval != self@.config.daemon_interval_minutes),
    {
        self.selected_interval != self.config.daemon_interval_minutes
    }

    /// The settings as they were last loaded or saved.
    pub fn config(&self) -> (config: &AppConfig)
        ensures
            config@ == self@.config,
    {
        &self.config
    }

    /// The selected theme.
    pub fn current_theme(&self) -> (theme: Theme)
        ensures
            theme == self@.current_theme,
    {
        self.current_theme
    }

    /// The selected interval, in minutes.
    pub fn selected_interval(&self) -> (minutes: u64)
        ensures
            minutes == self@.selected_interval,
    {
        self.selected_interval
    }

    /// The message on the screen.
    pub fn message(&self) -> (message: &Option<String>)
        ensures
            match *message {
                Some(text) => self@.message == Some(text@),
                None => self@.message is None,
            },
    {
        &self.message
    }
}

/// Saving and loading again selects what was selected: the window that is
/// opened on the settings that a save has written shows the same interval and
/// the same theme.
pub proof fn lemma_saved_selection_is_restored(state: SettingsView)
    ensures
        Theme::named(state.pending().theme) == state.current_theme,
        state.pending().daemon_interval_minutes == state.selected_interval,
{
    crate::models::lemma_theme_name_round_trip(state.current_theme);
}

} // verus!
