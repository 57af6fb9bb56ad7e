//! The settings window as a state machine: what each interaction with the
//! window does to the settings, with the drawing left to the caller.

use crate::policy::{
    is_valid_font_size, valid_font_size, AccessSpecifierReconstructionFlavor,
    PrimitiveReconstructionFlavor, ResymAppSettings, SettingsOption,
};
use vstd::prelude::*;

verus! {

/// Tabs available for the settings window.
#[derive(Clone, Copy, Debug, PartialEq, Eq, Structural)]
pub enum SettingsTab {
    General,
    Formatting,
}

/// One interaction with the settings window.
#[derive(Clone, Copy, Debug, PartialEq, Eq, Structural)]
pub enum SettingsEvent {
    /// The window's close button was pressed.
    WindowClosed,
    /// A tab was picked in the tab bar.
    TabSelected(SettingsTab),
    /// The light (`true`) or the dark (`false`) theme was picked.
    ThemeSelected(bool),
    /// A font size was picked from the list.
    FontSizeSelected(u16),
    /// A checkbox was clicked.
    OptionToggled(SettingsOption),
    /// A primitive types style was picked from the list.
    PrimitiveFlavorSelected(PrimitiveReconstructionFlavor),
    /// An access specifier style was picked from the list.
    AccessSpecifiersSelected(AccessSpecifierReconstructionFlavor),
}

/// What the settings window holds, as a plain value.
pub struct SettingsState {
    pub tab: SettingsTab,
    pub window_open: bool,
    pub app_settings: ResymAppSettings,
}

/// The tab on which an option's checkbox is shown.
pub open spec fn option_tab(option: SettingsOption) -> SettingsTab {
    match option {
        SettingsOption::SearchCaseInsensitive
        | SettingsOption::SearchUseRegex
        | SettingsOption::EnableSyntaxHighlighting
        | SettingsOption::PrintHeader
        | SettingsOption::ReconstructDependencies
        | SettingsOption::IgnoreStdTypes => SettingsTab::General,
        SettingsOption::PrintLineNumbers
        | SettingsOption::PrintSizeInfo
        | SettingsOption::PrintOffsetInfo
        | SettingsOption::PrintBracketsNewLine
        | SettingsOption::IntegersAsHexadecimal => SettingsTab::Formatting,
    }
}

/// The tab whose controls give rise to `event`; `None` for the window's own
/// frame and the tab bar, which are there on every tab.
pub open spec fn event_tab(event: SettingsEvent) -> Option<SettingsTab> {
    match event {
        SettingsEvent::WindowClosed | SettingsEvent::TabSelected(_) => None,
        SettingsEvent::ThemeSelected(_) | SettingsEvent::FontSizeSelected(_) => Some(
            SettingsTab::General,
        ),
        SettingsEvent::OptionToggled(option) => Some(option_tab(option)),
        SettingsEvent::PrimitiveFlavorSelected(_)
        | SettingsEvent::AccessSpecifiersSelected(_) => Some(SettingsTab::Formatting),
    }
}

/// Whether the window in `state` can give rise to `event`: it is open, the
/// control is on the tab that is shown, and a font size is one on offer.
pub open spec fn event_enabled(state: SettingsState, event: SettingsEvent) -> bool {
    &&& state.window_open
    &&& match event_tab(event) {
        None => true,
        Some(tab) => tab == state.tab,
    }
    &&& match event {
        SettingsEvent::FontSizeSelected(size) => valid_font_size(size),
        _ => true,
    }
}

/// The settings after `event` has been taken. Events of the window's frame
/// and of the tab bar leave them as they are.
pub open spec fn settings_after(settings: ResymAppSettings, event: SettingsEvent)
    -> ResymAppSettings {
    match event {
        SettingsEvent::WindowClosed | SettingsEvent::TabSelected(_) => settings,
        SettingsEvent::ThemeSelected(light) => ResymAppSettings {
            use_light_theme: light,
            ..settings
        },
        SettingsEvent::FontSizeSelected(size) => ResymAppSettings { font_size: size, ..settings },
        SettingsEvent::OptionToggled(option) => settings.with_option_value(
            option,
            !settings.option_value(option),
        ),
        SettingsEvent::PrimitiveFlavorSelected(flavor) => ResymAppSettings {
            primitive_types_flavor: flavor,
            ..settings
        },
        SettingsEvent::AccessSpecifiersSelected(flavor) => ResymAppSettings {
            print_access_specifiers: flavor,
            ..settings
        },
    }
}

/// The state after `event`. An event that the window cannot give rise to
/// changes nothing.
pub open spec fn apply_event(state: SettingsState, event: SettingsEvent) -> SettingsState {
    if !event_enabled(state, event) {
        state
    } else {
        SettingsState {
            tab: match event {
                SettingsEvent::TabSelected(tab) => tab,
                _ => state.tab,
            },
            window_open: event != SettingsEvent::WindowClosed,
            app_settings: settings_after(state.app_settings, event),
        }
    }
}

/// Takes `event` and gives the settings that result from it.
pub fn changed_settings(settings: ResymAppSettings, event: SettingsEvent) -> (changed:
    ResymAppSettings)
    ensures
        changed == settings_after(settings, event),
{
    let mut changed = settings;
    match event {
        SettingsEvent::WindowClosed => {},
        SettingsEvent::TabSelected(_) => {},
        SettingsEvent::ThemeSelected(light) => {
            changed.use_light_theme = light;
        },
        SettingsEvent::FontSizeSelected(size) => {
            changed.font_size = size;
        },
        SettingsEvent::OptionToggled(option) => {
            changed = settings.updated(option, !settings.option(option));
        },
        SettingsEvent::PrimitiveFlavorSelected(flavor) => {
            changed.primitive_types_flavor = flavor;
        },
        SettingsEvent::AccessSpecifiersSelected(flavor) => {
            changed.print_access_specifiers = flavor;
        },
    }
    changed
}

/// The settings window: the tab that is shown, whether the window is open,
/// and the settings that it edits.
pub struct SettingsComponent {
    settings_tab: SettingsTab,
    window_open: bool,
    pub app_settings: ResymAppSettings,
}

impl View for SettingsComponent {
    type V = SettingsState;

    closed spec fn view(&self) -> SettingsState {
        SettingsState {
            tab: self.settings_tab,
            window_open: self.window_open,
            app_settings: self.app_settings,
        }
    }
}

impl SettingsComponent {
    /// A closed window on the general tab that edits `app_settings`.
    pub fn new(app_settings: ResymAppSettings) -> (component: Self)
        ensures
            component@ == (SettingsState {
                tab: SettingsTab::General,
                window_open: false,
                app_settings,
            }),
    {
        Self { settings_tab: SettingsTab::General, window_open: false, app_settings }
    }

    /// Opens the window. The tab and the settings stay as they are.
    pub fn open(&mut self)
        ensures
            final(self)@ == (SettingsState { window_open: true, ..old(self)@ }),
    {
        self.window_open = true;
    }

    /// Whether the window is open.
    pub fn is_open(&self) -> (open: bool)
        ensures
            open == self@.window_open,
    {
        self.window_open
    }

    /// The tab that is shown.
    pub fn tab(&self) -> (tab: SettingsTab)
        ensures
            tab == self@.tab,
    {
        self.settings_tab
    }

    /// The settings as they stand.
    pub fn settings(&self) -> (app_settings: ResymAppSettings)
        ensures
            app_settings == self@.app_settings,
    {
        self.app_settings
    }

    /// Tells whether the window, as it stands, can give rise to `event`.
    pub fn accepts(&self, event: SettingsEvent) -> (enabled: bool)
        ensures
            enabled == event_enabled(self@, event),
    {
        if !self.window_open {
            return false;
        }
        match event {
            SettingsEvent::WindowClosed => true,
            SettingsEvent::TabSelected(_) => true,
            SettingsEvent::ThemeSelected(_) => self.settings_tab == SettingsTab::General,
            SettingsEvent::FontSizeSelected(size) => self.settings_tab == SettingsTab::General
                && is_valid_font_size(size),
            SettingsEvent::OptionToggled(option) => self.settings_tab == tab_of_option(option),
            SettingsEvent::PrimitiveFlavorSelected(_) => self.settings_tab
                == SettingsTab::Formatting,
            SettingsEvent::AccessSpecifiersSelected(_) => self.settings_tab
                == SettingsTab::Formatting,
        }
    }

    /// Takes one interaction with the window and changes the state as
    /// `apply_event` says.
    pub fn update(&mut self, event: SettingsEvent)
        ensures
            final(self)@ == apply_event(old(self)@, event),
    {
        if !self.accepts(event) {
            return ;
        }
        match event {
            SettingsEvent::WindowClosed => {
                self.window_open = false;
            },
            SettingsEvent::TabSelected(tab) => {
                self.settings_tab = tab;
            },
            _ => {
                self.app_settings = changed_settings(self.app_settings, event);
            },
        }
    }
}

/// The tab on which an option's checkbox is shown.
pub fn tab_of_option(option: SettingsOption) -> (tab: SettingsTab)
    ensures
        tab == option_tab(option),
{
    match option {
        SettingsOption::SearchCaseInsensitive
        | SettingsOption::SearchUseRegex
        | SettingsOption::EnableSyntaxHighlighting
        | SettingsOption::PrintHeader
        | SettingsOption::ReconstructDependencies
        | SettingsOption::IgnoreStdTypes => SettingsTab::General,
        SettingsOption::PrintLineNumbers
        | SettingsOption::PrintSizeInfo
        | SettingsOption::PrintOffsetInfo
        | SettingsOption::PrintBracketsNewLine
        | SettingsOption::IntegersAsHexadecimal => SettingsTab::Formatting,
    }
}

/// While the window is closed no event changes anything, and no event opens
/// the window.
pub proof fn lemma_closed_window_is_inert(state: SettingsState, event: SettingsEvent)
    ensures
        !state.window_open ==> apply_event(state, event) == state,
        apply_event(state, event).window_open ==> state.window_open,
{
}

/// An event touches the formatting policy only from the tab that shows the
/// formatting options, or through the two output checkboxes of the general tab.
pub proof fn lemma_policy_changes_only_by_policy_controls(
    state: SettingsState,
    event: SettingsEvent,
)
    ensures
        apply_event(state, event).app_settings.policy() != state.app_settings.policy() ==> (
        event matches SettingsEvent::OptionToggled(option) && (option
            == SettingsOption::ReconstructDependencies || option == SettingsOption::IgnoreStdTypes
            || option_tab(option) == SettingsTab::Formatting)) || event_tab(event) == Some(
            SettingsTab::Formatting,
        ),
{
}

} // verus!
