use resym::policy::{
    is_valid_font_size, AccessSpecifierReconstructionFlavor, PrimitiveReconstructionFlavor,
    ResymAppSettings, SettingsOption,
};
use resym::settings::{
    changed_settings, tab_of_option, SettingsComponent, SettingsEvent, SettingsTab,
};

fn sample_settings() -> ResymAppSettings {
    ResymAppSettings {
        use_light_theme: false,
        font_size: 14,
        search_case_insensitive: true,
        search_use_regex: false,
        enable_syntax_hightlighting: true,
        integers_as_hexadecimal: true,
        primitive_types_flavor: PrimitiveReconstructionFlavor::Portable,
        print_header: true,
        reconstruct_dependencies: true,
        print_access_specifiers: AccessSpecifierReconstructionFlavor::Always,
        ignore_std_types: true,
        print_line_numbers: false,
        print_size_info: true,
        print_offset_info: true,
        print_brackets_new_line: false,
    }
}

#[test]
fn new_window_is_closed_on_general_tab() {
    let component = SettingsComponent::new(sample_settings());
    assert!(!component.is_open());
    assert_eq!(component.tab(), SettingsTab::General);
    assert_eq!(component.app_settings, sample_settings());
    assert_eq!(component.settings(), sample_settings());
}

#[test]
fn open_only_opens_the_window() {
    let mut component = SettingsComponent::new(sample_settings());
    component.open();
    assert!(component.is_open());
    assert_eq!(component.tab(), SettingsTab::General);
    assert_eq!(component.app_settings, sample_settings());
    component.open();
    assert!(component.is_open());
}

#[test]
fn closed_window_takes_no_event() {
    let mut component = SettingsComponent::new(sample_settings());
    let events = [
        SettingsEvent::WindowClosed,
        SettingsEvent::TabSelected(SettingsTab::Formatting),
        SettingsEvent::ThemeSelected(true),
        SettingsEvent::FontSizeSelected(10),
        SettingsEvent::OptionToggled(SettingsOption::PrintHeader),
        SettingsEvent::PrimitiveFlavorSelected(PrimitiveReconstructionFlavor::Raw),
        SettingsEvent::AccessSpecifiersSelected(AccessSpecifierReconstructionFlavor::Disabled),
    ];
    for event in events {
        assert!(!component.accepts(event));
        component.update(event);
        assert!(!component.is_open());
        assert_eq!(component.tab(), SettingsTab::General);
        assert_eq!(component.app_settings, sample_settings());
    }
}

#[test]
fn general_tab_events_change_their_setting() {
    let mut component = SettingsComponent::new(sample_settings());
    component.open();
    component.update(SettingsEvent::ThemeSelected(true));
    component.update(SettingsEvent::FontSizeSelected(20));
    component.update(SettingsEvent::OptionToggled(SettingsOption::SearchUseRegex));
    component.update(SettingsEvent::OptionToggled(SettingsOption::IgnoreStdTypes));
    let mut expected = sample_settings();
    expected.use_light_theme = true;
    expected.font_size = 20;
    expected.search_use_regex = true;
    expected.ignore_std_types = false;
    assert_eq!(component.app_settings, expected);
    assert!(component.is_open());
}

#[test]
fn font_size_off_the_list_is_ignored() {
    let mut component = SettingsComponent::new(sample_settings());
    component.open();
    for size in [0u16, 7, 21, 1000] {
        assert!(!component.accepts(SettingsEvent::FontSizeSelected(size)));
        component.update(SettingsEvent::FontSizeSelected(size));
        assert_eq!(component.app_settings.font_size, 14);
    }
    component.update(SettingsEvent::FontSizeSelected(8));
    assert_eq!(component.app_settings.font_size, 8);
}

#[test]
fn controls_of_the_hidden_tab_are_ignored() {
    let mut component = SettingsComponent::new(sample_settings());
    component.open();
    component.update(SettingsEvent::OptionToggled(SettingsOption::IntegersAsHexadecimal));
    component.update(SettingsEvent::PrimitiveFlavorSelected(PrimitiveReconstructionFlavor::Msvc));
    assert_eq!(component.app_settings, sample_settings());

    component.update(SettingsEvent::TabSelected(SettingsTab::Formatting));
    assert_eq!(component.tab(), SettingsTab::Formatting);
    component.update(SettingsEvent::ThemeSelected(true));
    component.update(SettingsEvent::OptionToggled(SettingsOption::PrintHeader));
    assert_eq!(component.app_settings, sample_settings());

    component.update(SettingsEvent::OptionToggled(SettingsOption::IntegersAsHexadecimal));
    component.update(SettingsEvent::PrimitiveFlavorSelected(PrimitiveReconstructionFlavor::Msvc));
    component.update(SettingsEvent::AccessSpecifiersSelected(
        AccessSpecifierReconstructionFlavor::Automatic,
    ));
    let mut expected = sample_settings();
    expected.integers_as_hexadecimal = false;
    expected.primitive_types_flavor = PrimitiveReconstructionFlavor::Msvc;
    expected.print_access_specifiers = AccessSpecifierReconstructionFlavor::Automatic;
    assert_eq!(component.app_settings, expected);
}

#[test]
fn closing_keeps_tab_and_settings() {
    let mut component = SettingsComponent::new(sample_settings());
    component.open();
    component.update(SettingsEvent::TabSelected(SettingsTab::Formatting));
    component.update(SettingsEvent::OptionToggled(SettingsOption::PrintSizeInfo));
    component.update(SettingsEvent::WindowClosed);
    assert!(!component.is_open());
    assert_eq!(component.tab(), SettingsTab::Formatting);
    assert!(!component.app_settings.print_size_info);
}

#[test]
fn toggling_twice_restores_the_settings() {
    let options = [
        SettingsOption::SearchCaseInsensitive,
        SettingsOption::SearchUseRegex,
        SettingsOption::EnableSyntaxHighlighting,
        SettingsOption::PrintHeader,
        SettingsOption::ReconstructDependencies,
        SettingsOption::IgnoreStdTypes,
        SettingsOption::PrintLineNumbers,
        SettingsOption::PrintSizeInfo,
        SettingsOption::PrintOffsetInfo,
        SettingsOption::PrintBracketsNewLine,
        SettingsOption::IntegersAsHexadecimal,
    ];
    for option in options {
        let start = sample_settings();
        let once = start.updated(option, !start.option(option));
        assert_ne!(once, start);
        assert_eq!(once.option(option), !start.option(option));
        let twice = once.updated(option, !once.option(option));
        assert_eq!(twice, start);
    }
}

#[test]
fn policy_mirrors_the_settings() {
    let policy = sample_settings().formatting_policy();
    assert_eq!(policy.primitives_flavor, PrimitiveReconstructionFlavor::Portable);
    assert_eq!(policy.print_access_specifiers, AccessSpecifierReconstructionFlavor::Always);
    assert!(policy.reconstruct_dependencies);
    assert!(policy.integers_as_hexadecimal);
    assert!(policy.print_size_info);
    assert!(policy.print_offset_info);
    assert!(!policy.print_brackets_new_line);
    assert!(policy.ignore_std_types);
}

#[test]
fn font_sizes_on_offer() {
    assert!(!is_valid_font_size(7));
    assert!(is_valid_font_size(8));
    assert!(is_valid_font_size(14));
    assert!(is_valid_font_size(20));
    assert!(!is_valid_font_size(21));
}

#[test]
fn set_option_changes_one_option() {
    let mut settings = sample_settings();
    settings.set_option(SettingsOption::PrintLineNumbers, true);
    let mut expected = sample_settings();
    expected.print_line_numbers = true;
    assert_eq!(settings, expected);
    settings.set_option(SettingsOption::PrintLineNumbers, true);
    assert_eq!(settings, expected);
    settings.set_option(SettingsOption::PrintLineNumbers, false);
    assert_eq!(settings, sample_settings());
}

#[test]
fn options_are_shown_on_their_tab() {
    assert_eq!(tab_of_option(SettingsOption::SearchCaseInsensitive), SettingsTab::General);
    assert_eq!(tab_of_option(SettingsOption::SearchUseRegex), SettingsTab::General);
    assert_eq!(tab_of_option(SettingsOption::EnableSyntaxHighlighting), SettingsTab::General);
    assert_eq!(tab_of_option(SettingsOption::PrintHeader), SettingsTab::General);
    assert_eq!(tab_of_option(SettingsOption::ReconstructDependencies), SettingsTab::General);
    assert_eq!(tab_of_option(SettingsOption::IgnoreStdTypes), SettingsTab::General);
    assert_eq!(tab_of_option(SettingsOption::PrintLineNumbers), SettingsTab::Formatting);
    assert_eq!(tab_of_option(SettingsOption::PrintSizeInfo), SettingsTab::Formatting);
    assert_eq!(tab_of_option(SettingsOption::PrintOffsetInfo), SettingsTab::Formatting);
    assert_eq!(tab_of_option(SettingsOption::PrintBracketsNewLine), SettingsTab::Formatting);
    assert_eq!(tab_of_option(SettingsOption::IntegersAsHexadecimal), SettingsTab::Formatting);
}

#[test]
fn events_of_the_frame_leave_the_settings() {
    let settings = sample_settings();
    assert_eq!(changed_settings(settings, SettingsEvent::WindowClosed), settings);
    assert_eq!(
        changed_settings(settings, SettingsEvent::TabSelected(SettingsTab::Formatting)),
        settings
    );
    let changed = changed_settings(settings, SettingsEvent::FontSizeSelected(9));
    assert_eq!(changed.font_size, 9);
    let changed = changed_settings(settings, SettingsEvent::OptionToggled(SettingsOption::PrintHeader));
    assert!(!changed.print_header);
}
