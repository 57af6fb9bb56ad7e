//! The formatting policy: a passive configuration record that controls how a
//! declaration is printed, and the persisted settings record it is taken from.

use vstd::prelude::*;

verus! {

/// Smallest font size the settings offer.
pub const MIN_FONT_SIZE: u16 = 8;

/// Largest font size the settings offer.
pub const MAX_FONT_SIZE: u16 = 20;

/// How primitive types are spelled in a reconstructed declaration.
#[derive(Clone, Copy, Debug, PartialEq, Eq, Structural)]
pub enum PrimitiveReconstructionFlavor {
    /// Fixed-width aliases that read the same with every compiler.
    Portable,
    /// The platform's typedef spellings.
    Microsoft,
    /// The primitive kind's own name, with no alias put in its place.
    Raw,
    /// The compiler's native keywords.
    Msvc,
}

/// When an access-specifier keyword is printed in front of a member.
#[derive(Clone, Copy, Debug, PartialEq, Eq, Structural)]
pub enum AccessSpecifierReconstructionFlavor {
    /// Only where the access differs from that of the member before.
    Automatic,
    /// Never.
    Disabled,
    /// In front of every member.
    Always,
}

/// The boolean options of the settings record.
#[derive(Clone, Copy, Debug, PartialEq, Eq, Structural)]
pub enum SettingsOption {
    SearchCaseInsensitive,
    SearchUseRegex,
    EnableSyntaxHighlighting,
    PrintHeader,
    ReconstructDependencies,
    IgnoreStdTypes,
    PrintLineNumbers,
    PrintSizeInfo,
    PrintOffsetInfo,
    PrintBracketsNewLine,
    IntegersAsHexadecimal,
}

/// What a reconstruction request reads besides the root type's name.
#[derive(Clone, Copy, Debug, PartialEq, Eq, Structural)]
pub struct FormattingPolicy {
    pub primitives_flavor: PrimitiveReconstructionFlavor,
    pub print_access_specifiers: AccessSpecifierReconstructionFlavor,
    pub reconstruct_dependencies: bool,
    pub integers_as_hexadecimal: bool,
    pub print_size_info: bool,
    pub print_offset_info: bool,
    pub print_brackets_new_line: bool,
    pub ignore_std_types: bool,
}

/// The persisted settings: the formatting options and the options that only
/// concern presentation.
#[derive(Clone, Copy, Debug, PartialEq, Eq, Structural)]
pub struct ResymAppSettings {
    pub use_light_theme: bool,
    pub font_size: u16,
    pub search_case_insensitive: bool,
    pub search_use_regex: bool,
    pub enable_syntax_hightlighting: bool,
    pub integers_as_hexadecimal: bool,
    pub primitive_types_flavor: PrimitiveReconstructionFlavor,
    pub print_header: bool,
    pub reconstruct_dependencies: bool,
    pub print_access_specifiers: AccessSpecifierReconstructionFlavor,
    pub ignore_std_types: bool,
    pub print_line_numbers: bool,
    pub print_size_info: bool,
    pub print_offset_info: bool,
    pub print_brackets_new_line: bool,
}

/// Whether `size` is one of the font sizes on offer.
pub open spec fn valid_font_size(size: u16) -> bool {
    MIN_FONT_SIZE <= size <= MAX_FONT_SIZE
}

/// Tells whether `size` is one of the font sizes on offer.
pub fn is_valid_font_size(size: u16) -> (valid: bool)
    ensures
        valid == valid_font_size(size),
{
    MIN_FONT_SIZE <= size && size <= MAX_FONT_SIZE
}

impl ResymAppSettings {
    /// The value of a boolean option.
    pub open spec fn option_value(self, option: SettingsOption) -> bool {
        match option {
            SettingsOption::SearchCaseInsensitive => self.search_case_insensitive,
            SettingsOption::SearchUseRegex => self.search_use_regex,
            SettingsOption::EnableSyntaxHighlighting => self.enable_syntax_hightlighting,
            SettingsOption::PrintHeader => self.print_header,
            SettingsOption::ReconstructDependencies => self.reconstruct_dependencies,
            SettingsOption::IgnoreStdTypes => self.ignore_std_types,
            SettingsOption::PrintLineNumbers => self.print_line_numbers,
            SettingsOption::PrintSizeInfo => self.print_size_info,
            SettingsOption::PrintOffsetInfo => self.print_offset_info,
            SettingsOption::PrintBracketsNewLine => self.print_brackets_new_line,
            SettingsOption::IntegersAsHexadecimal => self.integers_as_hexadecimal,
        }
    }

    /// The settings with one boolean option set to `value` and the rest kept.
    pub open spec fn with_option_value(self, option: SettingsOption, value: bool) -> Self {
        ResymAppSettings {
            search_case_insensitive: if option == SettingsOption::SearchCaseInsensitive {
                value
            } else {
                self.search_case_insensitive
            },
            search_use_regex: if option == SettingsOption::SearchUseRegex {
                value
            } else {
                self.search_use_regex
            },
            enable_syntax_hightlighting: if option == SettingsOption::EnableSyntaxHighlighting {
                value
            } else {
                self.enable_syntax_hightlighting
            },
            print_header: if option == SettingsOption::PrintHeader {
                value
            } else {
                self.print_header
            },
            reconstruct_dependencies: if option == SettingsOption::ReconstructDependencies {
                value
            } else {
                self.reconstruct_dependencies
            },
            ignore_std_types: if option == SettingsOption::IgnoreStdTypes {
                value
            } else {
                self.ignore_std_types
            },
            print_line_numbers: if option == SettingsOption::PrintLineNumbers {
                value
            } else {
                self.print_line_numbers
            },
            print_size_info: if option == SettingsOption::PrintSizeInfo {
                value
            } else {
                self.print_size_info
            },
            print_offset_info: if option == SettingsOption::PrintOffsetInfo {
                value
            } else {
                self.print_offset_info
            },
            print_brackets_new_line: if option == SettingsOption::PrintBracketsNewLine {
                value
            } else {
                self.print_brackets_new_line
            },
            integers_as_hexadecimal: if option == SettingsOption::IntegersAsHexadecimal {
                value
            } else {
                self.integers_as_hexadecimal
            },
            ..self
        }
    }

    /// The formatting policy that these settings stand for: each formatting
    /// option carried over under its own name.
    pub open spec fn policy(self) -> FormattingPolicy {
        FormattingPolicy {
            primitives_flavor: self.primitive_types_flavor,
            print_access_specifiers: self.print_access_specifiers,
            reconstruct_dependencies: self.reconstruct_dependencies,
            integers_as_hexadecimal: self.integers_as_hexadecimal,
            print_size_info: self.print_size_info,
            print_offset_info: self.print_offset_info,
            print_brackets_new_line: self.print_brackets_new_line,
            ignore_std_types: self.ignore_std_types,
        }
    }

    /// Reads a boolean option.
    pub fn option(&self, option: SettingsOption) -> (value: bool)
        ensures
            value == self.option_value(option),
    {
        match option {
            SettingsOption::SearchCaseInsensitive => self.search_case_insensitive,
            SettingsOption::SearchUseRegex => self.search_use_regex,
            SettingsOption::EnableSyntaxHighlighting => self.enable_syntax_hightlighting,
            SettingsOption::PrintHeader => self.print_header,
            SettingsOption::ReconstructDependencies => self.reconstruct_dependencies,
            SettingsOption::IgnoreStdTypes => self.ignore_std_types,
            SettingsOption::PrintLineNumbers => self.print_line_numbers,
            SettingsOption::PrintSizeInfo => self.print_size_info,
            SettingsOption::PrintOffsetInfo => self.print_offset_info,
            SettingsOption::PrintBracketsNewLine => self.print_brackets_new_line,
            SettingsOption::IntegersAsHexadecimal => self.integers_as_hexadecimal,
        }
    }

    /// Sets a boolean option and leaves every other setting as it was.
    pub fn set_option(&mut self, option: SettingsOption, value: bool)
        ensures
            *final(self) == old(self).with_option_value(option, value),
    {
        let current = *self;
        *self = current.updated(option, value);
    }

    /// These settings with one boolean option set to `value`.
    pub fn updated(self, option: SettingsOption, value: bool) -> (settings: Self)
        ensures
            settings == self.with_option_value(option, value),
    {
        let mut settings = self;
        match option {
            SettingsOption::SearchCaseInsensitive => {
                settings.search_case_insensitive = value;
            },
            SettingsOption::SearchUseRegex => {
                settings.search_use_regex = value;
            },
            SettingsOption::EnableSyntaxHighlighting => {
                settings.enable_syntax_hightlighting = value;
            },
            SettingsOption::PrintHeader => {
                settings.print_header = value;
            },
            SettingsOption::ReconstructDependencies => {
                settings.reconstruct_dependencies = value;
            },
            SettingsOption::IgnoreStdTypes => {
                settings.ignore_std_types = value;
            },
            SettingsOption::PrintLineNumbers => {
                settings.print_line_numbers = value;
            },
            SettingsOption::PrintSizeInfo => {
                settings.print_size_info = value;
            },
            SettingsOption::PrintOffsetInfo => {
                settings.print_offset_info = value;
            },
            SettingsOption::PrintBracketsNewLine => {
                settings.print_brackets_new_line = value;
            },
            SettingsOption::IntegersAsHexadecimal => {
                settings.integers_as_hexadecimal = value;
            },
        }
        settings
    }

    /// The formatting policy for a reconstruction request made under these
    /// settings.
    pub fn formatting_policy(&self) -> (policy: FormattingPolicy)
        ensures
            policy == self.policy(),
    {
        FormattingPolicy {
            primitives_flavor: self.primitive_types_flavor,
            print_access_specifiers: self.print_access_specifiers,
            reconstruct_dependencies: self.reconstruct_dependencies,
            integers_as_hexadecimal: self.integers_as_hexadecimal,
            print_size_info: self.print_size_info,
            print_offset_info: self.print_offset_info,
            print_brackets_new_line: self.print_brackets_new_line,
            ignore_std_types: self.ignore_std_types,
        }
    }
}

/// Setting an option and reading it back gives the value that was set, and
/// every other option reads as before.
pub proof fn lemma_set_then_get(
    settings: ResymAppSettings,
    option: SettingsOption,
    other: SettingsOption,
    value: bool,
)
    ensures
        settings.with_option_value(option, value).option_value(option) == value,
        other != option ==> settings.with_option_value(option, value).option_value(other)
            == settings.option_value(other),
{
}

/// Flipping an option twice gives back the settings one started from.
pub proof fn lemma_toggle_twice(settings: ResymAppSettings, option: SettingsOption)
    ensures
        settings.with_option_value(option, !settings.option_value(option)).with_option_value(
            option,
            settings.option_value(option),
        ) == settings,
{
}

} // verus!
