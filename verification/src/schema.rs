//! The fixed schema: which settings are known, what each accepts, and what
//! each holds when a table is created.

use vstd::prelude::*;
use vstd::string::*;
use crate::key::SettingId;
use crate::text::str_eq;
use crate::value::{SettingValue, ValueView};

verus! {

pub const APPEARANCE: &'static str = "org.freedesktop.appearance";

pub const INTERFACE: &'static str = "org.gnome.desktop.interface";

pub const PRIVACY: &'static str = "org.gnome.desktop.privacy";

pub const COLOR_SCHEME: &'static str = "color-scheme";

pub const ACCENT_COLOR: &'static str = "accent-color";

pub const CONTRAST: &'static str = "contrast";

pub const GTK_THEME: &'static str = "gtk-theme";

pub const ICON_THEME: &'static str = "icon-theme";

pub const CURSOR_THEME: &'static str = "cursor-theme";

pub const FONT_NAME: &'static str = "font-name";

pub const MONOSPACE_FONT_NAME: &'static str = "monospace-font-name";

pub const CLOCK_FORMAT: &'static str = "clock-format";

pub const REMEMBER_RECENT_FILES: &'static str = "remember-recent-files";

pub const RECENT_FILES_MAX_AGE: &'static str = "recent-files-max-age";

/// What a known setting accepts.
#[derive(Debug, Clone, Copy, PartialEq, Eq, Structural)]
pub enum Rule {
    /// An unsigned 32-bit integer from 0 to 2.
    ColorScheme,
    /// Three double-precision numbers.
    AccentColor,
    /// An unsigned 32-bit integer, 0 or 1.
    Contrast,
    /// Any text.
    Text,
    /// Any text. The two clock formats are named in the reason given on
    /// rejection, but the text itself is not restricted to them.
    ClockFormat,
    /// A boolean.
    Flag,
    /// A signed 32-bit integer.
    MaxAge,
}

/// The rule of the setting `key` of `namespace`, if the schema knows it.
pub open spec fn rule_of(namespace: Seq<char>, key: Seq<char>) -> Option<Rule> {
    if namespace == APPEARANCE@ {
        if key == COLOR_SCHEME@ {
            Some(Rule::ColorScheme)
        } else if key == ACCENT_COLOR@ {
            Some(Rule::AccentColor)
        } else if key == CONTRAST@ {
            Some(Rule::Contrast)
        } else {
            None
        }
    } else if namespace == INTERFACE@ {
        if key == GTK_THEME@ || key == ICON_THEME@ || key == CURSOR_THEME@ || key == FONT_NAME@
            || key == MONOSPACE_FONT_NAME@ {
            Some(Rule::Text)
        } else if key == CLOCK_FORMAT@ {
            Some(Rule::ClockFormat)
        } else {
            None
        }
    } else if namespace == PRIVACY@ {
        if key == REMEMBER_RECENT_FILES@ {
            Some(Rule::Flag)
        } else if key == RECENT_FILES_MAX_AGE@ {
            Some(Rule::MaxAge)
        } else {
            None
        }
    } else {
        None
    }
}

/// Whether a write of `value` to the setting `key` of `namespace` is
/// accepted: a known setting takes what its rule admits, any other setting
/// takes every value.
pub open spec fn valid_setting(namespace: Seq<char>, key: Seq<char>, value: ValueView) -> bool {
    match rule_of(namespace, key) {
        Some(rule) => rule.admits(value),
        None => true,
    }
}

/// What a known setting holds in a newly created table.
pub open spec fn default_of(namespace: Seq<char>, key: Seq<char>) -> Option<ValueView> {
    match rule_of(namespace, key) {
        Some(Rule::ColorScheme) => Some(ValueView::U32(0)),
        Some(Rule::AccentColor) => Some(ValueView::F64Triple(0, 0, 0)),
        Some(Rule::Contrast) => Some(ValueView::U32(0)),
        Some(Rule::Text) => Some(
            ValueView::Str(
                if key == FONT_NAME@ {
                    "Cantarell 11"@
                } else if key == MONOSPACE_FONT_NAME@ {
                    "Source Code Pro 10"@
                } else {
                    "Adwaita"@
                },
            ),
        ),
        Some(Rule::ClockFormat) => Some(ValueView::Str("24h"@)),
        Some(Rule::Flag) => Some(ValueView::Bool(true)),
        Some(Rule::MaxAge) => Some(ValueView::I32(30)),
        None => None,
    }
}

/// The table that a newly created store holds: exactly the known settings,
/// each with its default.
pub open spec fn seeded_table() -> Map<SettingId, ValueView> {
    Map::new(
        |id: SettingId| rule_of(id.0, id.1) is Some,
        |id: SettingId| default_of(id.0, id.1)->0,
    )
}

/// What holds of every table that a store ever has: each known setting is
/// present, and each setting that is present holds a value that its rule
/// admits.
pub open spec fn schema_holds(table: Map<SettingId, ValueView>) -> bool {
    forall|id: SettingId|
        {
            &&& rule_of(id.0, id.1) is Some ==> #[trigger] table.dom().contains(id)
            &&& table.dom().contains(id) ==> valid_setting(id.0, id.1, table[id])
        }
}

/// The names of the schema are pairwise different texts.
pub proof fn lemma_names_differ()
    ensures
        APPEARANCE@ != INTERFACE@,
        APPEARANCE@ != PRIVACY@,
        INTERFACE@ != PRIVACY@,
        COLOR_SCHEME@ != ACCENT_COLOR@,
        COLOR_SCHEME@ != CONTRAST@,
        ACCENT_COLOR@ != CONTRAST@,
        GTK_THEME@ != ICON_THEME@,
        GTK_THEME@ != CURSOR_THEME@,
        GTK_THEME@ != FONT_NAME@,
        GTK_THEME@ != MONOSPACE_FONT_NAME@,
        GTK_THEME@ != CLOCK_FORMAT@,
        ICON_THEME@ != CURSOR_THEME@,
        ICON_THEME@ != FONT_NAME@,
        ICON_THEME@ != MONOSPACE_FONT_NAME@,
        ICON_THEME@ != CLOCK_FORMAT@,
        CURSOR_THEME@ != FONT_NAME@,
        CURSOR_THEME@ != MONOSPACE_FONT_NAME@,
        CURSOR_THEME@ != CLOCK_FORMAT@,
        FONT_NAME@ != MONOSPACE_FONT_NAME@,
        FONT_NAME@ != CLOCK_FORMAT@,
        MONOSPACE_FONT_NAME@ != CLOCK_FORMAT@,
        REMEMBER_RECENT_FILES@ != RECENT_FILES_MAX_AGE@,
{
    reveal_strlit("org.freedesktop.appearance");
    reveal_strlit("org.gnome.desktop.interface");
    reveal_strlit("org.gnome.desktop.privacy");
    reveal_strlit("color-scheme");
    reveal_strlit("accent-color");
    reveal_strlit("contrast");
    reveal_strlit("gtk-theme");
    reveal_strlit("icon-theme");
    reveal_strlit("cursor-theme");
    reveal_strlit("font-name");
    reveal_strlit("monospace-font-name");
    reveal_strlit("clock-format");
    reveal_strlit("remember-recent-files");
    reveal_strlit("recent-files-max-age");
    assert(APPEARANCE@.len() == 26 && INTERFACE@.len() == 27 && PRIVACY@.len() == 25);
    assert(COLOR_SCHEME@.len() == 12 && CONTRAST@.len() == 8);
    assert(GTK_THEME@.len() == 9 && ICON_THEME@.len() == 10 && CURSOR_THEME@.len() == 12);
    assert(FONT_NAME@.len() == 9 && MONOSPACE_FONT_NAME@.len() == 19);
    assert(CLOCK_FORMAT@.len() == 12);
    assert(REMEMBER_RECENT_FILES@.len() == 21 && RECENT_FILES_MAX_AGE@.len() == 20);
    assert(COLOR_SCHEME@[0] != ACCENT_COLOR@[0]);
    assert(GTK_THEME@[0] != FONT_NAME@[0]);
    assert(CURSOR_THEME@[1] != CLOCK_FORMAT@[1]);
}

impl Rule {
    /// Whether the rule admits `value`.
    pub open spec fn admits(self, value: ValueView) -> bool {
        match self {
            Rule::ColorScheme => value matches ValueView::U32(n) && n <= 2,
            Rule::AccentColor => value is F64Triple,
            Rule::Contrast => value matches ValueView::U32(n) && n <= 1,
            Rule::Text => value is Str,
            Rule::ClockFormat => value is Str,
            Rule::Flag => value is Bool,
            Rule::MaxAge => value is I32,
        }
    }

    /// What the rule asks for, in words.
    pub open spec fn expected(self) -> Seq<char> {
        match self {
            Rule::ColorScheme => "u32 (0-2)"@,
            Rule::AccentColor => "(f64, f64, f64) tuple"@,
            Rule::Contrast => "u32 (0-1)"@,
            Rule::Text => "a string"@,
            Rule::ClockFormat => "'12h' or '24h'"@,
            Rule::Flag => "a boolean"@,
            Rule::MaxAge => "an i32"@,
        }
    }

    /// Whether the rule admits `value`.
    pub fn accepts(&self, value: &SettingValue) -> (yes: bool)
        ensures
            yes == self.admits(value@),
    {
        match self {
            Rule::ColorScheme => match value {
                SettingValue::U32(n) => *n <= 2,
                _ => false,
            },
            Rule::AccentColor => match value {
                SettingValue::F64Triple(_, _, _) => true,
                _ => false,
            },
            Rule::Contrast => match value {
                SettingValue::U32(n) => *n <= 1,
                _ => false,
            },
            Rule::Text | Rule::ClockFormat => match value {
                SettingValue::Str(_) => true,
                _ => false,
            },
            Rule::Flag => match value {
                SettingValue::Bool(_) => true,
                _ => false,
            },
            Rule::MaxAge => match value {
                SettingValue::I32(_) => true,
                _ => false,
            },
        }
    }

    /// What the rule asks for, in words.
    pub fn describe(&self) -> (text: String)
        ensures
            text@ == self.expected(),
    {
        match self {
            Rule::ColorScheme => "u32 (0-2)".to_owned(),
            Rule::AccentColor => "(f64, f64, f64) tuple".to_owned(),
            Rule::Contrast => "u32 (0-1)".to_owned(),
            Rule::Text => "a string".to_owned(),
            Rule::ClockFormat => "'12h' or '24h'".to_owned(),
            Rule::Flag => "a boolean".to_owned(),
            Rule::MaxAge => "an i32".to_owned(),
        }
    }
}

/// The rule of the setting `key` of `namespace`, if the schema knows it.
pub fn rule_for(namespace: &str, key: &str) -> (rule: Option<Rule>)
    ensures
        rule == rule_of(namespace@, key@),
{
    if str_eq(namespace, APPEARANCE) {
        if str_eq(key, COLOR_SCHEME) {
            Some(Rule::ColorScheme)
        } else if str_eq(key, ACCENT_COLOR) {
            Some(Rule::AccentColor)
        } else if str_eq(key, CONTRAST) {
            Some(Rule::Contrast)
        } else {
            None
        }
    } else if str_eq(namespace, INTERFACE) {
        if str_eq(key, GTK_THEME) || str_eq(key, ICON_THEME) || str_eq(key, CURSOR_THEME) || str_eq(
            key,
            FONT_NAME,
        ) || str_eq(key, MONOSPACE_FONT_NAME) {
            Some(Rule::Text)
        } else if str_eq(key, CLOCK_FORMAT) {
            Some(Rule::ClockFormat)
        } else {
            None
        }
    } else if str_eq(namespace, PRIVACY) {
        if str_eq(key, REMEMBER_RECENT_FILES) {
            Some(Rule::Flag)
        } else if str_eq(key, RECENT_FILES_MAX_AGE) {
            Some(Rule::MaxAge)
        } else {
            None
        }
    } else {
        None
    }
}

/// Why a write was rejected.
#[derive(Debug)]
pub struct ValidationError {
    /// The namespace of the setting that was written to.
    pub namespace: String,
    /// The key of the setting that was written to.
    pub key: String,
    /// What the setting accepts, in words.
    pub expected: String,
}

impl ValidationError {
    /// The text of a rejection: the key, the words " must be ", and what was
    /// expected.
    pub open spec fn message_of(key: Seq<char>, expected: Seq<char>) -> Seq<char> {
        key + " must be "@ + expected
    }

    /// The reason for the rejection, as one sentence.
    pub fn message(&self) -> (text: String)
        ensures
            text@ == Self::message_of(self.key@, self.expected@),
    {
        let mut text = self.key.clone();
        text.append(" must be ");
        text.append(self.expected.as_str());
        text
    }
}

} // verus!
