//! Editor settings and their defaults.

use vstd::prelude::*;
use vstd::string::StrSliceExecFns;

verus! {

/// A colour of the terminal: the terminal's own, or one given by its red,
/// green and blue parts.
#[derive(Debug, Clone, Copy, PartialEq, Eq, Structural)]
pub enum Color {
    Reset,
    Rgb { r: u8, g: u8, b: u8 },
}

/// What `u32::from_str_radix` makes of a text: the number that the text
/// writes in digits of the given radix, or `None` where it writes none
/// that fits.
pub uninterp spec fn radix_value(text: Seq<char>, radix: u32) -> Option<u32>;

/// `u32::from_str_radix`, which takes a radix from 2 to 36. Why a text
/// was refused is not handed on.
#[verifier::external_body]
fn parse_radix(text: &str, radix: u32) -> (value: Option<u32>)
    requires
        2 <= radix <= 36,
    ensures
        value == radix_value(text@, radix),
{
    u32::from_str_radix(text, radix).ok()
}

/// The number that a text writes in hexadecimal, if it writes one.
pub open spec fn hex_value(text: Seq<char>) -> Option<u32> {
    radix_value(text, 16)
}

/// The colour that a number stands for: its lowest three bytes are the
/// red, green and blue parts, red highest. No number is no colour.
pub open spec fn color_of(value: Option<u32>) -> Color {
    match value {
        Some(rgb) => Color::Rgb {
            r: ((rgb / 0x1_0000) % 0x100) as u8,
            g: ((rgb / 0x100) % 0x100) as u8,
            b: (rgb % 0x100) as u8,
        },
        None => Color::Reset,
    }
}

/// The colour that a text names: `#` followed by a hexadecimal number
/// names the colour of that number, anything else names none.
pub open spec fn named_color(text: Seq<char>) -> Color {
    if text.len() > 0 && text[0] == '#' {
        color_of(hex_value(text.subrange(1, text.len() as int)))
    } else {
        Color::Reset
    }
}

/// Splits a number into the colour it stands for.
pub fn color_from_hex(value: Option<u32>) -> (color: Color)
    ensures
        color == color_of(value),
{
    match value {
        Some(rgb) => {
            let r = ((rgb >> 16) & 0xFF) as u8;
            let g = ((rgb >> 8) & 0xFF) as u8;
            let b = (rgb & 0xFF) as u8;
            assert((rgb >> 16) & 0xFF == (rgb / 0x1_0000) % 0x100) by (bit_vector);
            assert((rgb >> 8) & 0xFF == (rgb / 0x100) % 0x100) by (bit_vector);
            assert(rgb & 0xFF == rgb % 0x100) by (bit_vector);
            Color::Rgb { r, g, b }
        },
        None => Color::Reset,
    }
}

/// All settings of the editor.
#[derive(Debug)]
pub struct Config {
    pub editor: EditorConfig,
    pub theme: ThemeConfig,
    pub keybindings: KeybindingsConfig,
}

/// How text is edited.
#[derive(Debug)]
pub struct EditorConfig {
    pub tab_size: usize,
    pub auto_indent: bool,
    pub line_numbers: bool,
    pub max_undo: usize,
    pub max_clipboard: usize,
}

/// Colours, each written as `#RRGGBB`.
#[derive(Debug)]
pub struct ThemeConfig {
    pub background: String,
    pub foreground: String,
    pub selection: String,
    pub status_bar_bg: String,
    pub status_bar_fg: String,
    pub line_numbers: String,
}

/// Key chords, each written as `modifier-key`.
#[derive(Debug)]
pub struct KeybindingsConfig {
    pub save: String,
    pub quit: String,
    pub copy: String,
    pub cut: String,
    pub paste: String,
    pub undo: String,
    pub redo: String,
    pub search: String,
    pub replace: String,
}

impl EditorConfig {
    /// The settings are the default ones.
    pub open spec fn is_default(&self) -> bool {
        &&& self.tab_size == 4
        &&& self.auto_indent
        &&& self.line_numbers
        &&& self.max_undo == 100
        &&& self.max_clipboard == 10
    }
}

impl ThemeConfig {
    /// The colours are the default ones.
    pub open spec fn is_default(&self) -> bool {
        &&& self.background@ == "#1E1E1E"@
        &&& self.foreground@ == "#D4D4D4"@
        &&& self.selection@ == "#264F78"@
        &&& self.status_bar_bg@ == "#007ACC"@
        &&& self.status_bar_fg@ == "#FFFFFF"@
        &&& self.line_numbers@ == "#858585"@
    }
}

impl KeybindingsConfig {
    /// The chords are the default ones.
    pub open spec fn is_default(&self) -> bool {
        &&& self.save@ == "ctrl-s"@
        &&& self.quit@ == "ctrl-q"@
        &&& self.copy@ == "ctrl-c"@
        &&& self.cut@ == "ctrl-x"@
        &&& self.paste@ == "alt-v"@
        &&& self.undo@ == "ctrl-z"@
        &&& self.redo@ == "ctrl-y"@
        &&& self.search@ == "ctrl-f"@
        &&& self.replace@ == "ctrl-r"@
    }
}

impl Config {
    /// Every group of settings is the default one.
    pub open spec fn is_default(&self) -> bool {
        &&& self.editor.is_default()
        &&& self.theme.is_default()
        &&& self.keybindings.is_default()
    }

    /// Reads a colour of the theme. What is not `#` followed by a
    /// hexadecimal number reads as the terminal's own colour.
    pub fn parse_color(&self, color_str: &str) -> (color: Color)
        ensures
            color == named_color(color_str@),
    {
        let len = color_str.unicode_len();
        if len > 0 && color_str.get_char(0) == '#' {
            color_from_hex(parse_radix(color_str.substring_char(1, len), 16))
        } else {
            Color::Reset
        }
    }
}

impl Default for EditorConfig {
    fn default() -> (config: EditorConfig)
        ensures
            config.is_default(),
    {
        EditorConfig {
            tab_size: 4,
            auto_indent: true,
            line_numbers: true,
            max_undo: 100,
            max_clipboard: 10,
        }
    }
}

impl Default for ThemeConfig {
    fn default() -> (config: ThemeConfig)
        ensures
            config.is_default(),
    {
        ThemeConfig {
            background: "#1E1E1E".to_string(),
            foreground: "#D4D4D4".to_string(),
            selection: "#264F78".to_string(),
            status_bar_bg: "#007ACC".to_string(),
            status_bar_fg: "#FFFFFF".to_string(),
            line_numbers: "#858585".to_string(),
        }
    }
}

impl Default for KeybindingsConfig {
    fn default() -> (config: KeybindingsConfig)
        ensures
            config.is_default(),
    {
        KeybindingsConfig {
            save: "ctrl-s".to_string(),
            quit: "ctrl-q".to_string(),
            copy: "ctrl-c".to_string(),
            cut: "ctrl-x".to_string(),
            paste: "alt-v".to_string(),
            undo: "ctrl-z".to_string(),
            redo: "ctrl-y".to_string(),
            search: "ctrl-f".to_string(),
            replace: "ctrl-r".to_string(),
        }
    }
}

impl Default for Config {
    fn default() -> (config: Config)
        ensures
            config.is_default(),
    {
        Config {
            editor: EditorConfig::default(),
            theme: ThemeConfig::default(),
            keybindings: KeybindingsConfig::default(),
        }
    }
}

} // verus!
