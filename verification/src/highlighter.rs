//! Syntax highlighting in the TokyoNight Night palette.
//!
//! The palette and the choice of what to highlight a line as are this
//! module's own; splitting a line into styled tokens is done by `syntect`.
//! What is believed of `syntect` without proof is said at each wrapper.

use std::str::FromStr;
use syntect::easy::HighlightLines;
use syntect::highlighting::{Color, ScopeSelectors, StyleModifier, Theme, ThemeItem, ThemeSettings};
use syntect::parsing::SyntaxSet;
use vstd::prelude::*;

verus! {

/// `syntect`'s set of syntax definitions.
#[verifier::external_type_specification]
#[verifier::external_body]
pub struct ExSyntaxSet(syntect::parsing::SyntaxSet);

/// `syntect`'s theme: default colours and the rules that colour scopes.
#[verifier::external_type_specification]
#[verifier::external_body]
pub struct ExTheme(syntect::highlighting::Theme);

/// One rule of a `syntect` theme.
#[verifier::external_type_specification]
#[verifier::external_body]
pub struct ExThemeItem(syntect::highlighting::ThemeItem);

/// A colour: red, green, blue and opacity.
#[derive(Debug, Clone, Copy, PartialEq, Eq, Structural)]
pub struct Rgba {
    pub r: u8,
    pub g: u8,
    pub b: u8,
    pub a: u8,
}

/// A colour as a terminal takes it: red, green and blue.
#[derive(Debug, Clone, Copy, PartialEq, Eq, Structural)]
pub struct Rgb {
    pub r: u8,
    pub g: u8,
    pub b: u8,
}

/// The colours that a token is drawn in.
#[derive(Debug, Clone, Copy, PartialEq, Eq, Structural)]
pub struct Style {
    pub foreground: Rgba,
    pub background: Rgba,
}

/// One rule of the palette: the scopes it selects, and the colour it gives
/// their text.
#[derive(Debug, Clone, Copy)]
pub struct ThemeRule {
    pub selector: &'static str,
    pub foreground: Rgba,
}

/// The colours of the editor around the text.
#[derive(Debug, Clone, Copy, PartialEq, Eq, Structural)]
pub struct ThemeColors {
    pub foreground: Rgba,
    pub background: Rgba,
    pub caret: Rgba,
    pub line_highlight: Rgba,
    pub selection: Rgba,
}

pub const BACKGROUND: u32 = 0x1a1b26;

pub const FOREGROUND: u32 = 0xc0caf5;

pub const LINE_HIGHLIGHT: u32 = 0x292e42;

pub const SELECTION: u32 = 0x283457;

pub const COMMENT: u32 = 0x565f89;

pub const CYAN: u32 = 0x7dcfff;

pub const GREEN: u32 = 0x9ece6a;

pub const ORANGE: u32 = 0xff9e64;

pub const MAGENTA: u32 = 0xbb9af7;

pub const BLUE: u32 = 0x7aa2f7;

pub const BLUE1: u32 = 0x2ac3de;

pub const BLUE5: u32 = 0x89ddff;

pub const RED: u32 = 0xf7768e;

pub const PURPLE: u32 = 0x9d7cd8;

/// The opaque colour that the last six hexadecimal digits of `hex` write:
/// two for red, two for green, two for blue.
pub open spec fn color_of(hex: u32) -> Rgba {
    Rgba {
        r: (hex / 0x10000 % 0x100) as u8,
        g: (hex / 0x100 % 0x100) as u8,
        b: (hex % 0x100) as u8,
        a: 0xff,
    }
}

/// The palette: for each rule the scopes it selects and the colour it gives.
/// A later rule that selects a scope more closely wins over an earlier one.
pub open spec fn tokyonight_rules() -> Seq<(Seq<char>, Rgba)> {
    seq![
        ("comment"@, color_of(COMMENT)),
        ("string"@, color_of(GREEN)),
        ("constant.numeric"@, color_of(ORANGE)),
        ("constant"@, color_of(ORANGE)),
        ("keyword"@, color_of(CYAN)),
        ("storage"@, color_of(MAGENTA)),
        ("entity.name.function"@, color_of(BLUE)),
        ("entity.name.type, storage.type"@, color_of(BLUE1)),
        ("variable"@, color_of(FOREGROUND)),
        ("keyword.operator"@, color_of(BLUE5)),
        ("punctuation"@, color_of(BLUE5)),
        ("meta.macro, entity.name.function.macro"@, color_of(BLUE)),
        ("support.function"@, color_of(CYAN)),
        ("entity.name.namespace, entity.name.module"@, color_of(PURPLE)),
        ("meta.attribute, storage.modifier"@, color_of(BLUE)),
        ("invalid"@, color_of(RED)),
    ]
}

/// The colours of the editor around the text.
pub open spec fn tokyonight_colors() -> ThemeColors {
    ThemeColors {
        foreground: color_of(FOREGROUND),
        background: color_of(BACKGROUND),
        caret: color_of(FOREGROUND),
        line_highlight: color_of(LINE_HIGHLIGHT),
        selection: color_of(SELECTION),
    }
}

/// What a palette holds, rule by rule.
pub open spec fn rules_of(rules: Seq<ThemeRule>) -> Seq<(Seq<char>, Rgba)> {
    Seq::new(rules.len(), |i: int| (rules[i].selector@, rules[i].foreground))
}

/// The text of all tokens, one after the other.
pub open spec fn text_of(tokens: Seq<(Style, String)>) -> Seq<char>
    decreases tokens.len(),
{
    if tokens.len() == 0 {
        Seq::empty()
    } else {
        text_of(tokens.drop_last()) + tokens.last().1@
    }
}

/// `SyntaxSet::load_defaults_newlines` hands out the syntax definitions that
/// `syntect` ships. Nothing is claimed of them.
#[verifier::external_body]
fn load_syntaxes() -> SyntaxSet {
    SyntaxSet::load_defaults_newlines()
}

/// `ScopeSelectors::from_str` parses the scopes that a rule selects, and may
/// refuse the text. Nothing is claimed of when it does; a rule that is
/// accepted selects those scopes and sets the foreground only.
#[verifier::external_body]
fn theme_item(selector: &str, foreground: Rgba) -> Option<ThemeItem> {
    let scope = ScopeSelectors::from_str(selector).ok()?;
    let Rgba { r, g, b, a } = foreground;
    let foreground = Some(Color { r, g, b, a });
    let style = StyleModifier { foreground, background: None, font_style: None };
    Some(ThemeItem { scope, style })
}

/// A `syntect` theme is made of a name, an author, the editor's colours and
/// the rules. Nothing is claimed of it.
#[verifier::external_body]
fn theme_from(
    name: &str,
    author: &str,
    colors: ThemeColors,
    scopes: Vec<ThemeItem>,
) -> Theme {
    let color = |c: Rgba| Some(Color { r: c.r, g: c.g, b: c.b, a: c.a });
    let mut settings = ThemeSettings::default();
    settings.foreground = color(colors.foreground);
    settings.background = color(colors.background);
    settings.caret = color(colors.caret);
    settings.line_highlight = color(colors.line_highlight);
    settings.selection = color(colors.selection);
    Theme {
        name: Some(name.to_string()),
        author: Some(author.to_string()),
        settings,
        scopes,
    }
}

/// `SyntaxSet::find_syntax_by_extension` finds the syntax for files with the
/// given extension, if the set holds one; this is its name. Nothing is
/// claimed of which extensions the set knows.
#[verifier::external_body]
fn syntax_for(syntaxes: &SyntaxSet, extension: &str) -> Option<String> {
    syntaxes.find_syntax_by_extension(extension).map(|syntax| syntax.name.clone())
}

/// `HighlightLines::highlight_line`, on a fresh highlighter for the syntax
/// that the set holds under `name`, splits `line` into tokens and gives each
/// the style that the theme has for it. The syntax is looked up in the set
/// that parses the line, as `syntect` asks. There is no result where the set
/// holds no such syntax or the line cannot be parsed. What is claimed of the
/// tokens: they are consecutive pieces of the line from its start on.
#[verifier::external_body]
fn highlight_as(syntaxes: &SyntaxSet, theme: &Theme, name: &str, line: &str) -> (tokens: Option<
    Vec<(Style, String)>,
>)
    ensures
        tokens matches Some(tokens) ==> text_of(tokens@).is_prefix_of(line@),
{
    let syntax = syntaxes.find_syntax_by_name(name)?;
    let mut lines = HighlightLines::new(syntax, theme);
    let ranges = lines.highlight_line(line, syntaxes).ok()?;
    let own = |c: Color| Rgba { r: c.r, g: c.g, b: c.b, a: c.a };
    let token = |(s, text): (syntect::highlighting::Style, &str)| {
        (Style { foreground: own(s.foreground), background: own(s.background) }, text.to_string())
    };
    Some(ranges.into_iter().map(token).collect())
}

/// The rules of a theme with what parsing one more palette rule gave: the
/// rule behind the others where it was accepted, the others alone where it
/// was refused.
pub fn with_rule(scopes: Vec<ThemeItem>, found: Option<ThemeItem>) -> (more: Vec<ThemeItem>)
    ensures
        more@ == match found {
            Some(item) => scopes@.push(item),
            None => scopes@,
        },
{
    let mut more = scopes;
    match found {
        Some(item) => more.push(item),
        None => {},
    }
    more
}

/// The name of the syntax that highlights nothing.
pub open spec fn plain_text() -> Seq<char> {
    "Plain Text"@
}

/// The syntax to highlight a line as: the one that was found for the file's
/// extension, or plain text where none was found.
pub fn syntax_or_plain(found: Option<String>) -> (name: String)
    ensures
        name@ == match found {
            Some(name) => name@,
            None => plain_text(),
        },
{
    match found {
        Some(name) => name,
        None => "Plain Text".to_owned(),
    }
}

/// The tokens of a line: those that highlighting gave, or none where it
/// gave no result.
pub fn tokens_or_none(found: Option<Vec<(Style, String)>>) -> (tokens: Vec<(Style, String)>)
    ensures
        tokens@ == match found {
            Some(tokens) => tokens@,
            None => Seq::empty(),
        },
{
    match found {
        Some(tokens) => tokens,
        None => Vec::new(),
    }
}

/// The opaque colour that the last six hexadecimal digits of `hex` write.
pub fn opaque(hex: u32) -> (color: Rgba)
    ensures
        color == color_of(hex),
{
    Rgba {
        r: (hex / 0x10000 % 0x100) as u8,
        g: (hex / 0x100 % 0x100) as u8,
        b: (hex % 0x100) as u8,
        a: 0xff,
    }
}

/// The rules of the palette.
pub fn create_tokyonight_rules() -> (rules: Vec<ThemeRule>)
    ensures
        rules_of(rules@) == tokyonight_rules(),
{
    let rules = vec![
        ThemeRule { selector: "comment", foreground: opaque(COMMENT) },
        ThemeRule { selector: "string", foreground: opaque(GREEN) },
        ThemeRule { selector: "constant.numeric", foreground: opaque(ORANGE) },
        ThemeRule { selector: "constant", foreground: opaque(ORANGE) },
        ThemeRule { selector: "keyword", foreground: opaque(CYAN) },
        ThemeRule { selector: "storage", foreground: opaque(MAGENTA) },
        ThemeRule { selector: "entity.name.function", foreground: opaque(BLUE) },
        ThemeRule { selector: "entity.name.type, storage.type", foreground: opaque(BLUE1) },
        ThemeRule { selector: "variable", foreground: opaque(FOREGROUND) },
        ThemeRule { selector: "keyword.operator", foreground: opaque(BLUE5) },
        ThemeRule { selector: "punctuation", foreground: opaque(BLUE5) },
        ThemeRule { selector: "meta.macro, entity.name.function.macro", foreground: opaque(BLUE) },
        ThemeRule { selector: "support.function", foreground: opaque(CYAN) },
        ThemeRule {
            selector: "entity.name.namespace, entity.name.module",
            foreground: opaque(PURPLE),
        },
        ThemeRule { selector: "meta.attribute, storage.modifier", foreground: opaque(BLUE) },
        ThemeRule { selector: "invalid", foreground: opaque(RED) },
    ];
    assert(rules_of(rules@) =~= tokyonight_rules());
    rules
}

/// The colours of the editor around the text.
pub fn create_tokyonight_colors() -> (colors: ThemeColors)
    ensures
        colors == tokyonight_colors(),
{
    ThemeColors {
        foreground: opaque(FOREGROUND),
        background: opaque(BACKGROUND),
        caret: opaque(FOREGROUND),
        line_highlight: opaque(LINE_HIGHLIGHT),
        selection: opaque(SELECTION),
    }
}

/// The colours of a style as a terminal takes them: foreground first, then
/// background, both without their opacity.
pub fn style_to_crossterm_color(style: Style) -> (colors: (Rgb, Rgb))
    ensures
        colors.0 == (Rgb { r: style.foreground.r, g: style.foreground.g, b: style.foreground.b }),
        colors.1 == (Rgb { r: style.background.r, g: style.background.g, b: style.background.b }),
{
    let fg = Rgb { r: style.foreground.r, g: style.foreground.g, b: style.foreground.b };
    let bg = Rgb { r: style.background.r, g: style.background.g, b: style.background.b };
    (fg, bg)
}

/// Highlights the lines of one file, by the syntax that goes with the file's
/// extension.
pub struct Highlighter {
    syntax_set: SyntaxSet,
    theme: Theme,
    file_extension: String,
}

impl Highlighter {
    /// The extension of the file whose lines are highlighted.
    pub closed spec fn extension(&self) -> Seq<char> {
        self.file_extension@
    }

    /// A highlighter for files with the given extension, with the syntax
    /// definitions that `syntect` ships and the TokyoNight Night palette.
    pub fn new(file_extension: &str) -> (highlighter: Self)
        ensures
            highlighter.extension() == file_extension@,
    {
        Self {
            syntax_set: load_syntaxes(),
            theme: Self::create_tokyonight_theme(),
            file_extension: file_extension.to_owned(),
        }
    }

    /// The theme that holds the palette. A rule whose selector is refused
    /// is left out.
    fn create_tokyonight_theme() -> Theme {
        let rules = create_tokyonight_rules();
        let mut scopes: Vec<ThemeItem> = Vec::new();
        let mut i: usize = 0;
        while i < rules.len()
            invariant
                i <= rules@.len(),
            decreases rules@.len() - i,
        {
            scopes = with_rule(scopes, theme_item(rules[i].selector, rules[i].foreground));
            i = i + 1;
        }
        theme_from("TokyoNight Night", "folke", create_tokyonight_colors(), scopes)
    }

    /// Splits `line` into styled tokens, by the syntax that goes with the
    /// file's extension, or as plain text where no syntax goes with it.
    ///
    /// The tokens are consecutive pieces of the line from its start on.
    /// What cannot be highlighted gives no tokens.
    pub fn highlight_line(&self, line: &str) -> (tokens: Vec<(Style, String)>)
        ensures
            text_of(tokens@).is_prefix_of(line@),
    {
        let name = syntax_or_plain(syntax_for(&self.syntax_set, self.file_extension.as_str()));
        tokens_or_none(highlight_as(&self.syntax_set, &self.theme, name.as_str(), line))
    }
}

} // verus!
