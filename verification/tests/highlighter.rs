use hoditor::highlighter::{
    create_tokyonight_colors, create_tokyonight_rules, opaque, style_to_crossterm_color,
    syntax_or_plain, tokens_or_none, with_rule, Highlighter, Rgb, Rgba, Style, BACKGROUND, BLUE,
    COMMENT, FOREGROUND, GREEN,
};
use std::str::FromStr;
use syntect::highlighting::{ScopeSelectors, ThemeItem};

fn joined(tokens: &[(Style, String)]) -> String {
    tokens.iter().map(|(_, text)| text.as_str()).collect()
}

fn colour_of<'a>(tokens: &'a [(Style, String)], text: &str) -> Option<Rgba> {
    tokens
        .iter()
        .find(|(_, piece)| piece == text)
        .map(|(style, _)| style.foreground)
}

#[test]
fn hex_digits_write_an_opaque_colour() {
    assert_eq!(opaque(0x565f89), Rgba { r: 0x56, g: 0x5f, b: 0x89, a: 0xff });
    assert_eq!(opaque(0), Rgba { r: 0, g: 0, b: 0, a: 0xff });
    assert_eq!(opaque(0xffffff), Rgba { r: 0xff, g: 0xff, b: 0xff, a: 0xff });
    assert_eq!(opaque(0x010203), Rgba { r: 1, g: 2, b: 3, a: 0xff });
}

#[test]
fn palette_has_sixteen_rules_in_order() {
    let rules = create_tokyonight_rules();
    let selectors: Vec<&str> = rules.iter().map(|rule| rule.selector).collect();
    assert_eq!(
        selectors,
        vec![
            "comment",
            "string",
            "constant.numeric",
            "constant",
            "keyword",
            "storage",
            "entity.name.function",
            "entity.name.type, storage.type",
            "variable",
            "keyword.operator",
            "punctuation",
            "meta.macro, entity.name.function.macro",
            "support.function",
            "entity.name.namespace, entity.name.module",
            "meta.attribute, storage.modifier",
            "invalid",
        ]
    );
    assert_eq!(rules[0].foreground, Rgba { r: 0x56, g: 0x5f, b: 0x89, a: 0xff });
    assert_eq!(rules[1].foreground, Rgba { r: 0x9e, g: 0xce, b: 0x6a, a: 0xff });
    assert_eq!(rules[2].foreground, rules[3].foreground);
    assert_eq!(rules[5].foreground, Rgba { r: 0xbb, g: 0x9a, b: 0xf7, a: 0xff });
    assert_eq!(rules[7].foreground, Rgba { r: 0x2a, g: 0xc3, b: 0xde, a: 0xff });
    assert_eq!(rules[15].foreground, Rgba { r: 0xf7, g: 0x76, b: 0x8e, a: 0xff });
}

#[test]
fn editor_colours() {
    let colors = create_tokyonight_colors();
    assert_eq!(colors.background, Rgba { r: 0x1a, g: 0x1b, b: 0x26, a: 0xff });
    assert_eq!(colors.foreground, Rgba { r: 0xc0, g: 0xca, b: 0xf5, a: 0xff });
    assert_eq!(colors.caret, colors.foreground);
    assert_eq!(colors.line_highlight, Rgba { r: 0x29, g: 0x2e, b: 0x42, a: 0xff });
    assert_eq!(colors.selection, Rgba { r: 0x28, g: 0x34, b: 0x57, a: 0xff });
}

#[test]
fn terminal_colours_drop_the_opacity() {
    let style = Style {
        foreground: Rgba { r: 1, g: 2, b: 3, a: 4 },
        background: Rgba { r: 5, g: 6, b: 7, a: 8 },
    };
    assert_eq!(
        style_to_crossterm_color(style),
        (Rgb { r: 1, g: 2, b: 3 }, Rgb { r: 5, g: 6, b: 7 })
    );
}

#[test]
fn tokens_make_up_the_line() {
    let highlighter = Highlighter::new("rs");
    let line = "fn main() { let x = \"hi\"; } // done";
    let tokens = highlighter.highlight_line(line);
    assert_eq!(joined(&tokens), line);
    assert!(tokens.len() > 3);
    assert!(tokens.iter().all(|(_, text)| !text.is_empty()));
}

#[test]
fn rust_tokens_get_the_palette() {
    let highlighter = Highlighter::new("rs");
    let tokens = highlighter.highlight_line("fn main() { let x = \"hi\"; } // done");
    assert_eq!(colour_of(&tokens, "main"), Some(opaque(BLUE)));
    assert_eq!(colour_of(&tokens, "hi"), Some(opaque(GREEN)));
    assert_eq!(colour_of(&tokens, " done"), Some(opaque(COMMENT)));
    for (style, _) in &tokens {
        assert_eq!(style.background, opaque(BACKGROUND));
    }
}

#[test]
fn unknown_extension_reads_as_plain_text() {
    let highlighter = Highlighter::new("no-such-extension");
    let line = "fn main() { let x = \"hi\"; }";
    let tokens = highlighter.highlight_line(line);
    assert_eq!(joined(&tokens), line);
    for (style, _) in &tokens {
        assert_eq!(style.foreground, opaque(FOREGROUND));
        assert_eq!(style.background, opaque(BACKGROUND));
    }
}

#[test]
fn empty_line_has_no_tokens() {
    let highlighter = Highlighter::new("rs");
    assert_eq!(highlighter.highlight_line(""), Vec::new());
}

#[test]
fn a_file_without_a_syntax_is_plain_text() {
    assert_eq!(syntax_or_plain(Some(String::from("Rust"))), "Rust");
    assert_eq!(syntax_or_plain(Some(String::new())), "");
    assert_eq!(syntax_or_plain(None), "Plain Text");
}

#[test]
fn a_line_without_a_result_has_no_tokens() {
    let style = Style {
        foreground: opaque(FOREGROUND),
        background: opaque(BACKGROUND),
    };
    let tokens = vec![(style, String::from("fn")), (style, String::from(" x"))];
    assert_eq!(tokens_or_none(Some(tokens.clone())), tokens);
    assert_eq!(tokens_or_none(Some(Vec::new())), Vec::new());
    assert_eq!(tokens_or_none(None), Vec::new());
}

#[test]
fn an_accepted_rule_joins_the_theme_and_a_refused_one_does_not() {
    let comment = ThemeItem {
        scope: ScopeSelectors::from_str("comment").unwrap(),
        ..ThemeItem::default()
    };
    let string = ThemeItem {
        scope: ScopeSelectors::from_str("string").unwrap(),
        ..ThemeItem::default()
    };
    let one = with_rule(Vec::new(), Some(comment.clone()));
    assert_eq!(one, vec![comment.clone()]);
    let same = with_rule(one, None);
    assert_eq!(same, vec![comment.clone()]);
    let two = with_rule(same, Some(string.clone()));
    assert_eq!(two, vec![comment, string]);
    assert_eq!(with_rule(Vec::new(), None), Vec::new());
}
