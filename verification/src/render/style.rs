//! ANSI styling with zsh prompt escape wrapping.
//!
//! Produces strings with ANSI color codes wrapped in zsh `%{..%}` escapes
//! so that zsh correctly calculates cursor position.
use vstd::prelude::*;

use super::layout::{
    escapes_closed, lemma_plain_prefix, lemma_wrapped_reset, lemma_zsh_body, plain_text,
    starts_zsh, token_cols, token_len, visible_width, wrapped_reset,
};
use crate::text::{decimal, digit_char, push_chars, push_str_chars, string_from_chars};

verus! {

/// Terminal foreground colors.
#[derive(Debug, Clone, Copy, PartialEq, Eq, Structural)]
pub enum Color {
    /// Red (ANSI 31).
    Red,
    /// Green (ANSI 32).
    Green,
    /// Yellow (ANSI 33).
    Yellow,
    /// Blue (ANSI 34).
    Blue,
    /// Magenta (ANSI 35).
    Magenta,
    /// Cyan (ANSI 36).
    Cyan,
    /// Bright black / gray (ANSI 90).
    BrightBlack,
}

/// Foreground ANSI SGR codes for the supported symbolic colors.
///
/// Only classic (30..=37) and bright (90..=97) foreground codes are meaningful.
#[derive(Debug, Clone, Copy, PartialEq, Eq, Structural)]
pub struct ColorMap {
    pub red: u8,
    pub green: u8,
    pub yellow: u8,
    pub blue: u8,
    pub magenta: u8,
    pub cyan: u8,
    pub bright_black: u8,
}

/// Whether `code` is a classic (30..=37) or bright (90..=97) foreground code.
pub open spec fn valid_foreground_code(code: int) -> bool {
    (30 <= code && code <= 37) || (90 <= code && code <= 97)
}

/// Whether `code` is a classic (30..=37) or bright (90..=97) foreground code.
pub fn is_valid_foreground_code(code: u16) -> (r: bool)
    ensures
        r == valid_foreground_code(code as int),
{
    (code >= 30 && code <= 37) || (code >= 90 && code <= 97)
}

impl ColorMap {
    /// The code configured for `color`.
    pub open spec fn code_of(self, color: Color) -> u8 {
        match color {
            Color::Red => self.red,
            Color::Green => self.green,
            Color::Yellow => self.yellow,
            Color::Blue => self.blue,
            Color::Magenta => self.magenta,
            Color::Cyan => self.cyan,
            Color::BrightBlack => self.bright_black,
        }
    }

    /// Every symbolic color maps to a valid foreground code.
    pub open spec fn wf(self) -> bool {
        &&& valid_foreground_code(self.red as int)
        &&& valid_foreground_code(self.green as int)
        &&& valid_foreground_code(self.yellow as int)
        &&& valid_foreground_code(self.blue as int)
        &&& valid_foreground_code(self.magenta as int)
        &&& valid_foreground_code(self.cyan as int)
        &&& valid_foreground_code(self.bright_black as int)
    }

    /// The foreground SGR code for `color`.
    pub fn fg_code(self, color: Color) -> (code: u8)
        ensures
            code == self.code_of(color),
    {
        match color {
            Color::Red => self.red,
            Color::Green => self.green,
            Color::Yellow => self.yellow,
            Color::Blue => self.blue,
            Color::Magenta => self.magenta,
            Color::Cyan => self.cyan,
            Color::BrightBlack => self.bright_black,
        }
    }
}

impl Default for ColorMap {
    fn default() -> (m: Self)
        ensures
            m == default_color_map(),
    {
        ColorMap { red: 31, green: 32, yellow: 33, blue: 34, magenta: 35, cyan: 36, bright_black: 90 }
    }
}

/// The standard mapping: classic codes for the six colors and 90 for bright black.
pub open spec fn default_color_map() -> ColorMap {
    ColorMap { red: 31, green: 32, yellow: 33, blue: 34, magenta: 35, cyan: 36, bright_black: 90 }
}

/// A text style with optional foreground color, bold, and dimmed attributes.
#[derive(Debug, Clone, Copy, PartialEq, Eq, Structural)]
pub struct Style {
    pub fg: Option<Color>,
    pub bold: bool,
    pub dimmed: bool,
}

/// The unstyled style.
pub open spec fn plain_style() -> Style {
    Style { fg: None, bold: false, dimmed: false }
}

/// `ESC [ 0 m`, the SGR reset sequence.
pub open spec fn sgr_reset() -> Seq<char> {
    seq!['\x1b', '[', '0', 'm']
}

/// The SGR sequences emitted for the enabled effects (bold before dimmed).
pub open spec fn effects_sgr(bold: bool, dimmed: bool) -> Seq<char> {
    (if bold { seq!['\x1b', '[', '1', 'm'] } else { Seq::empty() })
        + (if dimmed { seq!['\x1b', '[', '2', 'm'] } else { Seq::empty() })
}

/// The SGR sequence selecting the basic/bright ANSI color with palette index `i` (0..16).
pub open spec fn ansi_fg_sgr(i: u8) -> Seq<char> {
    seq!['\x1b', '[', if i < 8 { '3' } else { '9' }, digit_char((i % 8) as nat), 'm']
}

/// Palette index (0..16) of a valid foreground code.
pub open spec fn palette_index(code: u8) -> u8 {
    if code <= 37 { (code - 30) as u8 } else { (code - 90 + 8) as u8 }
}

/// Renders the opening and reset SGR sequences of an `anstyle` style
/// (`anstyle::Style::render` and `anstyle::Style::render_reset`).
///
/// The style has the basic/bright foreground color with palette index `fg_index`
/// (if any) and the bold and dimmed effects as given. As the crate's source
/// shows, the opening sequence lists each effect (bold, then dimmed) as its own
/// `ESC [ n m` sequence, followed by the color's `ESC [ 3x m` / `ESC [ 9x m`
/// sequence; the reset is `ESC [ 0 m` unless the style is plain, when it is empty.
#[verifier::external_body]
fn anstyle_sgr(fg_index: Option<u8>, bold: bool, dimmed: bool) -> (r: (String, String))
    requires
        fg_index matches Some(i) ==> i < 16,
    ensures
        r.0@ == effects_sgr(bold, dimmed) + match fg_index {
            Some(i) => ansi_fg_sgr(i),
            None => Seq::empty(),
        },
        r.1@ == (if fg_index is Some || bold || dimmed { sgr_reset() } else { Seq::empty() }),
{
    let style = anstyle::Style::new().fg_color(
        fg_index.map(anstyle::Ansi256Color).and_then(anstyle::Ansi256Color::into_ansi).map(
            anstyle::Color::Ansi,
        ),
    ).effects(
        anstyle::Effects::new().set(anstyle::Effects::BOLD, bold).set(
            anstyle::Effects::DIMMED,
            dimmed,
        ),
    );
    (format!("{}", style.render()), format!("{}", style.render_reset()))
}

/// The SGR sequence selecting foreground `code` (a valid two-digit code).
pub open spec fn fg_sgr(code: u8) -> Seq<char> {
    seq!['\x1b', '['] + decimal(code as nat) + seq!['m']
}

/// The opening SGR sequence for `style` under `color_map`.
pub open spec fn style_sgr(style: Style, color_map: ColorMap) -> Seq<char> {
    effects_sgr(style.bold, style.dimmed) + match style.fg {
        Some(c) => fg_sgr(color_map.code_of(c)),
        None => Seq::empty(),
    }
}

/// `%{`, the zsh zero-width escape opener.
pub open spec fn zsh_open() -> Seq<char> {
    seq!['%', '{']
}

/// `%}`, the zsh zero-width escape closer.
pub open spec fn zsh_close() -> Seq<char> {
    seq!['%', '}']
}

/// What painting `text` with `style` produces.
pub open spec fn paint_spec(style: Style, text: Seq<char>, color_map: ColorMap) -> Seq<char> {
    if style == plain_style() {
        text
    } else {
        zsh_open() + style_sgr(style, color_map) + zsh_close() + text + zsh_open() + sgr_reset()
            + zsh_close()
    }
}

/// Whether painting with `style` under `color_map` is defined (its color has a valid code).
pub open spec fn paintable(style: Style, color_map: ColorMap) -> bool {
    style.fg matches Some(c) ==> valid_foreground_code(color_map.code_of(c) as int)
}

proof fn lemma_fg_sgr_matches(code: u8)
    requires
        valid_foreground_code(code as int),
    ensures
        palette_index(code) < 16,
        ansi_fg_sgr(palette_index(code)) == fg_sgr(code),
{
    let i = palette_index(code);
    let n = code as nat;
    assert(decimal(n) == decimal(n / 10).push(digit_char(n % 10)));
    assert(decimal(n / 10) == seq![digit_char(n / 10)]);
    if code <= 37 {
        assert(n / 10 == 3);
        assert(n % 10 == i % 8);
    } else {
        assert(n / 10 == 9);
        assert(n % 10 == i % 8);
    }
    assert(ansi_fg_sgr(i) =~= fg_sgr(code));
}

impl Style {
    /// Creates a new unstyled `Style`.
    pub fn new() -> (s: Self)
        ensures
            s == plain_style(),
    {
        Style { fg: None, bold: false, dimmed: false }
    }

    /// Sets the foreground color.
    pub fn fg(self, color: Color) -> (s: Self)
        ensures
            s == (Style { fg: Some(color), ..self }),
    {
        Style { fg: Some(color), ..self }
    }

    /// Enables bold.
    pub fn bold(self) -> (s: Self)
        ensures
            s == (Style { bold: true, ..self }),
    {
        Style { bold: true, ..self }
    }

    /// Enables dimmed (faint) rendering.
    pub fn dimmed(self) -> (s: Self)
        ensures
            s == (Style { dimmed: true, ..self }),
    {
        Style { dimmed: true, ..self }
    }

    /// Apply ANSI styling to `text`, wrapping escape sequences in zsh `%{..%}`.
    ///
    /// Returns `text` unchanged when no style attributes are set.
    pub fn paint(&self, text: &str) -> (r: String)
        requires
            paintable(*self, default_color_map()),
        ensures
            r@ == paint_spec(*self, text@, default_color_map()),
    {
        self.paint_with(text, ColorMap::default())
    }

    /// Apply ANSI styling using a caller-provided symbolic color mapping.
    ///
    /// The opening escape is what `anstyle` renders: each effect as a
    /// sequence of its own (bold `ESC[1m`, then dimmed `ESC[2m`), followed
    /// by the color's (`ESC[36m`). A bold cyan text therefore opens with
    /// `ESC[1mESC[36m`, not the combined `ESC[1;36m`; terminals show both
    /// alike.
    pub fn paint_with(&self, text: &str, color_map: ColorMap) -> (r: String)
        requires
            paintable(*self, color_map),
        ensures
            r@ == paint_spec(*self, text@, color_map),
    {
        if self.fg.is_none() && !self.bold && !self.dimmed {
            let r = String::from_str(text);
            return r;
        }
        let fg_index: Option<u8> = match self.fg {
            Some(color) => {
                let code = color_map.fg_code(color);
                proof {
                    lemma_fg_sgr_matches(code);
                }
                if code <= 37 {
                    Some(code - 30)
                } else {
                    Some(code - 90 + 8)
                }
            },
            None => None,
        };
        let (open, reset) = anstyle_sgr(fg_index, self.bold, self.dimmed);
        let mut out: Vec<char> = Vec::new();
        out.push('%');
        out.push('{');
        push_str_chars(&mut out, open.as_str());
        out.push('%');
        out.push('}');
        push_str_chars(&mut out, text);
        out.push('%');
        out.push('{');
        push_str_chars(&mut out, reset.as_str());
        out.push('%');
        out.push('}');
        proof {
            assert(open@ == style_sgr(*self, color_map));
            assert(reset@ == sgr_reset());
            assert(out@ =~= paint_spec(*self, text@, color_map));
        }
        string_from_chars(&out)
    }
}


proof fn lemma_decimal_digits(n: nat)
    ensures
        forall|i: int| 0 <= i < decimal(n).len() ==> decimal(n)[i] != '%',
    decreases n,
{
    if n >= 10 {
        lemma_decimal_digits(n / 10);
        let d = decimal(n / 10);
        assert(decimal(n) == d.push(digit_char(n % 10)));
        assert forall|i: int| 0 <= i < decimal(n).len() implies decimal(n)[i] != '%' by {
            if i < d.len() {
                assert(decimal(n)[i] == d[i]);
            }
        }
    }
}

/// Painting law: styling plain text (no `%` or ESC) leaves its display width
/// unchanged and closes every escape it opens.
pub proof fn lemma_paint_width(style: Style, text: Seq<char>, color_map: ColorMap)
    requires
        plain_text(text),
    ensures
        visible_width(paint_spec(style, text, color_map)) == visible_width(text),
        escapes_closed(paint_spec(style, text, color_map)),
{
    lemma_plain_prefix(text, Seq::empty());
    assert(text + Seq::<char>::empty() =~= text);
    if style != plain_style() {
        let sgr = style_sgr(style, color_map);
        if let Some(c) = style.fg {
            lemma_decimal_digits(color_map.code_of(c) as nat);
        }
        assert forall|i: int| 0 <= i < sgr.len() implies sgr[i] != '%' by {
            if let Some(c) = style.fg {
                let e = effects_sgr(style.bold, style.dimmed);
                let f = fg_sgr(color_map.code_of(c));
                if i >= e.len() {
                    let d = decimal(color_map.code_of(c) as nat);
                    assert(f =~= seq!['\x1b', '['] + d + seq!['m']);
                    if i - e.len() >= 2 && i - e.len() < 2 + d.len() {
                        assert(f[i - e.len()] == d[i - e.len() - 2]);
                    }
                }
            }
        }
        let rest = text + wrapped_reset();
        let p = paint_spec(style, text, color_map);
        assert(p =~= seq!['%', '{'] + (sgr + seq!['%', '}'] + rest));
        lemma_zsh_body(sgr, rest);
        assert(p.skip(2) =~= sgr + seq!['%', '}'] + rest);
        assert(starts_zsh(p));
        assert(p.skip(token_len(p) as int) =~= rest);
        lemma_plain_prefix(text, wrapped_reset());
        lemma_wrapped_reset();
    }
}

} // verus!
