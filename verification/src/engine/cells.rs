//! One grid cell: its colours, its text and its attributes.

use crate::engine::{BoldColor, Rgb, UnderlineStyle};
use compact_str::CompactString;
use vstd::prelude::*;

verus! {

/// The text of a cell, in `compact_str`'s string, which keeps short texts
/// inline.
#[derive(Debug)]
#[verifier::external_body]
pub struct CellText {
    inner: CompactString,
}

/// The characters a cell's text holds.
pub uninterp spec fn text_chars(t: CellText) -> Seq<char>;

impl View for CellText {
    type V = Seq<char>;

    open spec fn view(&self) -> Seq<char> {
        text_chars(*self)
    }
}

/// `CompactString::default`, which holds no character.
#[verifier::external_body]
fn no_text() -> (t: CellText)
    ensures
        text_chars(t) == Seq::<char>::empty(),
{
    CellText { inner: CompactString::default() }
}

/// `CompactString::clear`, which removes every character.
#[verifier::external_body]
fn clear_text(t: &mut CellText)
    ensures
        text_chars(*final(t)) == Seq::<char>::empty(),
{
    t.inner.clear();
}

/// `CompactString::push`, which appends one character.
#[verifier::external_body]
fn push_char(t: &mut CellText, ch: char)
    ensures
        text_chars(*final(t)) == text_chars(*old(t)).push(ch),
{
    t.inner.push(ch);
}

/// `CompactString::as_str`, which lends the text held.
#[verifier::external_body]
fn lend_text(t: &CellText) -> (r: &str)
    ensures
        r@ == text_chars(*t),
{
    t.inner.as_str()
}

/// `CompactString::clone`, which holds the same text.
#[verifier::external_body]
fn copy_text(t: &CellText) -> (r: CellText)
    ensures
        text_chars(r) == text_chars(*t),
{
    CellText { inner: t.inner.clone() }
}

impl Clone for CellText {
    fn clone(&self) -> (r: Self)
        ensures
            r@ == self@,
    {
        copy_text(self)
    }
}

impl CellText {
    /// The text held.
    pub fn as_str(&self) -> (r: &str)
        ensures
            r@ == self@,
    {
        lend_text(self)
    }
}

/// A rendered grid cell. `inverse` is already applied to `fg` and `bg`.
#[derive(Debug)]
pub struct Cell {
    /// Grapheme cluster; empty for a blank cell and for the tail half of a wide
    /// character.
    pub text: CellText,
    pub fg: Rgb,
    pub bg: Rgb,
    pub bold: bool,
    pub italic: bool,
    pub underline: UnderlineStyle,
    /// Explicit underline colour; `None` underlines in `fg`.
    pub underline_color: Option<Rgb>,
    pub strikethrough: bool,
    pub overline: bool,
    pub faint: bool,
    pub blink: bool,
    pub invisible: bool,
    /// The style set a background of its own, recorded before `inverse`.
    pub bg_explicit: bool,
    pub inverse: bool,
    /// The cell lies inside the selection.
    pub selected: bool,
}

/// A cell, as the renderer sees it.
#[verifier::ext_equal]
pub ghost struct CellView {
    pub text: Seq<char>,
    pub fg: Rgb,
    pub bg: Rgb,
    pub bold: bool,
    pub italic: bool,
    pub underline: UnderlineStyle,
    pub underline_color: Option<Rgb>,
    pub strikethrough: bool,
    pub overline: bool,
    pub faint: bool,
    pub blink: bool,
    pub invisible: bool,
    pub bg_explicit: bool,
    pub inverse: bool,
    pub selected: bool,
}

impl View for Cell {
    type V = CellView;

    open spec fn view(&self) -> CellView {
        CellView {
            text: self.text@,
            fg: self.fg,
            bg: self.bg,
            bold: self.bold,
            italic: self.italic,
            underline: self.underline,
            underline_color: self.underline_color,
            strikethrough: self.strikethrough,
            overline: self.overline,
            faint: self.faint,
            blink: self.blink,
            invisible: self.invisible,
            bg_explicit: self.bg_explicit,
            inverse: self.inverse,
            selected: self.selected,
        }
    }
}

/// A cell with nothing in it.
pub open spec fn blank() -> CellView {
    CellView {
        text: Seq::empty(),
        fg: Rgb { r: 0, g: 0, b: 0 },
        bg: Rgb { r: 0, g: 0, b: 0 },
        bold: false,
        italic: false,
        underline: UnderlineStyle::Off,
        underline_color: None,
        strikethrough: false,
        overline: false,
        faint: false,
        blink: false,
        invisible: false,
        bg_explicit: false,
        inverse: false,
        selected: false,
    }
}

impl Clone for Cell {
    /// A cell that shows the same.
    fn clone(&self) -> (c: Self)
        ensures
            c@ == self@,
    {
        Cell {
            text: copy_text(&self.text),
            fg: self.fg,
            bg: self.bg,
            bold: self.bold,
            italic: self.italic,
            underline: self.underline,
            underline_color: self.underline_color,
            strikethrough: self.strikethrough,
            overline: self.overline,
            faint: self.faint,
            blink: self.blink,
            invisible: self.invisible,
            bg_explicit: self.bg_explicit,
            inverse: self.inverse,
            selected: self.selected,
        }
    }
}

impl Default for Cell {
    /// A blank cell.
    fn default() -> (c: Self)
        ensures
            c@ == blank(),
    {
        Cell {
            text: no_text(),
            fg: Rgb::new(0, 0, 0),
            bg: Rgb::new(0, 0, 0),
            bold: false,
            italic: false,
            underline: UnderlineStyle::Off,
            underline_color: None,
            strikethrough: false,
            overline: false,
            faint: false,
            blink: false,
            invisible: false,
            bg_explicit: false,
            inverse: false,
            selected: false,
        }
    }
}

impl Cell {
    /// Empty the cell, keeping its text buffer.
    pub fn blank(&mut self)
        ensures
            final(self)@ == blank(),
    {
        clear_text(&mut self.text);
        self.fg = Rgb::new(0, 0, 0);
        self.bg = Rgb::new(0, 0, 0);
        self.bold = false;
        self.italic = false;
        self.underline = UnderlineStyle::Off;
        self.underline_color = None;
        self.strikethrough = false;
        self.overline = false;
        self.faint = false;
        self.blink = false;
        self.invisible = false;
        self.bg_explicit = false;
        self.inverse = false;
        self.selected = false;
    }
}

/// A colour as a style names it.
#[derive(Clone, Copy, Debug, PartialEq, Eq, Structural)]
pub enum StyleColor {
    Unset,
    /// An index into the palette.
    Palette(u8),
    Rgb(Rgb),
}

/// An underline as a style names it.
#[derive(Clone, Copy, Debug, PartialEq, Eq, Structural)]
pub enum Underline {
    Off,
    Single,
    Double,
    Curly,
    Dotted,
    Dashed,
    /// A kind this build does not know.
    Other,
}

/// How an underline is drawn; an unknown kind as a single line.
pub open spec fn underline_style(u: Underline) -> UnderlineStyle {
    match u {
        Underline::Off => UnderlineStyle::Off,
        Underline::Single => UnderlineStyle::Single,
        Underline::Double => UnderlineStyle::Double,
        Underline::Curly => UnderlineStyle::Curly,
        Underline::Dotted => UnderlineStyle::Dotted,
        Underline::Dashed => UnderlineStyle::Dashed,
        Underline::Other => UnderlineStyle::Single,
    }
}

/// How an underline is drawn; an unknown kind as a single line.
pub fn map_underline(u: Underline) -> (s: UnderlineStyle)
    ensures
        s == underline_style(u),
{
    match u {
        Underline::Off => UnderlineStyle::Off,
        Underline::Single => UnderlineStyle::Single,
        Underline::Double => UnderlineStyle::Double,
        Underline::Curly => UnderlineStyle::Curly,
        Underline::Dotted => UnderlineStyle::Dotted,
        Underline::Dashed => UnderlineStyle::Dashed,
        Underline::Other => UnderlineStyle::Single,
    }
}

/// The colour a style names; `None` where it names none.
pub open spec fn style_color(c: StyleColor, palette: Seq<Rgb>) -> Option<Rgb> {
    match c {
        StyleColor::Unset => None,
        StyleColor::Rgb(c) => Some(c),
        StyleColor::Palette(i) => Some(palette[i as int]),
    }
}

/// Resolve a style colour against `palette`.
pub fn resolve_color(c: StyleColor, palette: &[Rgb; 256]) -> (r: Option<Rgb>)
    ensures
        r == style_color(c, palette@),
{
    match c {
        StyleColor::Unset => None,
        StyleColor::Rgb(c) => Some(c),
        StyleColor::Palette(i) => Some(palette[i as usize]),
    }
}

/// A bold foreground under the bold-colour policy. An ANSI palette colour
/// takes its bright variant; a foreground left at the default, by name or by
/// value, takes the policy's fixed colour; anything else stays as it is.
pub open spec fn bold_fg(
    raw: StyleColor,
    resolved: Rgb,
    default_fg: Rgb,
    palette: Seq<Rgb>,
    policy: BoldColor,
) -> Rgb {
    match (raw, policy) {
        (StyleColor::Palette(i), _) => if i < 8 {
            palette[i + 8]
        } else {
            resolved
        },
        (StyleColor::Unset, BoldColor::Color(c)) => c,
        (StyleColor::Rgb(_), BoldColor::Color(c)) => if resolved == default_fg {
            c
        } else {
            resolved
        },
        _ => resolved,
    }
}

/// Adjust the resolved foreground of a bold cell for the bold-colour policy.
/// `raw` is the colour its style names.
pub fn apply_bold_color(
    raw: StyleColor,
    resolved: Rgb,
    default_fg: Rgb,
    palette: &[Rgb; 256],
    policy: BoldColor,
) -> (r: Rgb)
    ensures
        r == bold_fg(raw, resolved, default_fg, palette@, policy),
{
    match raw {
        StyleColor::Palette(i) => {
            if i < 8 {
                palette[i as usize + 8]
            } else {
                resolved
            }
        },
        StyleColor::Unset => match policy {
            BoldColor::Color(c) => c,
            _ => resolved,
        },
        StyleColor::Rgb(_) => match policy {
            BoldColor::Color(c) => {
                if resolved == default_fg {
                    c
                } else {
                    resolved
                }
            },
            _ => resolved,
        },
    }
}

/// Whether a text starts with a graphics glyph: box drawing, block elements,
/// legacy computing or Powerline.
pub open spec fn graphics_glyph(text: Seq<char>) -> bool {
    text.len() > 0 && {
        let c = text[0] as u32;
        ||| 0x2500 <= c <= 0x259F
        ||| 0x1FB00 <= c <= 0x1FBFF
        ||| 0x1CC00 <= c <= 0x1CEBF
        ||| 0xE0B0 <= c <= 0xE0D7
    }
}

/// Whether minimum contrast passes over `text`, which starts with a graphics
/// glyph.
pub fn is_graphics_element(text: &[char]) -> (r: bool)
    ensures
        r == graphics_glyph(text@),
{
    if text.len() == 0 {
        return false;
    }
    let c: u32 = text[0] as u32;
    (0x2500 <= c && c <= 0x257F) || (0x2580 <= c && c <= 0x259F) || (0x1FB00 <= c && c <= 0x1FBFF)
        || (0x1CC00 <= c && c <= 0x1CEBF) || (0xE0B0 <= c && c <= 0xE0D7)
}

/// The foreground that minimum contrast leaves: `fg` where it already has
/// enough, else white or black, whichever contrasts more with the background.
pub fn readable_fg(fg: Rgb, enough: bool, white_is_better: bool) -> (r: Rgb)
    ensures
        r == if enough {
            fg
        } else if white_is_better {
            Rgb { r: 255, g: 255, b: 255 }
        } else {
            Rgb { r: 0, g: 0, b: 0 }
        },
{
    if enough {
        fg
    } else if white_is_better {
        Rgb::new(255, 255, 255)
    } else {
        Rgb::new(0, 0, 0)
    }
}

/// The attributes of a cell.
#[derive(Clone, Copy, Debug)]
pub struct Style {
    pub fg_color: StyleColor,
    pub underline: Underline,
    pub underline_color: StyleColor,
    pub bold: bool,
    pub italic: bool,
    pub faint: bool,
    pub blink: bool,
    pub inverse: bool,
    pub invisible: bool,
    pub strikethrough: bool,
    pub overline: bool,
}

/// What the terminal reports of one cell.
pub struct CellRead {
    pub style: Style,
    /// Foreground and background, where the style has them.
    pub fg: Option<Rgb>,
    pub bg: Option<Rgb>,
    pub text: Vec<char>,
    /// The foreground that minimum contrast asks for.
    pub readable: Rgb,
}

/// The colours that cells are drawn with.
pub struct Colors<'a> {
    pub default_fg: Rgb,
    pub default_bg: Rgb,
    pub palette: &'a [Rgb; 256],
    pub bold: BoldColor,
}

/// Foreground and background of a cell, `inverse` applied, before minimum
/// contrast.
pub open spec fn colors_of(style: Style, fg: Option<Rgb>, bg: Option<Rgb>, c: Colors<'_>) -> (
    Rgb,
    Rgb,
) {
    let plain = match fg {
        Some(x) => x,
        None => c.default_fg,
    };
    let front = if style.bold && c.bold != BoldColor::Off {
        bold_fg(style.fg_color, plain, c.default_fg, c.palette@, c.bold)
    } else {
        plain
    };
    let back = match bg {
        Some(x) => x,
        None => c.default_bg,
    };
    if style.inverse {
        (back, front)
    } else {
        (front, back)
    }
}

/// Foreground and background of a cell, `inverse` applied, before minimum
/// contrast.
pub fn cell_colors(style: &Style, fg: Option<Rgb>, bg: Option<Rgb>, c: &Colors<'_>) -> (r: (
    Rgb,
    Rgb,
))
    ensures
        r == colors_of(*style, fg, bg, *c),
{
    let mut front = match fg {
        Some(x) => x,
        None => c.default_fg,
    };
    if style.bold && c.bold != BoldColor::Off {
        front = apply_bold_color(style.fg_color, front, c.default_fg, c.palette, c.bold);
    }
    let back = match bg {
        Some(x) => x,
        None => c.default_bg,
    };
    if style.inverse {
        (back, front)
    } else {
        (front, back)
    }
}

/// The cell that a read yields. A foreground that minimum contrast replaced is
/// drawn at full strength.
pub open spec fn copied(read: CellRead, c: Colors<'_>, selected: bool) -> CellView {
    let (fg, bg) = colors_of(read.style, read.fg, read.bg, c);
    let forced = !graphics_glyph(read.text@) && read.readable != fg;
    CellView {
        text: read.text@,
        fg: if forced {
            read.readable
        } else {
            fg
        },
        bg,
        bold: read.style.bold,
        italic: read.style.italic,
        underline: underline_style(read.style.underline),
        underline_color: style_color(read.style.underline_color, c.palette@),
        strikethrough: read.style.strikethrough,
        overline: read.style.overline,
        faint: read.style.faint && !forced,
        blink: read.style.blink,
        invisible: read.style.invisible,
        bg_explicit: read.bg is Some,
        inverse: read.style.inverse,
        selected,
    }
}

/// Copy what was read of a cell into `dst`, reusing its text buffer. The cell
/// is not selected unless it was.
pub fn copy_cell(read: &CellRead, c: &Colors<'_>, dst: &mut Cell)
    ensures
        final(dst)@ == copied(*read, *c, old(dst).selected),
{
    let (mut fg, bg) = cell_colors(&read.style, read.fg, read.bg, c);
    clear_text(&mut dst.text);
    let mut i: usize = 0;
    while i < read.text.len()
        invariant
            i <= read.text@.len(),
            dst.text@ == read.text@.take(i as int),
            dst.selected == old(dst).selected,
        decreases read.text@.len() - i,
    {
        push_char(&mut dst.text, read.text[i]);
        assert(read.text@.take(i + 1) =~= read.text@.take(i as int).push(read.text@[i as int]));
        i += 1;
    }
    assert(read.text@.take(read.text@.len() as int) =~= read.text@);
    let mut faint = read.style.faint;
    if !is_graphics_element(read.text.as_slice()) && read.readable != fg {
        faint = false;
        fg = read.readable;
    }
    dst.fg = fg;
    dst.bg = bg;
    dst.bold = read.style.bold;
    dst.italic = read.style.italic;
    dst.underline = map_underline(read.style.underline);
    dst.underline_color = resolve_color(read.style.underline_color, c.palette);
    dst.strikethrough = read.style.strikethrough;
    dst.overline = read.style.overline;
    dst.faint = faint;
    dst.blink = read.style.blink;
    dst.invisible = read.style.invisible;
    dst.bg_explicit = read.bg.is_some();
    dst.inverse = read.style.inverse;
}

/// A cell that carries the default background draws none of its own, whatever
/// `inverse` does to its colours.
pub proof fn law_default_background_is_not_explicit(
    read: CellRead,
    c: Colors<'_>,
    selected: bool,
)
    requires
        read.bg is None,
    ensures
        !copied(read, c, selected).bg_explicit,
        read.style.inverse ==> colors_of(read.style, read.fg, read.bg, c).0 == c.default_bg,
        !read.style.inverse ==> copied(read, c, selected).bg == c.default_bg,
{
}

/// Reverse video swaps the two colours that the same cell has without it.
pub proof fn law_inverse_swaps_colors(
    style: Style,
    fg: Option<Rgb>,
    bg: Option<Rgb>,
    c: Colors<'_>,
)
    ensures
        ({
            let (a, b) = colors_of(Style { inverse: false, ..style }, fg, bg, c);
            let (p, q) = colors_of(Style { inverse: true, ..style }, fg, bg, c);
            p == b && q == a
        }),
{
}

/// Without a bold-colour policy, bold text keeps the colour it has without
/// being bold.
pub proof fn law_no_policy_keeps_bold_color(
    style: Style,
    fg: Option<Rgb>,
    bg: Option<Rgb>,
    c: Colors<'_>,
)
    requires
        c.bold == BoldColor::Off,
    ensures
        colors_of(Style { bold: true, ..style }, fg, bg, c) == colors_of(
            Style { bold: false, ..style },
            fg,
            bg,
            c,
        ),
{
}

/// A graphics glyph keeps its colour and its faintness, whatever minimum
/// contrast asks for.
pub proof fn law_graphics_glyph_keeps_color(read: CellRead, c: Colors<'_>, selected: bool)
    requires
        graphics_glyph(read.text@),
    ensures
        copied(read, c, selected).fg == colors_of(read.style, read.fg, read.bg, c).0,
        copied(read, c, selected).faint == read.style.faint,
{
}

/// A cell shows the text that was read, with the attributes of its style, and is
/// selected where it was said to be.
pub proof fn law_cell_shows_its_text_and_style(read: CellRead, c: Colors<'_>, selected: bool)
    ensures
        ({
            let v = copied(read, c, selected);
            let s = read.style;
            &&& v.text == read.text@
            &&& v.bold == s.bold && v.italic == s.italic
            &&& v.strikethrough == s.strikethrough && v.overline == s.overline
            &&& v.blink == s.blink && v.invisible == s.invisible && v.inverse == s.inverse
            &&& v.selected == selected
            &&& v.bg_explicit == (read.bg is Some)
        }),
{
}

/// Each kind of underline is drawn as that kind, one that is not known as a
/// single line, and in the colour that its style names, if it names one.
pub proof fn law_underline_is_drawn_as_asked(read: CellRead, c: Colors<'_>, selected: bool)
    ensures
        ({
            let v = copied(read, c, selected);
            let s = read.style;
            &&& (v.underline == UnderlineStyle::Off <==> s.underline == Underline::Off)
            &&& (v.underline == UnderlineStyle::Single <==> s.underline == Underline::Single
                || s.underline == Underline::Other)
            &&& (v.underline == UnderlineStyle::Double <==> s.underline == Underline::Double)
            &&& (v.underline == UnderlineStyle::Curly <==> s.underline == Underline::Curly)
            &&& (v.underline == UnderlineStyle::Dotted <==> s.underline == Underline::Dotted)
            &&& (v.underline == UnderlineStyle::Dashed <==> s.underline == Underline::Dashed)
            &&& (v.underline_color is None <==> s.underline_color == StyleColor::Unset)
            &&& s.underline_color matches StyleColor::Rgb(x) ==> v.underline_color == Some(x)
            &&& s.underline_color matches StyleColor::Palette(i) ==> v.underline_color == Some(
                c.palette@[i as int],
            )
        }),
{
}

/// Text that is neither bold nor in reverse video has the colours that were read,
/// and the defaults where none was.
pub proof fn law_plain_cell_has_its_own_colors(
    style: Style,
    fg: Option<Rgb>,
    bg: Option<Rgb>,
    c: Colors<'_>,
)
    requires
        !style.bold,
        !style.inverse,
    ensures
        fg matches Some(x) ==> colors_of(style, fg, bg, c).0 == x,
        fg is None ==> colors_of(style, fg, bg, c).0 == c.default_fg,
        bg matches Some(x) ==> colors_of(style, fg, bg, c).1 == x,
        bg is None ==> colors_of(style, fg, bg, c).1 == c.default_bg,
{
}

/// Under a bold-colour policy bold text in one of the first eight palette colours
/// takes the bright one eight places on, and text in another palette colour keeps
/// its own. Text in the default colour takes the policy's colour, where it has
/// one, and any other text keeps its own.
pub proof fn law_bold_text_follows_the_policy(
    style: Style,
    fg: Option<Rgb>,
    bg: Option<Rgb>,
    c: Colors<'_>,
)
    requires
        style.bold,
        !style.inverse,
        c.bold != BoldColor::Off,
    ensures
        ({
            let own = if fg is Some {
                fg->0
            } else {
                c.default_fg
            };
            let shown = colors_of(style, fg, bg, c).0;
            &&& style.fg_color matches StyleColor::Palette(i) ==> shown == (if i < 8 {
                c.palette@[i + 8]
            } else {
                own
            })
            &&& c.bold == BoldColor::Bright && !(style.fg_color is Palette) ==> shown == own
            &&& c.bold matches BoldColor::Color(x) ==> style.fg_color == StyleColor::Unset ==> shown
                == x
            &&& c.bold matches BoldColor::Color(x) ==> style.fg_color is Rgb ==> shown == (if own
                == c.default_fg {
                x
            } else {
                own
            })
        }),
{
}

/// Reverse video shows the foreground as background and the background as
/// foreground, for every cell drawn.
pub proof fn law_reverse_video_shows_the_foreground_behind(
    read: CellRead,
    c: Colors<'_>,
    selected: bool,
)
    requires
        !read.style.bold,
        read.style.inverse,
    ensures
        read.fg matches Some(x) ==> copied(read, c, selected).bg == x,
        read.fg is None ==> copied(read, c, selected).bg == c.default_fg,
        graphics_glyph(read.text@) ==> (read.bg matches Some(x) ==> copied(read, c, selected).fg
            == x),
{
}

/// Text is drawn in the colour that minimum contrast asks for, and is faint only
/// where its style is and that colour is its own.
pub proof fn law_text_is_readable(read: CellRead, c: Colors<'_>, selected: bool)
    requires
        !graphics_glyph(read.text@),
    ensures
        copied(read, c, selected).fg == read.readable,
        copied(read, c, selected).faint == (read.style.faint && read.readable == colors_of(
            read.style,
            read.fg,
            read.bg,
            c,
        ).0),
{
}

/// Box drawing, block elements, the two blocks of legacy computing and Powerline
/// are graphics; no other character is, nor a cell without text.
pub proof fn law_graphics_glyphs(c: char, rest: Seq<char>)
    ensures
        !graphics_glyph(Seq::empty()),
        graphics_glyph(seq![c] + rest) <==> (0x2500 <= c as int <= 0x257f || 0x2580 <= c as int
            <= 0x259f || 0x1fb00 <= c as int <= 0x1fbff || 0x1cc00 <= c as int <= 0x1cebf || 0xe0b0
            <= c as int <= 0xe0d7),
{
    assert((seq![c] + rest)[0] == c);
}

/// What is said of a cell is said of its own fields, each of the field of its name.
pub proof fn law_cell_shows_its_fields(x: Cell)
    ensures
        x@.text == x.text@,
        x@.fg == x.fg,
        x@.bg == x.bg,
        x@.bold == x.bold,
        x@.italic == x.italic,
        x@.underline == x.underline,
        x@.underline_color == x.underline_color,
        x@.strikethrough == x.strikethrough,
        x@.overline == x.overline,
        x@.faint == x.faint,
        x@.blink == x.blink,
        x@.invisible == x.invisible,
        x@.bg_explicit == x.bg_explicit,
        x@.inverse == x.inverse,
        x@.selected == x.selected,
{
}

} // verus!
