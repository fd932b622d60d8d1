//! The terminal model's vocabulary: colours, cells, keys and the mouse.

pub mod cells;
pub mod images;
pub mod png_decode;
pub mod screen;
pub mod selection;
pub mod snapshot;

pub use crate::engine::cells::Cell;
pub use crate::engine::selection::{SelectKind, SelectionAdjust};
pub use crate::engine::snapshot::GridSnapshot;
use std::sync::Arc;
use vstd::prelude::*;

verus! {

/// A 24-bit colour.
#[derive(Clone, Copy, Debug, PartialEq, Eq, Hash, Structural)]
pub struct Rgb {
    pub r: u8,
    pub g: u8,
    pub b: u8,
}

impl Rgb {
    /// The colour with these channels.
    pub fn new(r: u8, g: u8, b: u8) -> (c: Self)
        ensures
            c == (Rgb { r, g, b }),
    {
        Rgb { r, g, b }
    }
}

impl Default for Rgb {
    /// Black.
    fn default() -> (c: Self)
        ensures
            c == (Rgb { r: 0, g: 0, b: 0 }),
    {
        Rgb { r: 0, g: 0, b: 0 }
    }
}

/// Policy for the foreground of bold text.
#[derive(Clone, Copy, Debug, PartialEq, Eq, Structural)]
pub enum BoldColor {
    /// Bold text keeps the cell's own foreground.
    Off,
    /// Bold text in a standard ANSI colour takes the bright variant.
    Bright,
    /// Bold text takes this colour; an ANSI palette colour is still brightened.
    Color(Rgb),
}

impl Default for BoldColor {
    fn default() -> (c: Self)
        ensures
            c == BoldColor::Off,
    {
        BoldColor::Off
    }
}

/// Underline style (SGR 4 and its `4:n` variants).
#[derive(Clone, Copy, Debug, PartialEq, Eq, Structural)]
pub enum UnderlineStyle {
    Off,
    Single,
    Double,
    Curly,
    Dotted,
    Dashed,
}

impl Default for UnderlineStyle {
    fn default() -> (c: Self)
        ensures
            c == UnderlineStyle::Off,
    {
        UnderlineStyle::Off
    }
}

/// Cursor shape (DECSCUSR, or set by the program).
#[derive(Clone, Copy, Debug, PartialEq, Eq, Structural)]
pub enum CursorShape {
    Block,
    Bar,
    Underline,
    HollowBlock,
}

impl Default for CursorShape {
    fn default() -> (c: Self)
        ensures
            c == CursorShape::Block,
    {
        CursorShape::Block
    }
}

/// Pixels of one kitty graphics image, straight-alpha RGBA8.
#[derive(Clone, Debug, PartialEq, Eq)]
pub struct ImageData {
    pub width: u32,
    pub height: u32,
    /// `width * height * 4` bytes.
    pub rgba: Vec<u8>,
}

/// One kitty graphics placement, positioned relative to the viewport.
#[derive(Clone, Debug)]
pub struct ImagePlacement {
    pub image_id: u32,
    pub placement_id: u32,
    /// Shared with every other placement of this image.
    pub data: Arc<ImageData>,
    /// Viewport-relative top-left cell; `row` may lie above the viewport.
    pub col: i32,
    pub row: i32,
    /// Cells the placement spans.
    pub grid_cols: u32,
    pub grid_rows: u32,
    /// Pixel offset within the origin cell.
    pub x_offset: u32,
    pub y_offset: u32,
    /// Destination size in pixels.
    pub dest_w: u32,
    pub dest_h: u32,
    /// Source rectangle in image pixels.
    pub src_x: u32,
    pub src_y: u32,
    pub src_w: u32,
    pub src_h: u32,
    /// Below zero draws under text.
    pub z: i32,
    pub visible: bool,
}

/// One screen row as text: its characters, trailing blanks dropped, and the
/// grid column each of them came from.
#[derive(Clone, Debug)]
pub struct RowText {
    /// Screen row, 0 the oldest of the scrollback.
    pub row: u32,
    pub chars: Vec<char>,
    pub cols: Vec<u16>,
    /// The row continues onto the next.
    pub wrapped: bool,
}

/// Keyboard modifiers.
#[derive(Clone, Copy, Debug, PartialEq, Eq, Structural)]
pub struct KeyMods {
    pub shift: bool,
    pub ctrl: bool,
    pub alt: bool,
    pub sup: bool,
}

impl Default for KeyMods {
    /// None held.
    fn default() -> (m: Self)
        ensures
            m == (KeyMods { shift: false, ctrl: false, alt: false, sup: false }),
    {
        KeyMods { shift: false, ctrl: false, alt: false, sup: false }
    }
}

/// A physical key, named after the W3C `KeyboardEvent.code` values.
#[derive(Clone, Copy, Debug, PartialEq, Eq, Structural)]
pub enum KeyCode {
    A,
    B,
    C,
    D,
    E,
    F,
    G,
    H,
    I,
    J,
    K,
    L,
    M,
    N,
    O,
    P,
    Q,
    R,
    S,
    T,
    U,
    V,
    W,
    X,
    Y,
    Z,
    Digit0,
    Digit1,
    Digit2,
    Digit3,
    Digit4,
    Digit5,
    Digit6,
    Digit7,
    Digit8,
    Digit9,
    Enter,
    Tab,
    Backspace,
    Escape,
    Space,
    Delete,
    Insert,
    Home,
    End,
    PageUp,
    PageDown,
    ArrowUp,
    ArrowDown,
    ArrowLeft,
    ArrowRight,
    F1,
    F2,
    F3,
    F4,
    F5,
    F6,
    F7,
    F8,
    F9,
    F10,
    F11,
    F12,
    Minus,
    Equal,
    BracketLeft,
    BracketRight,
    Backslash,
    Semicolon,
    Quote,
    Backquote,
    Comma,
    Period,
    Slash,
    /// A configured catch-all; never a key event.
    CatchAll,
}

/// A keyboard event to be encoded for the terminal.
#[derive(Clone, Debug, PartialEq, Eq)]
pub struct KeyInput {
    pub code: KeyCode,
    /// Text the key produced, if any.
    pub text: Option<String>,
    pub mods: KeyMods,
    pub press: bool,
}

/// A mouse button; the wheel is two of them.
#[derive(Clone, Copy, Debug, PartialEq, Eq, Structural)]
pub enum MouseButton {
    Left,
    Middle,
    Right,
    WheelUp,
    WheelDown,
}

#[derive(Clone, Copy, Debug, PartialEq, Eq, Structural)]
pub enum MouseAction {
    Press,
    Release,
    Motion,
}

/// A mouse event to report to the program.
#[derive(Clone, Copy, Debug)]
pub struct MouseInput {
    pub action: MouseAction,
    pub button: Option<MouseButton>,
    /// Position in pixels from the grid's top-left.
    pub pos_px: (u32, u32),
    /// Cell size in pixels.
    pub cell_px: (u32, u32),
    /// Grid size in pixels.
    pub screen_px: (u32, u32),
    pub mods: KeyMods,
}

} // verus!
