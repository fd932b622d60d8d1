//! The settings, their defaults, and what a program knows of its surroundings.

use crate::config::color::{
    ansi16, giest_ansi16, palette_over, xterm_palette, ColorNames, TerminalColor,
};
use crate::config::entry::{PaletteEntry, PaletteEntryView};
use crate::config::flags::{
    AppNotifications, BellFeatures, NotifyOnCommandFinishAction, ScrollToBottom, ShellFeatures,
    SyntheticStyle,
};
use crate::config::grammar::{map_views, ClipboardMap, ClipboardMapView};
use crate::config::lines::{
    input_views, opt_view, FontStyle, FontStyleView, InputSource, InputView, Located, LocatedView,
};
use crate::config::set::{
    pairs, texts, FontVariation, MetricModifier, ModifierView, MouseScrollMultiplier, ScrollView,
    VariationView,
};
use crate::config::values::{
    BackgroundBlur, BackgroundImageFit, BackgroundImagePosition, ClipboardAccess, ClipboardPolicy,
    ConfirmClose, ConptyPassthrough, CopyOnSelect, CustomShaderAnimation, MiddleClickAction,
    MouseShiftCapture, NewTabPosition, NotifyOnCommandFinish, OscColorReportFormat, PaddingBalance,
    ResizeOverlay, ResizeOverlayPosition, RightClickAction, Scrollbar, ShellIntegration, ShowTabBar,
    WindowDecoration, WindowSaveState, WindowTheme,
};
use crate::engine::{BoldColor, CursorShape, Rgb};
use vstd::prelude::*;

verus! {

/// What a configuration is read in: the user's home directory, and the colours
/// that have names.
#[derive(Clone, Debug)]
pub struct Surroundings {
    pub home: Option<String>,
    pub colors: ColorNames,
}

/// `Surroundings` as sequences.
pub ghost struct SurroundingsView {
    pub home: Option<Seq<char>>,
    pub colors: Seq<(Seq<char>, Rgb)>,
}

impl View for Surroundings {
    type V = SurroundingsView;

    open spec fn view(&self) -> SurroundingsView {
        SurroundingsView { home: opt_view(self.home), colors: self.colors@ }
    }
}

/// One `font-codepoint-map` line: ranges forced to a named family.
#[derive(Clone, Debug, PartialEq, Eq)]
pub struct FontCodepointMap {
    pub ranges: Vec<(u32, u32)>,
    pub family: String,
}

/// A `FontCodepointMap` as sequences.
pub ghost struct FontMapView {
    pub ranges: Seq<(u32, u32)>,
    pub family: Seq<char>,
}

impl View for FontCodepointMap {
    type V = FontMapView;

    open spec fn view(&self) -> FontMapView {
        FontMapView { ranges: self.ranges@, family: self.family@ }
    }
}

/// The whole family of metric adjustments.
#[derive(Clone, Debug, PartialEq, Eq)]
pub struct MetricAdjust {
    pub cell_width: MetricModifier,
    pub cell_height: MetricModifier,
    pub font_baseline: MetricModifier,
    pub underline_position: MetricModifier,
    pub underline_thickness: MetricModifier,
    pub strikethrough_position: MetricModifier,
    pub strikethrough_thickness: MetricModifier,
    pub overline_position: MetricModifier,
    pub overline_thickness: MetricModifier,
    pub cursor_thickness: MetricModifier,
    pub cursor_height: MetricModifier,
    pub box_thickness: MetricModifier,
    pub icon_height: MetricModifier,
}

/// A `MetricAdjust` as sequences.
pub ghost struct AdjustView {
    pub cell_width: ModifierView,
    pub cell_height: ModifierView,
    pub font_baseline: ModifierView,
    pub underline_position: ModifierView,
    pub underline_thickness: ModifierView,
    pub strikethrough_position: ModifierView,
    pub strikethrough_thickness: ModifierView,
    pub overline_position: ModifierView,
    pub overline_thickness: ModifierView,
    pub cursor_thickness: ModifierView,
    pub cursor_height: ModifierView,
    pub box_thickness: ModifierView,
    pub icon_height: ModifierView,
}

impl View for MetricAdjust {
    type V = AdjustView;

    open spec fn view(&self) -> AdjustView {
        AdjustView {
            cell_width: self.cell_width@,
            cell_height: self.cell_height@,
            font_baseline: self.font_baseline@,
            underline_position: self.underline_position@,
            underline_thickness: self.underline_thickness@,
            strikethrough_position: self.strikethrough_position@,
            strikethrough_thickness: self.strikethrough_thickness@,
            overline_position: self.overline_position@,
            overline_thickness: self.overline_thickness@,
            cursor_thickness: self.cursor_thickness@,
            cursor_height: self.cursor_height@,
            box_thickness: self.box_thickness@,
            icon_height: self.icon_height@,
        }
    }
}

/// No adjustment at all.
pub open spec fn adjust_unset() -> AdjustView {
    AdjustView {
        cell_width: ModifierView::Unset,
        cell_height: ModifierView::Unset,
        font_baseline: ModifierView::Unset,
        underline_position: ModifierView::Unset,
        underline_thickness: ModifierView::Unset,
        strikethrough_position: ModifierView::Unset,
        strikethrough_thickness: ModifierView::Unset,
        overline_position: ModifierView::Unset,
        overline_thickness: ModifierView::Unset,
        cursor_thickness: ModifierView::Unset,
        cursor_height: ModifierView::Unset,
        box_thickness: ModifierView::Unset,
        icon_height: ModifierView::Unset,
    }
}

impl MetricAdjust {
    /// No adjustment at all.
    pub fn unset() -> (r: Self)
        ensures
            r@ == adjust_unset(),
    {
        MetricAdjust {
            cell_width: MetricModifier::Unset,
            cell_height: MetricModifier::Unset,
            font_baseline: MetricModifier::Unset,
            underline_position: MetricModifier::Unset,
            underline_thickness: MetricModifier::Unset,
            strikethrough_position: MetricModifier::Unset,
            strikethrough_thickness: MetricModifier::Unset,
            overline_position: MetricModifier::Unset,
            overline_thickness: MetricModifier::Unset,
            cursor_thickness: MetricModifier::Unset,
            cursor_height: MetricModifier::Unset,
            box_thickness: MetricModifier::Unset,
            icon_height: MetricModifier::Unset,
        }
    }
}

/// An optional path as sequences.
pub open spec fn located_view(p: Option<Located>) -> Option<LocatedView> {
    match p {
        Some(l) => Some(l@),
        None => None,
    }
}

/// Font styles as sequences.
pub open spec fn styles(v: Seq<FontStyle>) -> Seq<FontStyleView> {
    Seq::new(v.len(), |i: int| v[i]@)
}

/// One slot's axes as sequences.
pub open spec fn axes(v: Seq<FontVariation>) -> Seq<VariationView> {
    Seq::new(v.len(), |i: int| v[i]@)
}

/// Every slot's axes as sequences.
pub open spec fn variations(v: Seq<Vec<FontVariation>>) -> Seq<Seq<VariationView>> {
    Seq::new(v.len(), |i: int| axes(v[i]@))
}

/// Palette rows as sequences.
pub open spec fn rows(v: Seq<PaletteEntry>) -> Seq<PaletteEntryView> {
    Seq::new(v.len(), |i: int| v[i]@)
}

/// Font maps as sequences.
pub open spec fn font_maps(v: Seq<FontCodepointMap>) -> Seq<FontMapView> {
    Seq::new(v.len(), |i: int| v[i]@)
}

/// Fonts and shaping.
#[derive(Clone, Debug)]
pub struct FontSettings {
    /// Font sizes given since the last reset, in points; the last one above zero counts.
    pub font_points: Vec<String>,
    /// Font families in order; the first that resolves is the primary.
    pub font_family: Vec<String>,
    /// Whether missing styles may be synthesized.
    pub font_synthetic_style: SyntheticStyle,
    /// Family of one style.
    pub font_family_bold: Option<String>,
    /// Family of one style.
    pub font_family_italic: Option<String>,
    /// Family of one style.
    pub font_family_bold_italic: Option<String>,
    /// OpenType features applied while shaping.
    pub font_features: Vec<String>,
    /// Styles by slot: regular, bold, italic, bold-italic.
    pub font_styles: [FontStyle; 4],
    /// Variable-font axes by slot.
    pub font_variations: [Vec<FontVariation>; 4],
    /// Coverage gamma of text.
    pub text_gamma: Option<String>,
    /// Families forced for ranges.
    pub font_codepoint_map: Vec<FontCodepointMap>,
    /// Shape the cursor cell on its own.
    pub font_shaping_break_cursor: bool,
    /// Thicken glyphs.
    pub font_thicken: bool,
    /// By how much.
    pub font_thicken_strength: u8,
}

/// `FontSettings` as sequences.
pub ghost struct FontsView {
    pub font_points: Seq<Seq<char>>,
    pub font_family: Seq<Seq<char>>,
    pub font_synthetic_style: SyntheticStyle,
    pub font_family_bold: Option<Seq<char>>,
    pub font_family_italic: Option<Seq<char>>,
    pub font_family_bold_italic: Option<Seq<char>>,
    pub font_features: Seq<Seq<char>>,
    pub font_styles: Seq<FontStyleView>,
    pub font_variations: Seq<Seq<VariationView>>,
    pub text_gamma: Option<Seq<char>>,
    pub font_codepoint_map: Seq<FontMapView>,
    pub font_shaping_break_cursor: bool,
    pub font_thicken: bool,
    pub font_thicken_strength: u8,
}

impl View for FontSettings {
    type V = FontsView;

    open spec fn view(&self) -> FontsView {
        FontsView {
            font_points: texts(self.font_points@),
            font_family: texts(self.font_family@),
            font_synthetic_style: self.font_synthetic_style,
            font_family_bold: opt_view(self.font_family_bold),
            font_family_italic: opt_view(self.font_family_italic),
            font_family_bold_italic: opt_view(self.font_family_bold_italic),
            font_features: texts(self.font_features@),
            font_styles: styles(self.font_styles@),
            font_variations: variations(self.font_variations@),
            text_gamma: opt_view(self.text_gamma),
            font_codepoint_map: font_maps(self.font_codepoint_map@),
            font_shaping_break_cursor: self.font_shaping_break_cursor,
            font_thicken: self.font_thicken,
            font_thicken_strength: self.font_thicken_strength,
        }
    }
}

/// The built-in fonts settings.
pub open spec fn fonts_defaults() -> FontsView {
    FontsView {
        font_points: Seq::empty(),
        font_family: Seq::empty(),
        font_synthetic_style: SyntheticStyle { bold: true, italic: true, bold_italic: true },
        font_family_bold: None,
        font_family_italic: None,
        font_family_bold_italic: None,
        font_features: Seq::empty(),
        font_styles: seq![
            FontStyleView::Default,
            FontStyleView::Default,
            FontStyleView::Default,
            FontStyleView::Default,
        ],
        font_variations: seq![Seq::empty(), Seq::empty(), Seq::empty(), Seq::empty()],
        text_gamma: None,
        font_codepoint_map: Seq::empty(),
        font_shaping_break_cursor: true,
        font_thicken: false,
        font_thicken_strength: 255,
    }
}

impl Default for FontSettings {
    fn default() -> (r: Self)
        ensures
            r@ == fonts_defaults(),
    {
        let c = FontSettings {
            font_points: Vec::new(),
            font_family: Vec::new(),
            font_synthetic_style: SyntheticStyle { bold: true, italic: true, bold_italic: true },
            font_family_bold: None,
            font_family_italic: None,
            font_family_bold_italic: None,
            font_features: Vec::new(),
            font_styles: [
                FontStyle::Default,
                FontStyle::Default,
                FontStyle::Default,
                FontStyle::Default,
            ],
            font_variations: [Vec::new(), Vec::new(), Vec::new(), Vec::new()],
            text_gamma: None,
            font_codepoint_map: Vec::new(),
            font_shaping_break_cursor: true,
            font_thicken: false,
            font_thicken_strength: 255,
        };
        proof {
            assert(c@.font_points =~= fonts_defaults().font_points);
            assert(c@.font_family =~= fonts_defaults().font_family);
            assert(c@.font_features =~= fonts_defaults().font_features);
            assert(c@.font_styles =~= fonts_defaults().font_styles);
            assert(c@.font_variations =~~= fonts_defaults().font_variations);
            assert(c@.font_codepoint_map =~= fonts_defaults().font_codepoint_map);
        }
        c
    }
}

/// Colours and the cursor.
#[derive(Clone, Debug)]
pub struct ColorSettings {
    /// A search highlight colour.
    pub search_bg: TerminalColor,
    /// A search highlight colour.
    pub search_fg: TerminalColor,
    /// A search highlight colour.
    pub search_selected_bg: TerminalColor,
    /// A search highlight colour.
    pub search_selected_fg: TerminalColor,
    /// Text colour under the cursor.
    pub cursor_text: Option<TerminalColor>,
    /// Colour of the gutter between splits.
    pub split_divider_color: Option<Rgb>,
    /// Default foreground.
    pub fg: Rgb,
    /// Default background.
    pub bg: Rgb,
    /// The 256-colour palette.
    pub palette: [Rgb; 256],
    /// Which palette indices were set, one bit each.
    pub palette_set: [u64; 4],
    /// Generate the upper palette from the base colours.
    pub palette_generate: bool,
    /// Generate it in the background's orientation.
    pub palette_harmonious: bool,
    /// Cursor colour.
    pub cursor: Option<Rgb>,
    /// Default cursor shape.
    pub cursor_style: CursorShape,
    /// Whether the default cursor blinks.
    pub cursor_style_blink: Option<bool>,
    /// Foreground policy for bold text.
    pub bold_color: BoldColor,
    /// Minimum contrast ratio.
    pub min_contrast: Option<String>,
    /// Cursor opacity.
    pub cursor_opacity: Option<String>,
    /// Opacity of faint text.
    pub faint_opacity: Option<String>,
    /// Background of selected cells.
    pub selection_bg: Rgb,
    /// Text colour over a selection.
    pub selection_fg: Option<Rgb>,
    /// Precision of colour replies.
    pub osc_color_report_format: OscColorReportFormat,
}

/// `ColorSettings` as sequences.
pub ghost struct ColorsView {
    pub search_bg: TerminalColor,
    pub search_fg: TerminalColor,
    pub search_selected_bg: TerminalColor,
    pub search_selected_fg: TerminalColor,
    pub cursor_text: Option<TerminalColor>,
    pub split_divider_color: Option<Rgb>,
    pub fg: Rgb,
    pub bg: Rgb,
    pub palette: Seq<Rgb>,
    pub palette_set: Seq<u64>,
    pub palette_generate: bool,
    pub palette_harmonious: bool,
    pub cursor: Option<Rgb>,
    pub cursor_style: CursorShape,
    pub cursor_style_blink: Option<bool>,
    pub bold_color: BoldColor,
    pub min_contrast: Option<Seq<char>>,
    pub cursor_opacity: Option<Seq<char>>,
    pub faint_opacity: Option<Seq<char>>,
    pub selection_bg: Rgb,
    pub selection_fg: Option<Rgb>,
    pub osc_color_report_format: OscColorReportFormat,
}

impl View for ColorSettings {
    type V = ColorsView;

    open spec fn view(&self) -> ColorsView {
        ColorsView {
            search_bg: self.search_bg,
            search_fg: self.search_fg,
            search_selected_bg: self.search_selected_bg,
            search_selected_fg: self.search_selected_fg,
            cursor_text: self.cursor_text,
            split_divider_color: self.split_divider_color,
            fg: self.fg,
            bg: self.bg,
            palette: self.palette@,
            palette_set: self.palette_set@,
            palette_generate: self.palette_generate,
            palette_harmonious: self.palette_harmonious,
            cursor: self.cursor,
            cursor_style: self.cursor_style,
            cursor_style_blink: self.cursor_style_blink,
            bold_color: self.bold_color,
            min_contrast: opt_view(self.min_contrast),
            cursor_opacity: opt_view(self.cursor_opacity),
            faint_opacity: opt_view(self.faint_opacity),
            selection_bg: self.selection_bg,
            selection_fg: self.selection_fg,
            osc_color_report_format: self.osc_color_report_format,
        }
    }
}

/// The built-in colors settings.
pub open spec fn colors_defaults() -> ColorsView {
    ColorsView {
        search_bg: TerminalColor::Color(Rgb { r: 255, g: 224, b: 130 }),
        search_fg: TerminalColor::Color(Rgb { r: 0, g: 0, b: 0 }),
        search_selected_bg: TerminalColor::Color(Rgb { r: 242, g: 165, b: 126 }),
        search_selected_fg: TerminalColor::Color(Rgb { r: 0, g: 0, b: 0 }),
        cursor_text: None,
        split_divider_color: None,
        fg: Rgb { r: 197, g: 200, b: 198 },
        bg: Rgb { r: 16, g: 18, b: 24 },
        palette: palette_over(ansi16()),
        palette_set: seq![0u64, 0u64, 0u64, 0u64],
        palette_generate: false,
        palette_harmonious: false,
        cursor: None,
        cursor_style: CursorShape::Block,
        cursor_style_blink: None,
        bold_color: BoldColor::Off,
        min_contrast: None,
        cursor_opacity: None,
        faint_opacity: None,
        selection_bg: Rgb { r: 56, g: 90, b: 156 },
        selection_fg: None,
        osc_color_report_format: OscColorReportFormat::Bits16,
    }
}

impl Default for ColorSettings {
    fn default() -> (r: Self)
        ensures
            r@ == colors_defaults(),
    {
        let c = ColorSettings {
            search_bg: TerminalColor::Color(Rgb { r: 255, g: 224, b: 130 }),
            search_fg: TerminalColor::Color(Rgb { r: 0, g: 0, b: 0 }),
            search_selected_bg: TerminalColor::Color(Rgb { r: 242, g: 165, b: 126 }),
            search_selected_fg: TerminalColor::Color(Rgb { r: 0, g: 0, b: 0 }),
            cursor_text: None,
            split_divider_color: None,
            fg: Rgb { r: 197, g: 200, b: 198 },
            bg: Rgb { r: 16, g: 18, b: 24 },
            palette: xterm_palette(giest_ansi16()),
            palette_set: [0, 0, 0, 0],
            palette_generate: false,
            palette_harmonious: false,
            cursor: None,
            cursor_style: CursorShape::Block,
            cursor_style_blink: None,
            bold_color: BoldColor::Off,
            min_contrast: None,
            cursor_opacity: None,
            faint_opacity: None,
            selection_bg: Rgb { r: 56, g: 90, b: 156 },
            selection_fg: None,
            osc_color_report_format: OscColorReportFormat::Bits16,
        };
        proof {
            assert(c@.palette =~= colors_defaults().palette);
            assert(c@.palette_set =~= colors_defaults().palette_set);
        }
        c
    }
}

/// The window's background.
#[derive(Clone, Debug)]
pub struct BackdropSettings {
    /// How leftover space is distributed.
    pub window_padding_balance: PaddingBalance,
    /// Padding left and right, in points.
    pub padding_x: Option<String>,
    /// Padding above and below, in points.
    pub padding_y: Option<String>,
    /// Light or dark chrome.
    pub window_theme: WindowTheme,
    /// Window background opacity.
    pub background_opacity: Option<String>,
    /// Extend the opacity to cells with their own background.
    pub background_opacity_cells: bool,
    /// Opacity of an unfocused split.
    pub unfocused_split_opacity: Option<String>,
    /// Colour that dims an unfocused split.
    pub unfocused_split_fill: Option<Rgb>,
    /// Backdrop blur.
    pub background_blur: BackgroundBlur,
    /// Image behind the grid.
    pub background_image: Option<String>,
    /// Opacity of that image.
    pub background_image_opacity: Option<String>,
    /// Where it sits.
    pub background_image_position: BackgroundImagePosition,
    /// How it is scaled.
    pub background_image_fit: BackgroundImageFit,
    /// Whether it is tiled.
    pub background_image_repeat: bool,
    /// Post-process shaders in order.
    pub custom_shaders: Vec<String>,
    /// Whether a shader animates.
    pub custom_shader_animation: CustomShaderAnimation,
}

/// `BackdropSettings` as sequences.
pub ghost struct BackdropView {
    pub window_padding_balance: PaddingBalance,
    pub padding_x: Option<Seq<char>>,
    pub padding_y: Option<Seq<char>>,
    pub window_theme: WindowTheme,
    pub background_opacity: Option<Seq<char>>,
    pub background_opacity_cells: bool,
    pub unfocused_split_opacity: Option<Seq<char>>,
    pub unfocused_split_fill: Option<Rgb>,
    pub background_blur: BackgroundBlur,
    pub background_image: Option<Seq<char>>,
    pub background_image_opacity: Option<Seq<char>>,
    pub background_image_position: BackgroundImagePosition,
    pub background_image_fit: BackgroundImageFit,
    pub background_image_repeat: bool,
    pub custom_shaders: Seq<Seq<char>>,
    pub custom_shader_animation: CustomShaderAnimation,
}

impl View for BackdropSettings {
    type V = BackdropView;

    open spec fn view(&self) -> BackdropView {
        BackdropView {
            window_padding_balance: self.window_padding_balance,
            padding_x: opt_view(self.padding_x),
            padding_y: opt_view(self.padding_y),
            window_theme: self.window_theme,
            background_opacity: opt_view(self.background_opacity),
            background_opacity_cells: self.background_opacity_cells,
            unfocused_split_opacity: opt_view(self.unfocused_split_opacity),
            unfocused_split_fill: self.unfocused_split_fill,
            background_blur: self.background_blur,
            background_image: opt_view(self.background_image),
            background_image_opacity: opt_view(self.background_image_opacity),
            background_image_position: self.background_image_position,
            background_image_fit: self.background_image_fit,
            background_image_repeat: self.background_image_repeat,
            custom_shaders: texts(self.custom_shaders@),
            custom_shader_animation: self.custom_shader_animation,
        }
    }
}

/// The built-in backdrop settings.
pub open spec fn backdrop_defaults() -> BackdropView {
    BackdropView {
        window_padding_balance: PaddingBalance::Off,
        padding_x: None,
        padding_y: None,
        window_theme: WindowTheme::Auto,
        background_opacity: None,
        background_opacity_cells: false,
        unfocused_split_opacity: None,
        unfocused_split_fill: None,
        background_blur: BackgroundBlur::Off,
        background_image: None,
        background_image_opacity: None,
        background_image_position: BackgroundImagePosition::Center,
        background_image_fit: BackgroundImageFit::Contain,
        background_image_repeat: false,
        custom_shaders: Seq::empty(),
        custom_shader_animation: CustomShaderAnimation::True,
    }
}

impl Default for BackdropSettings {
    fn default() -> (r: Self)
        ensures
            r@ == backdrop_defaults(),
    {
        let c = BackdropSettings {
            window_padding_balance: PaddingBalance::Off,
            padding_x: None,
            padding_y: None,
            window_theme: WindowTheme::Auto,
            background_opacity: None,
            background_opacity_cells: false,
            unfocused_split_opacity: None,
            unfocused_split_fill: None,
            background_blur: BackgroundBlur::Off,
            background_image: None,
            background_image_opacity: None,
            background_image_position: BackgroundImagePosition::Center,
            background_image_fit: BackgroundImageFit::Contain,
            background_image_repeat: false,
            custom_shaders: Vec::new(),
            custom_shader_animation: CustomShaderAnimation::True,
        };
        proof {
            assert(c@.custom_shaders =~= backdrop_defaults().custom_shaders);
        }
        c
    }
}

/// Windows, tabs and splits.
#[derive(Clone, Debug)]
pub struct WindowSettings {
    /// Where a new tab is inserted.
    pub new_tab_position: NewTabPosition,
    /// Directory new terminals start in.
    pub working_directory: Option<Located>,
    /// Caption and border.
    pub window_decoration: WindowDecoration,
    /// Caption colour.
    pub window_titlebar_background: Option<Rgb>,
    /// Caption text colour.
    pub window_titlebar_foreground: Option<Rgb>,
    /// When the tab strip is shown.
    pub window_show_tab_bar: ShowTabBar,
    /// Start maximized.
    pub maximize: bool,
    /// Start fullscreen.
    pub fullscreen: bool,
    /// A fixed window title.
    pub title: Option<String>,
    /// Show the working directory as subtitle.
    pub window_subtitle: bool,
    /// Font of the tab titles.
    pub window_title_font_family: Option<String>,
    /// Resize in whole cells.
    pub window_step_resize: bool,
    /// Present with vsync.
    pub window_vsync: bool,
}

/// `WindowSettings` as sequences.
pub ghost struct WindowsView {
    pub new_tab_position: NewTabPosition,
    pub working_directory: Option<LocatedView>,
    pub window_decoration: WindowDecoration,
    pub window_titlebar_background: Option<Rgb>,
    pub window_titlebar_foreground: Option<Rgb>,
    pub window_show_tab_bar: ShowTabBar,
    pub maximize: bool,
    pub fullscreen: bool,
    pub title: Option<Seq<char>>,
    pub window_subtitle: bool,
    pub window_title_font_family: Option<Seq<char>>,
    pub window_step_resize: bool,
    pub window_vsync: bool,
}

impl View for WindowSettings {
    type V = WindowsView;

    open spec fn view(&self) -> WindowsView {
        WindowsView {
            new_tab_position: self.new_tab_position,
            working_directory: located_view(self.working_directory),
            window_decoration: self.window_decoration,
            window_titlebar_background: self.window_titlebar_background,
            window_titlebar_foreground: self.window_titlebar_foreground,
            window_show_tab_bar: self.window_show_tab_bar,
            maximize: self.maximize,
            fullscreen: self.fullscreen,
            title: opt_view(self.title),
            window_subtitle: self.window_subtitle,
            window_title_font_family: opt_view(self.window_title_font_family),
            window_step_resize: self.window_step_resize,
            window_vsync: self.window_vsync,
        }
    }
}

/// The built-in windows settings.
pub open spec fn windows_defaults() -> WindowsView {
    WindowsView {
        new_tab_position: NewTabPosition::Current,
        working_directory: None,
        window_decoration: WindowDecoration::Auto,
        window_titlebar_background: None,
        window_titlebar_foreground: None,
        window_show_tab_bar: ShowTabBar::Always,
        maximize: false,
        fullscreen: false,
        title: None,
        window_subtitle: false,
        window_title_font_family: None,
        window_step_resize: false,
        window_vsync: true,
    }
}

impl Default for WindowSettings {
    fn default() -> (r: Self)
        ensures
            r@ == windows_defaults(),
    {
        let c = WindowSettings {
            new_tab_position: NewTabPosition::Current,
            working_directory: None,
            window_decoration: WindowDecoration::Auto,
            window_titlebar_background: None,
            window_titlebar_foreground: None,
            window_show_tab_bar: ShowTabBar::Always,
            maximize: false,
            fullscreen: false,
            title: None,
            window_subtitle: false,
            window_title_font_family: None,
            window_step_resize: false,
            window_vsync: true,
        };
        c
    }
}

/// How long windows live.
#[derive(Clone, Debug)]
pub struct LifetimeSettings {
    /// When closing is confirmed.
    pub confirm_close: ConfirmClose,
    /// Whether the layout survives a quit.
    pub window_save_state: WindowSaveState,
    /// Quit after the last window closes.
    pub quit_after_last_window_closed: bool,
    /// How long after, in milliseconds.
    pub quit_after_last_window_closed_delay_ms: Option<u64>,
    /// Open a window at startup.
    pub initial_window: bool,
    /// Keep a zoomed split while navigating.
    pub split_preserve_zoom_navigation: bool,
}

/// `LifetimeSettings` as sequences.
pub ghost struct LifetimeView {
    pub confirm_close: ConfirmClose,
    pub window_save_state: WindowSaveState,
    pub quit_after_last_window_closed: bool,
    pub quit_after_last_window_closed_delay_ms: Option<u64>,
    pub initial_window: bool,
    pub split_preserve_zoom_navigation: bool,
}

impl View for LifetimeSettings {
    type V = LifetimeView;

    open spec fn view(&self) -> LifetimeView {
        LifetimeView {
            confirm_close: self.confirm_close,
            window_save_state: self.window_save_state,
            quit_after_last_window_closed: self.quit_after_last_window_closed,
            quit_after_last_window_closed_delay_ms: self.quit_after_last_window_closed_delay_ms,
            initial_window: self.initial_window,
            split_preserve_zoom_navigation: self.split_preserve_zoom_navigation,
        }
    }
}

/// The built-in lifetime settings.
pub open spec fn lifetime_defaults() -> LifetimeView {
    LifetimeView {
        confirm_close: ConfirmClose::WhenBusy,
        window_save_state: WindowSaveState::Default,
        quit_after_last_window_closed: true,
        quit_after_last_window_closed_delay_ms: None,
        initial_window: true,
        split_preserve_zoom_navigation: false,
    }
}

impl Default for LifetimeSettings {
    fn default() -> (r: Self)
        ensures
            r@ == lifetime_defaults(),
    {
        let c = LifetimeSettings {
            confirm_close: ConfirmClose::WhenBusy,
            window_save_state: WindowSaveState::Default,
            quit_after_last_window_closed: true,
            quit_after_last_window_closed_delay_ms: None,
            initial_window: true,
            split_preserve_zoom_navigation: false,
        };
        c
    }
}

/// Window geometry and overlays.
#[derive(Clone, Debug)]
pub struct LayoutSettings {
    /// Quick terminal edges given since the last reset, as written.
    pub quick_terminal_position: Vec<String>,
    /// Quick terminal sizes given since the last reset, as written.
    pub quick_terminal_size: Vec<String>,
    /// Hide the quick terminal when it loses focus.
    pub quick_terminal_autohide: bool,
    /// Slide durations given since the last reset, in seconds; the last finite
    /// one not below zero counts.
    pub quick_terminal_animation_duration: Vec<String>,
    /// When the size overlay shows.
    pub resize_overlay: ResizeOverlay,
    /// Where it sits.
    pub resize_overlay_position: ResizeOverlayPosition,
    /// How long it stays, in milliseconds.
    pub resize_overlay_duration_ms: u64,
    /// Whether panes show a scrollbar.
    pub scrollbar: Scrollbar,
    /// Initial width in cells; zero leaves it to the system.
    pub window_width: u32,
    /// Initial height in cells.
    pub window_height: u32,
    /// Initial position in pixels.
    pub window_position_x: Option<i16>,
    /// Initial position in pixels.
    pub window_position_y: Option<i16>,
    /// A new tab inherits the directory.
    pub tab_inherit_working_directory: bool,
    /// A new split inherits the directory.
    pub split_inherit_working_directory: bool,
    /// A new window inherits the directory.
    pub window_inherit_working_directory: bool,
}

/// `LayoutSettings` as sequences.
pub ghost struct LayoutView {
    pub quick_terminal_position: Seq<Seq<char>>,
    pub quick_terminal_size: Seq<Seq<char>>,
    pub quick_terminal_autohide: bool,
    pub quick_terminal_animation_duration: Seq<Seq<char>>,
    pub resize_overlay: ResizeOverlay,
    pub resize_overlay_position: ResizeOverlayPosition,
    pub resize_overlay_duration_ms: u64,
    pub scrollbar: Scrollbar,
    pub window_width: u32,
    pub window_height: u32,
    pub window_position_x: Option<i16>,
    pub window_position_y: Option<i16>,
    pub tab_inherit_working_directory: bool,
    pub split_inherit_working_directory: bool,
    pub window_inherit_working_directory: bool,
}

impl View for LayoutSettings {
    type V = LayoutView;

    open spec fn view(&self) -> LayoutView {
        LayoutView {
            quick_terminal_position: texts(self.quick_terminal_position@),
            quick_terminal_size: texts(self.quick_terminal_size@),
            quick_terminal_autohide: self.quick_terminal_autohide,
            quick_terminal_animation_duration: texts(self.quick_terminal_animation_duration@),
            resize_overlay: self.resize_overlay,
            resize_overlay_position: self.resize_overlay_position,
            resize_overlay_duration_ms: self.resize_overlay_duration_ms,
            scrollbar: self.scrollbar,
            window_width: self.window_width,
            window_height: self.window_height,
            window_position_x: self.window_position_x,
            window_position_y: self.window_position_y,
            tab_inherit_working_directory: self.tab_inherit_working_directory,
            split_inherit_working_directory: self.split_inherit_working_directory,
            window_inherit_working_directory: self.window_inherit_working_directory,
        }
    }
}

/// The built-in geometry settings.
pub open spec fn geometry_defaults() -> LayoutView {
    LayoutView {
        quick_terminal_position: Seq::empty(),
        quick_terminal_size: Seq::empty(),
        quick_terminal_autohide: false,
        quick_terminal_animation_duration: Seq::empty(),
        resize_overlay: ResizeOverlay::AfterFirst,
        resize_overlay_position: ResizeOverlayPosition::Center,
        resize_overlay_duration_ms: 750,
        scrollbar: Scrollbar::System,
        window_width: 0,
        window_height: 0,
        window_position_x: None,
        window_position_y: None,
        tab_inherit_working_directory: true,
        split_inherit_working_directory: true,
        window_inherit_working_directory: true,
    }
}

impl Default for LayoutSettings {
    fn default() -> (r: Self)
        ensures
            r@ == geometry_defaults(),
    {
        let c = LayoutSettings {
            quick_terminal_position: Vec::new(),
            quick_terminal_size: Vec::new(),
            quick_terminal_autohide: false,
            quick_terminal_animation_duration: Vec::new(),
            resize_overlay: ResizeOverlay::AfterFirst,
            resize_overlay_position: ResizeOverlayPosition::Center,
            resize_overlay_duration_ms: 750,
            scrollbar: Scrollbar::System,
            window_width: 0,
            window_height: 0,
            window_position_x: None,
            window_position_y: None,
            tab_inherit_working_directory: true,
            split_inherit_working_directory: true,
            window_inherit_working_directory: true,
        };
        proof {
            assert(c@.quick_terminal_position =~= geometry_defaults().quick_terminal_position);
            assert(c@.quick_terminal_size =~= geometry_defaults().quick_terminal_size);
            assert(
                c@.quick_terminal_animation_duration =~= geometry_defaults().quick_terminal_animation_duration
            );
        }
        c
    }
}

/// Selection and links.
#[derive(Clone, Debug)]
pub struct SelectionSettings {
    /// Characters that end a word; empty means the engine's own.
    pub selection_word_chars: Vec<char>,
    /// Clear the selection on typing.
    pub selection_clear_on_typing: bool,
    /// Clear the selection after an explicit copy.
    pub selection_clear_on_copy: bool,
    /// Where a finished selection is copied.
    pub copy_on_select: CopyOnSelect,
    /// What a right-click does.
    pub right_click_action: RightClickAction,
    /// What a middle-click does.
    pub middle_click_action: MiddleClickAction,
    /// Hyperlinks are clickable.
    pub link_osc8: bool,
    /// Bare URLs are clickable.
    pub link_url: bool,
}

/// `SelectionSettings` as sequences.
pub ghost struct SelectionView {
    pub selection_word_chars: Seq<char>,
    pub selection_clear_on_typing: bool,
    pub selection_clear_on_copy: bool,
    pub copy_on_select: CopyOnSelect,
    pub right_click_action: RightClickAction,
    pub middle_click_action: MiddleClickAction,
    pub link_osc8: bool,
    pub link_url: bool,
}

impl View for SelectionSettings {
    type V = SelectionView;

    open spec fn view(&self) -> SelectionView {
        SelectionView {
            selection_word_chars: self.selection_word_chars@,
            selection_clear_on_typing: self.selection_clear_on_typing,
            selection_clear_on_copy: self.selection_clear_on_copy,
            copy_on_select: self.copy_on_select,
            right_click_action: self.right_click_action,
            middle_click_action: self.middle_click_action,
            link_osc8: self.link_osc8,
            link_url: self.link_url,
        }
    }
}

/// The built-in selection settings.
pub open spec fn selection_defaults() -> SelectionView {
    SelectionView {
        selection_word_chars: Seq::empty(),
        selection_clear_on_typing: true,
        selection_clear_on_copy: false,
        copy_on_select: CopyOnSelect::Off,
        right_click_action: RightClickAction::ContextMenu,
        middle_click_action: MiddleClickAction::PrimaryPaste,
        link_osc8: true,
        link_url: true,
    }
}

impl Default for SelectionSettings {
    fn default() -> (r: Self)
        ensures
            r@ == selection_defaults(),
    {
        let c = SelectionSettings {
            selection_word_chars: Vec::new(),
            selection_clear_on_typing: true,
            selection_clear_on_copy: false,
            copy_on_select: CopyOnSelect::Off,
            right_click_action: RightClickAction::ContextMenu,
            middle_click_action: MiddleClickAction::PrimaryPaste,
            link_osc8: true,
            link_url: true,
        };
        proof {
            assert(c@.selection_word_chars =~= selection_defaults().selection_word_chars);
        }
        c
    }
}

/// The mouse.
#[derive(Clone, Debug)]
pub struct MouseSettings {
    /// Who gets Shift+click.
    pub mouse_shift_capture: MouseShiftCapture,
    /// Milliseconds between repeated clicks; zero is the system's.
    pub click_repeat_interval: u32,
    /// Move the cursor by clicking.
    pub cursor_click_to_move: bool,
    /// Hide the pointer while typing.
    pub mouse_hide_while_typing: bool,
    /// Programs may receive mouse events.
    pub mouse_reporting: bool,
    /// Wheel-distance multipliers.
    pub mouse_scroll_multiplier: MouseScrollMultiplier,
    /// When the viewport snaps back.
    pub scroll_to_bottom: ScrollToBottom,
    /// Focus the split under the pointer.
    pub focus_follows_mouse: bool,
}

/// `MouseSettings` as sequences.
pub ghost struct MouseView {
    pub mouse_shift_capture: MouseShiftCapture,
    pub click_repeat_interval: u32,
    pub cursor_click_to_move: bool,
    pub mouse_hide_while_typing: bool,
    pub mouse_reporting: bool,
    pub mouse_scroll_multiplier: ScrollView,
    pub scroll_to_bottom: ScrollToBottom,
    pub focus_follows_mouse: bool,
}

impl View for MouseSettings {
    type V = MouseView;

    open spec fn view(&self) -> MouseView {
        MouseView {
            mouse_shift_capture: self.mouse_shift_capture,
            click_repeat_interval: self.click_repeat_interval,
            cursor_click_to_move: self.cursor_click_to_move,
            mouse_hide_while_typing: self.mouse_hide_while_typing,
            mouse_reporting: self.mouse_reporting,
            mouse_scroll_multiplier: self.mouse_scroll_multiplier@,
            scroll_to_bottom: self.scroll_to_bottom,
            focus_follows_mouse: self.focus_follows_mouse,
        }
    }
}

/// The built-in mouse settings.
pub open spec fn mouse_defaults() -> MouseView {
    MouseView {
        mouse_shift_capture: MouseShiftCapture::False,
        click_repeat_interval: 0,
        cursor_click_to_move: true,
        mouse_hide_while_typing: false,
        mouse_reporting: true,
        mouse_scroll_multiplier: ScrollView { precision: None, discrete: None },
        scroll_to_bottom: ScrollToBottom { keystroke: true, output: false },
        focus_follows_mouse: false,
    }
}

impl Default for MouseSettings {
    fn default() -> (r: Self)
        ensures
            r@ == mouse_defaults(),
    {
        let c = MouseSettings {
            mouse_shift_capture: MouseShiftCapture::False,
            click_repeat_interval: 0,
            cursor_click_to_move: true,
            mouse_hide_while_typing: false,
            mouse_reporting: true,
            mouse_scroll_multiplier: MouseScrollMultiplier { precision: None, discrete: None },
            scroll_to_bottom: ScrollToBottom { keystroke: true, output: false },
            focus_follows_mouse: false,
        };
        c
    }
}

/// The clipboard.
#[derive(Clone, Debug)]
pub struct ClipboardSettings {
    /// Replacements in copied text.
    pub clipboard_codepoint_map: Vec<ClipboardMap>,
    /// Clipboard permissions and paste protection.
    pub policy: ClipboardPolicy,
}

/// `ClipboardSettings` as sequences.
pub ghost struct ClipboardView {
    pub clipboard_codepoint_map: Seq<ClipboardMapView>,
    pub policy: ClipboardPolicy,
}

impl View for ClipboardSettings {
    type V = ClipboardView;

    open spec fn view(&self) -> ClipboardView {
        ClipboardView {
            clipboard_codepoint_map: map_views(self.clipboard_codepoint_map@),
            policy: self.policy,
        }
    }
}

/// The built-in clipboard settings.
pub open spec fn clipboard_defaults() -> ClipboardView {
    ClipboardView {
        clipboard_codepoint_map: Seq::empty(),
        policy: ClipboardPolicy {
            read: ClipboardAccess::Ask,
            write: ClipboardAccess::Allow,
            trim_trailing_spaces: true,
            paste_protection: true,
            paste_bracketed_safe: true,
            write_limit: Some(67_108_864),
        },
    }
}

impl Default for ClipboardSettings {
    fn default() -> (r: Self)
        ensures
            r@ == clipboard_defaults(),
    {
        let c = ClipboardSettings {
            clipboard_codepoint_map: Vec::new(),
            policy: ClipboardPolicy {
                read: ClipboardAccess::Ask,
                write: ClipboardAccess::Allow,
                trim_trailing_spaces: true,
                paste_protection: true,
                paste_bracketed_safe: true,
                write_limit: Some(67_108_864),
            },
        };
        proof {
            assert(c@.clipboard_codepoint_map =~= clipboard_defaults().clipboard_codepoint_map);
        }
        c
    }
}

/// The terminal engine.
#[derive(Clone, Debug)]
pub struct EngineSettings {
    /// Scrollback per pane, in bytes.
    pub scrollback_limit: usize,
    /// Scrollback per pane, in lines.
    pub scrollback_limit_lines: Option<usize>,
    /// Compress scrollback.
    pub scrollback_compression: bool,
    /// Answer title queries.
    pub title_report: bool,
    /// Honour the keyboard lock mode.
    pub vt_kam_allowed: bool,
    /// Measure graphemes as Unicode does.
    pub grapheme_unicode: bool,
    /// Bytes of image data per screen; zero turns images off.
    pub image_storage_limit: u32,
    /// Which pseudoconsole carries the shell.
    pub conpty_passthrough: ConptyPassthrough,
    /// Programs may raise notifications.
    pub desktop_notifications: bool,
    /// Programs may show progress.
    pub progress_style: bool,
    /// Which bell effects fire.
    pub bell: BellFeatures,
    /// Which toasts are shown.
    pub app_notifications: AppNotifications,
    /// Sound of the bell.
    pub bell_audio_path: Option<String>,
    /// Its volume.
    pub bell_audio_volume: Option<String>,
}

/// `EngineSettings` as sequences.
pub ghost struct EngineView {
    pub scrollback_limit: usize,
    pub scrollback_limit_lines: Option<usize>,
    pub scrollback_compression: bool,
    pub title_report: bool,
    pub vt_kam_allowed: bool,
    pub grapheme_unicode: bool,
    pub image_storage_limit: u32,
    pub conpty_passthrough: ConptyPassthrough,
    pub desktop_notifications: bool,
    pub progress_style: bool,
    pub bell: BellFeatures,
    pub app_notifications: AppNotifications,
    pub bell_audio_path: Option<Seq<char>>,
    pub bell_audio_volume: Option<Seq<char>>,
}

impl View for EngineSettings {
    type V = EngineView;

    open spec fn view(&self) -> EngineView {
        EngineView {
            scrollback_limit: self.scrollback_limit,
            scrollback_limit_lines: self.scrollback_limit_lines,
            scrollback_compression: self.scrollback_compression,
            title_report: self.title_report,
            vt_kam_allowed: self.vt_kam_allowed,
            grapheme_unicode: self.grapheme_unicode,
            image_storage_limit: self.image_storage_limit,
            conpty_passthrough: self.conpty_passthrough,
            desktop_notifications: self.desktop_notifications,
            progress_style: self.progress_style,
            bell: self.bell,
            app_notifications: self.app_notifications,
            bell_audio_path: opt_view(self.bell_audio_path),
            bell_audio_volume: opt_view(self.bell_audio_volume),
        }
    }
}

/// The built-in engine settings.
pub open spec fn engine_defaults() -> EngineView {
    EngineView {
        scrollback_limit: 10_000,
        scrollback_limit_lines: None,
        scrollback_compression: true,
        title_report: false,
        vt_kam_allowed: false,
        grapheme_unicode: true,
        image_storage_limit: 320_000_000,
        conpty_passthrough: ConptyPassthrough::Auto,
        desktop_notifications: true,
        progress_style: true,
        bell: BellFeatures {
            system: false,
            audio: false,
            attention: true,
            title: true,
            border: false,
        },
        app_notifications: AppNotifications { clipboard_copy: true, config_reload: true },
        bell_audio_path: None,
        bell_audio_volume: None,
    }
}

impl Default for EngineSettings {
    fn default() -> (r: Self)
        ensures
            r@ == engine_defaults(),
    {
        let c = EngineSettings {
            scrollback_limit: 10_000,
            scrollback_limit_lines: None,
            scrollback_compression: true,
            title_report: false,
            vt_kam_allowed: false,
            grapheme_unicode: true,
            image_storage_limit: 320_000_000,
            conpty_passthrough: ConptyPassthrough::Auto,
            desktop_notifications: true,
            progress_style: true,
            bell: BellFeatures {
                system: false,
                audio: false,
                attention: true,
                title: true,
                border: false,
            },
            app_notifications: AppNotifications { clipboard_copy: true, config_reload: true },
            bell_audio_path: None,
            bell_audio_volume: None,
        };
        c
    }
}

/// Commands, keys and their notifications.
#[derive(Clone, Debug)]
pub struct CommandSettings {
    /// Key remaps in order: from and to. Later ones win for the same key.
    pub key_remap: Vec<(String, String)>,
    /// Whether the palette shows its built-in rows.
    pub palette_defaults: bool,
    /// Custom palette rows.
    pub palette_entries: Vec<PaletteEntry>,
    /// Default shell.
    pub shell: Option<String>,
    /// Keybind overrides: trigger and action.
    pub keybinds: Vec<(String, String)>,
    /// When a finished command notifies.
    pub notify_on_command_finish: NotifyOnCommandFinish,
    /// How it notifies.
    pub notify_on_command_finish_action: NotifyOnCommandFinishAction,
    /// How long it must have run, in milliseconds.
    pub notify_on_command_finish_after_ms: u64,
    /// How long an operation stays undoable, in milliseconds.
    pub undo_timeout_ms: u64,
    /// Keep a pane open after its shell exits.
    pub wait_after_command: bool,
    /// Which shell integration is injected.
    pub shell_integration: ShellIntegration,
    /// What it does.
    pub shell_integration_features: ShellFeatures,
    /// A failure this soon is abnormal, in milliseconds.
    pub abnormal_command_exit_runtime_ms: u32,
    /// Extra environment of spawned shells, in order.
    pub env: Vec<(String, String)>,
    /// Data written to each new shell.
    pub input: Vec<InputSource>,
    /// Command of the first surface.
    pub initial_command: Option<String>,
}

/// `CommandSettings` as sequences.
pub ghost struct CommandsView {
    pub key_remap: Seq<(Seq<char>, Seq<char>)>,
    pub palette_defaults: bool,
    pub palette_entries: Seq<PaletteEntryView>,
    pub shell: Option<Seq<char>>,
    pub keybinds: Seq<(Seq<char>, Seq<char>)>,
    pub notify_on_command_finish: NotifyOnCommandFinish,
    pub notify_on_command_finish_action: NotifyOnCommandFinishAction,
    pub notify_on_command_finish_after_ms: u64,
    pub undo_timeout_ms: u64,
    pub wait_after_command: bool,
    pub shell_integration: ShellIntegration,
    pub shell_integration_features: ShellFeatures,
    pub abnormal_command_exit_runtime_ms: u32,
    pub env: Seq<(Seq<char>, Seq<char>)>,
    pub input: Seq<InputView>,
    pub initial_command: Option<Seq<char>>,
}

impl View for CommandSettings {
    type V = CommandsView;

    open spec fn view(&self) -> CommandsView {
        CommandsView {
            key_remap: pairs(self.key_remap@),
            palette_defaults: self.palette_defaults,
            palette_entries: rows(self.palette_entries@),
            shell: opt_view(self.shell),
            keybinds: pairs(self.keybinds@),
            notify_on_command_finish: self.notify_on_command_finish,
            notify_on_command_finish_action: self.notify_on_command_finish_action,
            notify_on_command_finish_after_ms: self.notify_on_command_finish_after_ms,
            undo_timeout_ms: self.undo_timeout_ms,
            wait_after_command: self.wait_after_command,
            shell_integration: self.shell_integration,
            shell_integration_features: self.shell_integration_features,
            abnormal_command_exit_runtime_ms: self.abnormal_command_exit_runtime_ms,
            env: pairs(self.env@),
            input: input_views(self.input@),
            initial_command: opt_view(self.initial_command),
        }
    }
}

/// The built-in commands settings.
pub open spec fn commands_defaults() -> CommandsView {
    CommandsView {
        key_remap: Seq::empty(),
        palette_defaults: true,
        palette_entries: Seq::empty(),
        shell: None,
        keybinds: Seq::empty(),
        notify_on_command_finish: NotifyOnCommandFinish::Never,
        notify_on_command_finish_action: NotifyOnCommandFinishAction { bell: true, notify: false },
        notify_on_command_finish_after_ms: 5_000,
        undo_timeout_ms: 5_000,
        wait_after_command: false,
        shell_integration: ShellIntegration::Detect,
        shell_integration_features: ShellFeatures {
            cursor: true,
            sudo: false,
            title: true,
            ssh_env: false,
            ssh_terminfo: false,
            path: true,
        },
        abnormal_command_exit_runtime_ms: 250,
        env: Seq::empty(),
        input: Seq::empty(),
        initial_command: None,
    }
}

impl Default for CommandSettings {
    fn default() -> (r: Self)
        ensures
            r@ == commands_defaults(),
    {
        let c = CommandSettings {
            key_remap: Vec::new(),
            palette_defaults: true,
            palette_entries: Vec::new(),
            shell: None,
            keybinds: Vec::new(),
            notify_on_command_finish: NotifyOnCommandFinish::Never,
            notify_on_command_finish_action: NotifyOnCommandFinishAction {
                bell: true,
                notify: false,
            },
            notify_on_command_finish_after_ms: 5_000,
            undo_timeout_ms: 5_000,
            wait_after_command: false,
            shell_integration: ShellIntegration::Detect,
            shell_integration_features: ShellFeatures {
                cursor: true,
                sudo: false,
                title: true,
                ssh_env: false,
                ssh_terminfo: false,
                path: true,
            },
            abnormal_command_exit_runtime_ms: 250,
            env: Vec::new(),
            input: Vec::new(),
            initial_command: None,
        };
        proof {
            assert(c@.key_remap =~= commands_defaults().key_remap);
            assert(c@.palette_entries =~= commands_defaults().palette_entries);
            assert(c@.keybinds =~= commands_defaults().keybinds);
            assert(c@.env =~= commands_defaults().env);
            assert(c@.input =~= commands_defaults().input);
        }
        c
    }
}

/// User-facing configuration.
#[derive(Clone, Debug)]
pub struct Config {
    /// Fonts and shaping.
    pub fonts: FontSettings,
    /// The whole family of metric adjustments.
    pub adjust: MetricAdjust,
    /// Colours and the cursor.
    pub colors: ColorSettings,
    /// The window's background.
    pub backdrop: BackdropSettings,
    /// Windows, tabs and splits.
    pub windows: WindowSettings,
    /// How long windows live.
    pub lifetime: LifetimeSettings,
    /// Window geometry and overlays.
    pub layout: LayoutSettings,
    /// Selection and links.
    pub selection: SelectionSettings,
    /// The mouse.
    pub mouse: MouseSettings,
    /// The clipboard.
    pub clipboard: ClipboardSettings,
    /// The terminal engine.
    pub engine: EngineSettings,
    /// Commands, keys and their notifications.
    pub commands: CommandSettings,
    /// Files to load after this body; empty once a load is done.
    pub config_file: Vec<String>,
    /// Problems met while loading, in order.
    pub diagnostics: Vec<String>,
}

/// A `Config` as sequences.
pub ghost struct ConfigView {
    pub fonts: FontsView,
    pub adjust: AdjustView,
    pub colors: ColorsView,
    pub backdrop: BackdropView,
    pub windows: WindowsView,
    pub lifetime: LifetimeView,
    pub layout: LayoutView,
    pub selection: SelectionView,
    pub mouse: MouseView,
    pub clipboard: ClipboardView,
    pub engine: EngineView,
    pub commands: CommandsView,
    pub config_file: Seq<Seq<char>>,
    pub diagnostics: Seq<Seq<char>>,
}

impl View for Config {
    type V = ConfigView;

    open spec fn view(&self) -> ConfigView {
        ConfigView {
            fonts: self.fonts@,
            adjust: self.adjust@,
            colors: self.colors@,
            backdrop: self.backdrop@,
            windows: self.windows@,
            lifetime: self.lifetime@,
            layout: self.layout@,
            selection: self.selection@,
            mouse: self.mouse@,
            clipboard: self.clipboard@,
            engine: self.engine@,
            commands: self.commands@,
            config_file: texts(self.config_file@),
            diagnostics: texts(self.diagnostics@),
        }
    }
}

/// The built-in settings.
pub open spec fn defaults() -> ConfigView {
    ConfigView {
        fonts: fonts_defaults(),
        adjust: adjust_unset(),
        colors: colors_defaults(),
        backdrop: backdrop_defaults(),
        windows: windows_defaults(),
        lifetime: lifetime_defaults(),
        layout: geometry_defaults(),
        selection: selection_defaults(),
        mouse: mouse_defaults(),
        clipboard: clipboard_defaults(),
        engine: engine_defaults(),
        commands: commands_defaults(),
        config_file: Seq::empty(),
        diagnostics: Seq::empty(),
    }
}

impl Default for Config {
    /// The built-in settings.
    fn default() -> (r: Self)
        ensures
            r@ == defaults(),
    {
        let c = Config {
            fonts: FontSettings::default(),
            adjust: MetricAdjust::unset(),
            colors: ColorSettings::default(),
            backdrop: BackdropSettings::default(),
            windows: WindowSettings::default(),
            lifetime: LifetimeSettings::default(),
            layout: LayoutSettings::default(),
            selection: SelectionSettings::default(),
            mouse: MouseSettings::default(),
            clipboard: ClipboardSettings::default(),
            engine: EngineSettings::default(),
            commands: CommandSettings::default(),
            config_file: Vec::new(),
            diagnostics: Vec::new(),
        };
        proof {
            assert(c@.config_file =~= Seq::empty());
            assert(c@.diagnostics =~= Seq::empty());
        }
        c
    }
}

/// What is said of a surroundings is said of its own fields, each of the field of its name.
pub proof fn law_surroundings_shows_its_fields(x: Surroundings)
    ensures
        x@.home == opt_view(x.home),
        x@.colors == x.colors@,
{
}

/// What is said of a font codepoint map is said of its own fields, each of the field of its name.
pub proof fn law_font_codepoint_map_shows_its_fields(x: FontCodepointMap)
    ensures
        x@.ranges == x.ranges@,
        x@.family == x.family@,
{
}

/// What is said of a metric adjust is said of its own fields, each of the field of its name.
pub proof fn law_metric_adjust_shows_its_fields(x: MetricAdjust)
    ensures
        x@.cell_width == x.cell_width@,
        x@.cell_height == x.cell_height@,
        x@.font_baseline == x.font_baseline@,
        x@.underline_position == x.underline_position@,
        x@.underline_thickness == x.underline_thickness@,
        x@.strikethrough_position == x.strikethrough_position@,
        x@.strikethrough_thickness == x.strikethrough_thickness@,
        x@.overline_position == x.overline_position@,
        x@.overline_thickness == x.overline_thickness@,
        x@.cursor_thickness == x.cursor_thickness@,
        x@.cursor_height == x.cursor_height@,
        x@.box_thickness == x.box_thickness@,
        x@.icon_height == x.icon_height@,
{
}

/// What is said of a font settings is said of its own fields, each of the field of its name.
pub proof fn law_font_settings_shows_its_fields(x: FontSettings)
    ensures
        x@.font_points == texts(x.font_points@),
        x@.font_family == texts(x.font_family@),
        x@.font_synthetic_style == x.font_synthetic_style,
        x@.font_family_bold == opt_view(x.font_family_bold),
        x@.font_family_italic == opt_view(x.font_family_italic),
        x@.font_family_bold_italic == opt_view(x.font_family_bold_italic),
        x@.font_features == texts(x.font_features@),
        x@.font_styles == styles(x.font_styles@),
        x@.font_variations == variations(x.font_variations@),
        x@.text_gamma == opt_view(x.text_gamma),
        x@.font_codepoint_map == font_maps(x.font_codepoint_map@),
        x@.font_shaping_break_cursor == x.font_shaping_break_cursor,
        x@.font_thicken == x.font_thicken,
        x@.font_thicken_strength == x.font_thicken_strength,
{
}

/// What is said of a color settings is said of its own fields, each of the field of its name.
pub proof fn law_color_settings_shows_its_fields(x: ColorSettings)
    ensures
        x@.search_bg == x.search_bg,
        x@.search_fg == x.search_fg,
        x@.search_selected_bg == x.search_selected_bg,
        x@.search_selected_fg == x.search_selected_fg,
        x@.cursor_text == x.cursor_text,
        x@.split_divider_color == x.split_divider_color,
        x@.fg == x.fg,
        x@.bg == x.bg,
        x@.palette == x.palette@,
        x@.palette_set == x.palette_set@,
        x@.palette_generate == x.palette_generate,
        x@.palette_harmonious == x.palette_harmonious,
        x@.cursor == x.cursor,
        x@.cursor_style == x.cursor_style,
        x@.cursor_style_blink == x.cursor_style_blink,
        x@.bold_color == x.bold_color,
        x@.min_contrast == opt_view(x.min_contrast),
        x@.cursor_opacity == opt_view(x.cursor_opacity),
        x@.faint_opacity == opt_view(x.faint_opacity),
        x@.selection_bg == x.selection_bg,
        x@.selection_fg == x.selection_fg,
        x@.osc_color_report_format == x.osc_color_report_format,
{
}

/// What is said of a backdrop settings is said of its own fields, each of the field of its name.
pub proof fn law_backdrop_settings_shows_its_fields(x: BackdropSettings)
    ensures
        x@.window_padding_balance == x.window_padding_balance,
        x@.padding_x == opt_view(x.padding_x),
        x@.padding_y == opt_view(x.padding_y),
        x@.window_theme == x.window_theme,
        x@.background_opacity == opt_view(x.background_opacity),
        x@.background_opacity_cells == x.background_opacity_cells,
        x@.unfocused_split_opacity == opt_view(x.unfocused_split_opacity),
        x@.unfocused_split_fill == x.unfocused_split_fill,
        x@.background_blur == x.background_blur,
        x@.background_image == opt_view(x.background_image),
        x@.background_image_opacity == opt_view(x.background_image_opacity),
        x@.background_image_position == x.background_image_position,
        x@.background_image_fit == x.background_image_fit,
        x@.background_image_repeat == x.background_image_repeat,
        x@.custom_shaders == texts(x.custom_shaders@),
        x@.custom_shader_animation == x.custom_shader_animation,
{
}

/// What is said of a window settings is said of its own fields, each of the field of its name.
pub proof fn law_window_settings_shows_its_fields(x: WindowSettings)
    ensures
        x@.new_tab_position == x.new_tab_position,
        x@.working_directory == located_view(x.working_directory),
        x@.window_decoration == x.window_decoration,
        x@.window_titlebar_background == x.window_titlebar_background,
        x@.window_titlebar_foreground == x.window_titlebar_foreground,
        x@.window_show_tab_bar == x.window_show_tab_bar,
        x@.maximize == x.maximize,
        x@.fullscreen == x.fullscreen,
        x@.title == opt_view(x.title),
        x@.window_subtitle == x.window_subtitle,
        x@.window_title_font_family == opt_view(x.window_title_font_family),
        x@.window_step_resize == x.window_step_resize,
        x@.window_vsync == x.window_vsync,
{
}

/// What is said of a lifetime settings is said of its own fields, each of the field of its name.
pub proof fn law_lifetime_settings_shows_its_fields(x: LifetimeSettings)
    ensures
        x@.confirm_close == x.confirm_close,
        x@.window_save_state == x.window_save_state,
        x@.quit_after_last_window_closed == x.quit_after_last_window_closed,
        x@.quit_after_last_window_closed_delay_ms == x.quit_after_last_window_closed_delay_ms,
        x@.initial_window == x.initial_window,
        x@.split_preserve_zoom_navigation == x.split_preserve_zoom_navigation,
{
}

/// What is said of a layout settings is said of its own fields, each of the field of its name.
pub proof fn law_layout_settings_shows_its_fields(x: LayoutSettings)
    ensures
        x@.quick_terminal_position == texts(x.quick_terminal_position@),
        x@.quick_terminal_size == texts(x.quick_terminal_size@),
        x@.quick_terminal_autohide == x.quick_terminal_autohide,
        x@.quick_terminal_animation_duration == texts(x.quick_terminal_animation_duration@),
        x@.resize_overlay == x.resize_overlay,
        x@.resize_overlay_position == x.resize_overlay_position,
        x@.resize_overlay_duration_ms == x.resize_overlay_duration_ms,
        x@.scrollbar == x.scrollbar,
        x@.window_width == x.window_width,
        x@.window_height == x.window_height,
        x@.window_position_x == x.window_position_x,
        x@.window_position_y == x.window_position_y,
        x@.tab_inherit_working_directory == x.tab_inherit_working_directory,
        x@.split_inherit_working_directory == x.split_inherit_working_directory,
        x@.window_inherit_working_directory == x.window_inherit_working_directory,
{
}

/// What is said of a selection settings is said of its own fields, each of the field of its name.
pub proof fn law_selection_settings_shows_its_fields(x: SelectionSettings)
    ensures
        x@.selection_word_chars == x.selection_word_chars@,
        x@.selection_clear_on_typing == x.selection_clear_on_typing,
        x@.selection_clear_on_copy == x.selection_clear_on_copy,
        x@.copy_on_select == x.copy_on_select,
        x@.right_click_action == x.right_click_action,
        x@.middle_click_action == x.middle_click_action,
        x@.link_osc8 == x.link_osc8,
        x@.link_url == x.link_url,
{
}

/// What is said of a mouse settings is said of its own fields, each of the field of its name.
pub proof fn law_mouse_settings_shows_its_fields(x: MouseSettings)
    ensures
        x@.mouse_shift_capture == x.mouse_shift_capture,
        x@.click_repeat_interval == x.click_repeat_interval,
        x@.cursor_click_to_move == x.cursor_click_to_move,
        x@.mouse_hide_while_typing == x.mouse_hide_while_typing,
        x@.mouse_reporting == x.mouse_reporting,
        x@.mouse_scroll_multiplier == x.mouse_scroll_multiplier@,
        x@.scroll_to_bottom == x.scroll_to_bottom,
        x@.focus_follows_mouse == x.focus_follows_mouse,
{
}

/// What is said of a clipboard settings is said of its own fields, each of the field of its name.
pub proof fn law_clipboard_settings_shows_its_fields(x: ClipboardSettings)
    ensures
        x@.clipboard_codepoint_map == map_views(x.clipboard_codepoint_map@),
        x@.policy == x.policy,
{
}

/// What is said of an engine settings is said of its own fields, each of the field of its name.
pub proof fn law_engine_settings_shows_its_fields(x: EngineSettings)
    ensures
        x@.scrollback_limit == x.scrollback_limit,
        x@.scrollback_limit_lines == x.scrollback_limit_lines,
        x@.scrollback_compression == x.scrollback_compression,
        x@.title_report == x.title_report,
        x@.vt_kam_allowed == x.vt_kam_allowed,
        x@.grapheme_unicode == x.grapheme_unicode,
        x@.image_storage_limit == x.image_storage_limit,
        x@.conpty_passthrough == x.conpty_passthrough,
        x@.desktop_notifications == x.desktop_notifications,
        x@.progress_style == x.progress_style,
        x@.bell == x.bell,
        x@.app_notifications == x.app_notifications,
        x@.bell_audio_path == opt_view(x.bell_audio_path),
        x@.bell_audio_volume == opt_view(x.bell_audio_volume),
{
}

/// What is said of a command settings is said of its own fields, each of the field of its name.
pub proof fn law_command_settings_shows_its_fields(x: CommandSettings)
    ensures
        x@.key_remap == pairs(x.key_remap@),
        x@.palette_defaults == x.palette_defaults,
        x@.palette_entries == rows(x.palette_entries@),
        x@.shell == opt_view(x.shell),
        x@.keybinds == pairs(x.keybinds@),
        x@.notify_on_command_finish == x.notify_on_command_finish,
        x@.notify_on_command_finish_action == x.notify_on_command_finish_action,
        x@.notify_on_command_finish_after_ms == x.notify_on_command_finish_after_ms,
        x@.undo_timeout_ms == x.undo_timeout_ms,
        x@.wait_after_command == x.wait_after_command,
        x@.shell_integration == x.shell_integration,
        x@.shell_integration_features == x.shell_integration_features,
        x@.abnormal_command_exit_runtime_ms == x.abnormal_command_exit_runtime_ms,
        x@.env == pairs(x.env@),
        x@.input == input_views(x.input@),
        x@.initial_command == opt_view(x.initial_command),
{
}

/// What is said of a config is said of its own fields, each of the field of its name.
pub proof fn law_config_shows_its_fields(x: Config)
    ensures
        x@.fonts == x.fonts@,
        x@.adjust == x.adjust@,
        x@.colors == x.colors@,
        x@.backdrop == x.backdrop@,
        x@.windows == x.windows@,
        x@.lifetime == x.lifetime@,
        x@.layout == x.layout@,
        x@.selection == x.selection@,
        x@.mouse == x.mouse@,
        x@.clipboard == x.clipboard@,
        x@.engine == x.engine@,
        x@.commands == x.commands@,
        x@.config_file == texts(x.config_file@),
        x@.diagnostics == texts(x.diagnostics@),
{
}

} // verus!
