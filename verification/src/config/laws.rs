//! What holds of every key and every configuration.

use crate::config::apply::{
    applied_key, backdrop_key, clipboard_key, colors_key, commands_key, engine_key,
    exit_runtime_or, fonts_key, geometry_key, lifetime_key, metrics_key, mouse_key,
    notify_action_or, palette_set_after, scrollback_bytes_or, selection_key, shell_features_or,
    supported, windows_key,
};
use crate::config::color::{color_value, palette_entry};
use crate::config::flags::{NotifyOnCommandFinishAction, ShellFeatures};
use crate::config::load::{
    applied_line, applied_lines, based, body_applied, index_set, parsed, without_bom, ThemeFile,
};
use crate::config::lines::{line_kind, Line};
use crate::config::parts::remaps_or;
use crate::config::set::{limit_or, switched};
use crate::config::settings::{
    adjust_unset, backdrop_defaults, clipboard_defaults, colors_defaults, commands_defaults,
    defaults, engine_defaults, fonts_defaults, geometry_defaults, lifetime_defaults, mouse_defaults,
    selection_defaults, windows_defaults, AdjustView, BackdropView, ClipboardView, ColorsView,
    CommandsView, ConfigView, EngineView, FontsView, LayoutView, LifetimeView, MouseView,
    SelectionView, SurroundingsView, WindowsView,
};
use crate::config::values::ShellIntegration;
use crate::config::words::shell_integration_or;
use crate::engine::Rgb;
use crate::text::{lines, lower, split, trim};
use vstd::prelude::*;

verus! {

/// An empty value resets these settings, whatever they are.
proof fn lemma_empty_resets()
    ensures
        forall|d: Option<usize>, c: Option<usize>| #[trigger] limit_or(Seq::empty(), d, c) == d,
        forall|c: usize| #[trigger] scrollback_bytes_or(Seq::empty(), c) == 10_000,
        forall|c: ShellIntegration| #[trigger]
            shell_integration_or(Seq::empty(), c) == ShellIntegration::Detect,
        forall|c: NotifyOnCommandFinishAction| #[trigger]
            notify_action_or(Seq::empty(), c)
                == commands_defaults().notify_on_command_finish_action,
        forall|c: u32| #[trigger] exit_runtime_or(Seq::empty(), c) == 250,
        forall|c: ShellFeatures| #[trigger]
            shell_features_or(Seq::empty(), c) == commands_defaults().shell_integration_features,
        forall|l: Seq<(Seq<char>, Seq<char>)>| #[trigger]
            remaps_or(l, Seq::empty()) == Seq::<(Seq<char>, Seq<char>)>::empty(),
{
    reveal(limit_or);
    reveal(scrollback_bytes_or);
    reveal(shell_integration_or);
    reveal(shell_features_or);
    reveal(remaps_or);
    reveal(notify_action_or);
    reveal(exit_runtime_or);
}

proof fn lemma_empty_switches_nothing(start: bool)
    ensures
        switched(split(Seq::empty(), ','), "navigation"@, "no-navigation"@, start) == start,
{
    reveal_strlit("navigation");
    reveal_strlit("no-navigation");
    reveal_strlit("true");
    reveal_strlit("false");
    let none = Seq::<char>::empty();
    assert(split(none, ',') =~= seq![none]);
    assert(trim(none) == none);
    assert(lower(none) =~= none);
    reveal_with_fuel(switched, 2);
    assert(seq![none].drop_last() =~= Seq::<Seq<char>>::empty());
}

#[verifier::spinoff_prover]
#[verifier::rlimit(100)]
proof fn lemma_fonts_start(d: Seq<Seq<char>>, key: Seq<char>, e: SurroundingsView)
    ensures
        fonts_key(fonts_defaults(), d, key, Seq::empty(), e) matches Some(n) ==> n == (
            fonts_defaults(),
            d,
        ),
{
    reveal(fonts_key);
    let c = fonts_defaults();
    assert(c.font_styles.update(0, c.font_styles[0]) =~= c.font_styles);
    assert(c.font_variations.update(0, Seq::empty()) =~= c.font_variations);
    assert(c.font_styles.update(1, c.font_styles[1]) =~= c.font_styles);
    assert(c.font_variations.update(1, Seq::empty()) =~= c.font_variations);
    assert(c.font_styles.update(2, c.font_styles[2]) =~= c.font_styles);
    assert(c.font_variations.update(2, Seq::empty()) =~= c.font_variations);
    assert(c.font_styles.update(3, c.font_styles[3]) =~= c.font_styles);
    assert(c.font_variations.update(3, Seq::empty()) =~= c.font_variations);
}

/// Resetting one of these keys takes back what a value of it set.
spec fn fonts_resets(
    c: FontsView,
    d: Seq<Seq<char>>,
    key: Seq<char>,
    v: Seq<char>,
    e: SurroundingsView,
) -> bool {
    match fonts_key(c, d, key, v, e) {
        Some(n) => match (
            fonts_key(n.0, n.1, key, Seq::empty(), e),
            fonts_key(c, d, key, Seq::empty(), e),
        ) {
            (Some(a), Some(b)) => a.0 == b.0,
            _ => false,
        },
        None => forall|m: Seq<Seq<char>>| #[trigger] fonts_key(c, m, key, Seq::empty(), e) is None,
    }
}

#[verifier::spinoff_prover]
#[verifier::rlimit(100)]
proof fn lemma_fonts_reset(
    c: FontsView,
    d: Seq<Seq<char>>,
    key: Seq<char>,
    v: Seq<char>,
    e: SurroundingsView,
)
    requires
        c.font_styles.len() == 4,
        c.font_variations.len() == 4,
    ensures
        fonts_resets(c, d, key, v, e),
{
    reveal(fonts_key);
    if key == "font-size"@ {
        assert(fonts_resets(c, d, key, v, e));
    } else if key == "font-family"@ {
        assert(fonts_resets(c, d, key, v, e));
    } else if key == "font-synthetic-style"@ {
        assert(fonts_resets(c, d, key, v, e));
    } else if key == "font-family-bold"@ {
        assert(fonts_resets(c, d, key, v, e));
    } else if key == "font-family-italic"@ {
        assert(fonts_resets(c, d, key, v, e));
    } else if key == "font-family-bold-italic"@ {
        assert(fonts_resets(c, d, key, v, e));
    } else if key == "font-feature"@ {
        assert(fonts_resets(c, d, key, v, e));
    } else if key == "font-style"@ {
        let (n, _) = fonts_key(c, d, key, v, e)->0;
        let x = crate::config::apply::font_style_or(Seq::empty());
        assert(n.font_styles.update(0, x) =~= c.font_styles.update(0, x));
        assert(fonts_resets(c, d, key, v, e));
    } else if key == "font-style-bold"@ {
        let (n, _) = fonts_key(c, d, key, v, e)->0;
        let x = crate::config::apply::font_style_or(Seq::empty());
        assert(n.font_styles.update(1, x) =~= c.font_styles.update(1, x));
        assert(fonts_resets(c, d, key, v, e));
    } else if key == "font-style-italic"@ {
        let (n, _) = fonts_key(c, d, key, v, e)->0;
        let x = crate::config::apply::font_style_or(Seq::empty());
        assert(n.font_styles.update(2, x) =~= c.font_styles.update(2, x));
        assert(fonts_resets(c, d, key, v, e));
    } else if key == "font-style-bold-italic"@ {
        let (n, _) = fonts_key(c, d, key, v, e)->0;
        let x = crate::config::apply::font_style_or(Seq::empty());
        assert(n.font_styles.update(3, x) =~= c.font_styles.update(3, x));
        assert(fonts_resets(c, d, key, v, e));
    } else if key == "font-variation"@ {
        let (n, _) = fonts_key(c, d, key, v, e)->0;
        let x = Seq::<crate::config::set::VariationView>::empty();
        assert(n.font_variations.update(0, x) =~= c.font_variations.update(0, x));
        assert(fonts_resets(c, d, key, v, e));
    } else if key == "font-variation-bold"@ {
        let (n, _) = fonts_key(c, d, key, v, e)->0;
        let x = Seq::<crate::config::set::VariationView>::empty();
        assert(n.font_variations.update(1, x) =~= c.font_variations.update(1, x));
        assert(fonts_resets(c, d, key, v, e));
    } else if key == "font-variation-italic"@ {
        let (n, _) = fonts_key(c, d, key, v, e)->0;
        let x = Seq::<crate::config::set::VariationView>::empty();
        assert(n.font_variations.update(2, x) =~= c.font_variations.update(2, x));
        assert(fonts_resets(c, d, key, v, e));
    } else if key == "font-variation-bold-italic"@ {
        let (n, _) = fonts_key(c, d, key, v, e)->0;
        let x = Seq::<crate::config::set::VariationView>::empty();
        assert(n.font_variations.update(3, x) =~= c.font_variations.update(3, x));
        assert(fonts_resets(c, d, key, v, e));
    } else if key == "font-codepoint-map"@ {
        assert(fonts_resets(c, d, key, v, e));
    } else if key == "font-shaping-break"@ {
        assert(fonts_resets(c, d, key, v, e));
    } else if key == "font-thicken"@ {
        assert(fonts_resets(c, d, key, v, e));
    } else if key == "font-thicken-strength"@ {
        assert(fonts_resets(c, d, key, v, e));
    } else if key == "text-gamma"@ {
        assert(fonts_resets(c, d, key, v, e));
    }
}

#[verifier::spinoff_prover]
#[verifier::rlimit(100)]
proof fn lemma_metrics_start(d: Seq<Seq<char>>, key: Seq<char>, e: SurroundingsView)
    ensures
        metrics_key(adjust_unset(), d, key, Seq::empty(), e) matches Some(n) ==> n == (
            adjust_unset(),
            d,
        ),
{
    reveal(metrics_key);
    let c = adjust_unset();
}

/// Resetting one of these keys takes back what a value of it set.
spec fn metrics_resets(
    c: AdjustView,
    d: Seq<Seq<char>>,
    key: Seq<char>,
    v: Seq<char>,
    e: SurroundingsView,
) -> bool {
    match metrics_key(c, d, key, v, e) {
        Some(n) => match (
            metrics_key(n.0, n.1, key, Seq::empty(), e),
            metrics_key(c, d, key, Seq::empty(), e),
        ) {
            (Some(a), Some(b)) => a.0 == b.0,
            _ => false,
        },
        None => forall|m: Seq<Seq<char>>| #[trigger] metrics_key(
            c,
            m,
            key,
            Seq::empty(),
            e,
        ) is None,
    }
}

#[verifier::spinoff_prover]
#[verifier::rlimit(100)]
proof fn lemma_metrics_reset(
    c: AdjustView,
    d: Seq<Seq<char>>,
    key: Seq<char>,
    v: Seq<char>,
    e: SurroundingsView,
)
    ensures
        metrics_resets(c, d, key, v, e),
{
    reveal(metrics_key);
    if key == "adjust-cell-width"@ {
        assert(metrics_resets(c, d, key, v, e));
    } else if key == "adjust-cell-height"@ {
        assert(metrics_resets(c, d, key, v, e));
    } else if key == "adjust-font-baseline"@ {
        assert(metrics_resets(c, d, key, v, e));
    } else if key == "adjust-underline-position"@ {
        assert(metrics_resets(c, d, key, v, e));
    } else if key == "adjust-underline-thickness"@ {
        assert(metrics_resets(c, d, key, v, e));
    } else if key == "adjust-strikethrough-position"@ {
        assert(metrics_resets(c, d, key, v, e));
    } else if key == "adjust-strikethrough-thickness"@ {
        assert(metrics_resets(c, d, key, v, e));
    } else if key == "adjust-overline-position"@ {
        assert(metrics_resets(c, d, key, v, e));
    } else if key == "adjust-overline-thickness"@ {
        assert(metrics_resets(c, d, key, v, e));
    } else if key == "adjust-cursor-thickness"@ {
        assert(metrics_resets(c, d, key, v, e));
    } else if key == "adjust-cursor-height"@ {
        assert(metrics_resets(c, d, key, v, e));
    } else if key == "adjust-box-thickness"@ {
        assert(metrics_resets(c, d, key, v, e));
    } else if key == "adjust-icon-height"@ {
        assert(metrics_resets(c, d, key, v, e));
    }
}

#[verifier::spinoff_prover]
#[verifier::rlimit(100)]
proof fn lemma_colors_start(d: Seq<Seq<char>>, key: Seq<char>, e: SurroundingsView)
    ensures
        colors_key(colors_defaults(), d, key, Seq::empty(), e) matches Some(n) ==> n == (
            colors_defaults(),
            d,
        ),
{
    reveal(colors_key);
    let c = colors_defaults();
}

/// Resetting one of these keys takes back what a value of it set.
spec fn colors_resets(
    c: ColorsView,
    d: Seq<Seq<char>>,
    key: Seq<char>,
    v: Seq<char>,
    e: SurroundingsView,
) -> bool {
    match colors_key(c, d, key, v, e) {
        Some(n) => match (
            colors_key(n.0, n.1, key, Seq::empty(), e),
            colors_key(c, d, key, Seq::empty(), e),
        ) {
            (Some(a), Some(b)) => a.0 == b.0,
            _ => false,
        },
        None => forall|m: Seq<Seq<char>>| #[trigger] colors_key(c, m, key, Seq::empty(), e) is None,
    }
}

#[verifier::spinoff_prover]
#[verifier::rlimit(100)]
proof fn lemma_colors_reset(
    c: ColorsView,
    d: Seq<Seq<char>>,
    key: Seq<char>,
    v: Seq<char>,
    e: SurroundingsView,
)
    ensures
        colors_resets(c, d, key, v, e),
{
    reveal(colors_key);
    if key == "search-background"@ {
        assert(colors_resets(c, d, key, v, e));
    } else if key == "search-foreground"@ {
        assert(colors_resets(c, d, key, v, e));
    } else if key == "search-selected-background"@ {
        assert(colors_resets(c, d, key, v, e));
    } else if key == "search-selected-foreground"@ {
        assert(colors_resets(c, d, key, v, e));
    } else if key == "cursor-text"@ {
        assert(colors_resets(c, d, key, v, e));
    } else if key == "split-divider-color"@ {
        assert(colors_resets(c, d, key, v, e));
    } else if key == "foreground"@ {
        assert(colors_resets(c, d, key, v, e));
    } else if key == "background"@ {
        assert(colors_resets(c, d, key, v, e));
    } else if key == "cursor-color"@ {
        assert(colors_resets(c, d, key, v, e));
    } else if key == "cursor-style"@ {
        assert(colors_resets(c, d, key, v, e));
    } else if key == "cursor-style-blink"@ {
        assert(colors_resets(c, d, key, v, e));
    } else if key == "bold-color"@ {
        assert(colors_resets(c, d, key, v, e));
    } else if key == "bold-is-bright"@ {
        assert(colors_resets(c, d, key, v, e));
    } else if key == "minimum-contrast"@ {
        assert(colors_resets(c, d, key, v, e));
    } else if key == "cursor-opacity"@ {
        assert(colors_resets(c, d, key, v, e));
    } else if key == "faint-opacity"@ {
        assert(colors_resets(c, d, key, v, e));
    } else if key == "palette"@ {
        assert(colors_resets(c, d, key, v, e));
    } else if key == "palette-generate"@ {
        assert(colors_resets(c, d, key, v, e));
    } else if key == "palette-harmonious"@ {
        assert(colors_resets(c, d, key, v, e));
    } else if key == "selection-background"@ {
        assert(colors_resets(c, d, key, v, e));
    } else if key == "selection-foreground"@ {
        assert(colors_resets(c, d, key, v, e));
    } else if key == "osc-color-report-format"@ {
        assert(colors_resets(c, d, key, v, e));
    }
}

#[verifier::spinoff_prover]
#[verifier::rlimit(100)]
proof fn lemma_backdrop_start(d: Seq<Seq<char>>, key: Seq<char>, e: SurroundingsView)
    ensures
        backdrop_key(backdrop_defaults(), d, key, Seq::empty(), e) matches Some(n) ==> n == (
            backdrop_defaults(),
            d,
        ),
{
    reveal(backdrop_key);
    let c = backdrop_defaults();
}

/// Resetting one of these keys takes back what a value of it set.
spec fn backdrop_resets(
    c: BackdropView,
    d: Seq<Seq<char>>,
    key: Seq<char>,
    v: Seq<char>,
    e: SurroundingsView,
) -> bool {
    match backdrop_key(c, d, key, v, e) {
        Some(n) => match (
            backdrop_key(n.0, n.1, key, Seq::empty(), e),
            backdrop_key(c, d, key, Seq::empty(), e),
        ) {
            (Some(a), Some(b)) => a.0 == b.0,
            _ => false,
        },
        None => forall|m: Seq<Seq<char>>| #[trigger] backdrop_key(
            c,
            m,
            key,
            Seq::empty(),
            e,
        ) is None,
    }
}

#[verifier::spinoff_prover]
#[verifier::rlimit(100)]
proof fn lemma_backdrop_reset(
    c: BackdropView,
    d: Seq<Seq<char>>,
    key: Seq<char>,
    v: Seq<char>,
    e: SurroundingsView,
)
    ensures
        backdrop_resets(c, d, key, v, e),
{
    reveal(backdrop_key);
    if key == "background-opacity"@ {
        assert(backdrop_resets(c, d, key, v, e));
    } else if key == "background-opacity-cells"@ {
        assert(backdrop_resets(c, d, key, v, e));
    } else if key == "unfocused-split-opacity"@ {
        assert(backdrop_resets(c, d, key, v, e));
    } else if key == "unfocused-split-fill"@ {
        assert(backdrop_resets(c, d, key, v, e));
    } else if key == "background-blur"@ {
        assert(backdrop_resets(c, d, key, v, e));
    } else if key == "background-image"@ {
        assert(backdrop_resets(c, d, key, v, e));
    } else if key == "background-image-opacity"@ {
        assert(backdrop_resets(c, d, key, v, e));
    } else if key == "background-image-position"@ {
        assert(backdrop_resets(c, d, key, v, e));
    } else if key == "background-image-fit"@ {
        assert(backdrop_resets(c, d, key, v, e));
    } else if key == "background-image-repeat"@ {
        assert(backdrop_resets(c, d, key, v, e));
    } else if key == "window-padding-x"@ {
        assert(backdrop_resets(c, d, key, v, e));
    } else if key == "window-padding-y"@ {
        assert(backdrop_resets(c, d, key, v, e));
    } else if key == "window-padding-balance"@ {
        assert(backdrop_resets(c, d, key, v, e));
    } else if key == "window-theme"@ {
        assert(backdrop_resets(c, d, key, v, e));
    } else if key == "custom-shader"@ {
        assert(backdrop_resets(c, d, key, v, e));
    } else if key == "custom-shader-animation"@ {
        assert(backdrop_resets(c, d, key, v, e));
    }
}

#[verifier::spinoff_prover]
#[verifier::rlimit(100)]
proof fn lemma_windows_start(d: Seq<Seq<char>>, key: Seq<char>, e: SurroundingsView)
    ensures
        windows_key(windows_defaults(), d, key, Seq::empty(), e) matches Some(n) ==> n == (
            windows_defaults(),
            d,
        ),
{
    reveal(windows_key);
    let c = windows_defaults();
}

/// Resetting one of these keys takes back what a value of it set.
spec fn windows_resets(
    c: WindowsView,
    d: Seq<Seq<char>>,
    key: Seq<char>,
    v: Seq<char>,
    e: SurroundingsView,
) -> bool {
    match windows_key(c, d, key, v, e) {
        Some(n) => match (
            windows_key(n.0, n.1, key, Seq::empty(), e),
            windows_key(c, d, key, Seq::empty(), e),
        ) {
            (Some(a), Some(b)) => a.0 == b.0,
            _ => false,
        },
        None => forall|m: Seq<Seq<char>>| #[trigger] windows_key(
            c,
            m,
            key,
            Seq::empty(),
            e,
        ) is None,
    }
}

/// Whether a key is one of the first of these keys.
spec fn early_windows_key(key: Seq<char>) -> bool {
    ||| key == "window-new-tab-position"@
    ||| key == "working-directory"@
    ||| key == "window-decoration"@
    ||| key == "window-titlebar-background"@
    ||| key == "window-titlebar-foreground"@
    ||| key == "window-show-tab-bar"@
}

#[verifier::spinoff_prover]
#[verifier::rlimit(100)]
proof fn lemma_early_windows_reset(
    c: WindowsView,
    d: Seq<Seq<char>>,
    key: Seq<char>,
    v: Seq<char>,
    e: SurroundingsView,
)
    requires
        early_windows_key(key),
    ensures
        windows_resets(c, d, key, v, e),
{
    reveal(windows_key);
    if key == "window-new-tab-position"@ {
        assert(windows_resets(c, d, key, v, e));
    } else if key == "working-directory"@ {
        assert(windows_resets(c, d, key, v, e));
    } else if key == "window-decoration"@ {
        assert(windows_resets(c, d, key, v, e));
    } else if key == "window-titlebar-background"@ {
        assert(windows_resets(c, d, key, v, e));
    } else if key == "window-titlebar-foreground"@ {
        assert(windows_resets(c, d, key, v, e));
    } else if key == "window-show-tab-bar"@ {
        assert(windows_resets(c, d, key, v, e));
    }
}

#[verifier::spinoff_prover]
#[verifier::rlimit(100)]
proof fn lemma_late_windows_reset(
    c: WindowsView,
    d: Seq<Seq<char>>,
    key: Seq<char>,
    v: Seq<char>,
    e: SurroundingsView,
)
    requires
        !early_windows_key(key),
    ensures
        windows_resets(c, d, key, v, e),
{
    reveal(windows_key);
    if key == "maximize"@ {
        assert(windows_resets(c, d, key, v, e));
    } else if key == "fullscreen"@ {
        assert(windows_resets(c, d, key, v, e));
    } else if key == "title"@ {
        assert(windows_resets(c, d, key, v, e));
    } else if key == "window-subtitle"@ {
        assert(windows_resets(c, d, key, v, e));
    } else if key == "window-title-font-family"@ {
        assert(windows_resets(c, d, key, v, e));
    } else if key == "window-step-resize"@ {
        assert(windows_resets(c, d, key, v, e));
    } else if key == "window-vsync"@ {
        assert(windows_resets(c, d, key, v, e));
    }
}

proof fn lemma_windows_reset(
    c: WindowsView,
    d: Seq<Seq<char>>,
    key: Seq<char>,
    v: Seq<char>,
    e: SurroundingsView,
)
    ensures
        windows_resets(c, d, key, v, e),
{
    if early_windows_key(key) {
        lemma_early_windows_reset(c, d, key, v, e);
    } else {
        lemma_late_windows_reset(c, d, key, v, e);
    }
}

#[verifier::spinoff_prover]
#[verifier::rlimit(100)]
proof fn lemma_lifetime_start(d: Seq<Seq<char>>, key: Seq<char>, e: SurroundingsView)
    ensures
        lifetime_key(lifetime_defaults(), d, key, Seq::empty(), e) matches Some(n) ==> n == (
            lifetime_defaults(),
            d,
        ),
{
    reveal(lifetime_key);
    let c = lifetime_defaults();
    lemma_empty_switches_nothing(false);
}

/// Resetting one of these keys takes back what a value of it set.
spec fn lifetime_resets(
    c: LifetimeView,
    d: Seq<Seq<char>>,
    key: Seq<char>,
    v: Seq<char>,
    e: SurroundingsView,
) -> bool {
    match lifetime_key(c, d, key, v, e) {
        Some(n) => match (
            lifetime_key(n.0, n.1, key, Seq::empty(), e),
            lifetime_key(c, d, key, Seq::empty(), e),
        ) {
            (Some(a), Some(b)) => a.0 == b.0,
            _ => false,
        },
        None => forall|m: Seq<Seq<char>>| #[trigger] lifetime_key(
            c,
            m,
            key,
            Seq::empty(),
            e,
        ) is None,
    }
}

#[verifier::spinoff_prover]
#[verifier::rlimit(100)]
proof fn lemma_lifetime_reset(
    c: LifetimeView,
    d: Seq<Seq<char>>,
    key: Seq<char>,
    v: Seq<char>,
    e: SurroundingsView,
)
    ensures
        lifetime_resets(c, d, key, v, e),
{
    reveal(lifetime_key);
    if key == "quit-after-last-window-closed"@ {
        assert(lifetime_resets(c, d, key, v, e));
    } else if key == "quit-after-last-window-closed-delay"@ {
        assert(lifetime_resets(c, d, key, v, e));
    } else if key == "initial-window"@ {
        assert(lifetime_resets(c, d, key, v, e));
    } else if key == "split-preserve-zoom"@ {
        assert(lifetime_resets(c, d, key, v, e));
    } else if key == "confirm-close-surface"@ {
        assert(lifetime_resets(c, d, key, v, e));
    } else if key == "window-save-state"@ {
        assert(lifetime_resets(c, d, key, v, e));
    }
}

#[verifier::spinoff_prover]
#[verifier::rlimit(100)]
proof fn lemma_geometry_start(d: Seq<Seq<char>>, key: Seq<char>, e: SurroundingsView)
    ensures
        geometry_key(geometry_defaults(), d, key, Seq::empty(), e) matches Some(n) ==> n == (
            geometry_defaults(),
            d,
        ),
{
    reveal(geometry_key);
    let c = geometry_defaults();
}

/// Resetting one of these keys takes back what a value of it set.
spec fn geometry_resets(
    c: LayoutView,
    d: Seq<Seq<char>>,
    key: Seq<char>,
    v: Seq<char>,
    e: SurroundingsView,
) -> bool {
    match geometry_key(c, d, key, v, e) {
        Some(n) => match (
            geometry_key(n.0, n.1, key, Seq::empty(), e),
            geometry_key(c, d, key, Seq::empty(), e),
        ) {
            (Some(a), Some(b)) => a.0 == b.0,
            _ => false,
        },
        None => forall|m: Seq<Seq<char>>| #[trigger] geometry_key(
            c,
            m,
            key,
            Seq::empty(),
            e,
        ) is None,
    }
}

#[verifier::spinoff_prover]
#[verifier::rlimit(100)]
proof fn lemma_geometry_reset(
    c: LayoutView,
    d: Seq<Seq<char>>,
    key: Seq<char>,
    v: Seq<char>,
    e: SurroundingsView,
)
    ensures
        geometry_resets(c, d, key, v, e),
{
    reveal(geometry_key);
    if key == "window-width"@ {
        assert(geometry_resets(c, d, key, v, e));
    } else if key == "window-height"@ {
        assert(geometry_resets(c, d, key, v, e));
    } else if key == "window-position-x"@ {
        assert(geometry_resets(c, d, key, v, e));
    } else if key == "window-position-y"@ {
        assert(geometry_resets(c, d, key, v, e));
    } else if key == "resize-overlay"@ {
        assert(geometry_resets(c, d, key, v, e));
    } else if key == "resize-overlay-position"@ {
        assert(geometry_resets(c, d, key, v, e));
    } else if key == "resize-overlay-duration"@ {
        assert(geometry_resets(c, d, key, v, e));
    } else if key == "scrollbar"@ {
        assert(geometry_resets(c, d, key, v, e));
    } else if key == "quick-terminal-position"@ {
        assert(geometry_resets(c, d, key, v, e));
    } else if key == "quick-terminal-size"@ {
        assert(geometry_resets(c, d, key, v, e));
    } else if key == "quick-terminal-screen"@ {
        assert(geometry_resets(c, d, key, v, e));
    } else if key == "quick-terminal-autohide"@ {
        assert(geometry_resets(c, d, key, v, e));
    } else if key == "quick-terminal-animation-duration"@ {
        assert(geometry_resets(c, d, key, v, e));
    } else if key == "tab-inherit-working-directory"@ {
        assert(geometry_resets(c, d, key, v, e));
    } else if key == "split-inherit-working-directory"@ {
        assert(geometry_resets(c, d, key, v, e));
    } else if key == "window-inherit-working-directory"@ {
        assert(geometry_resets(c, d, key, v, e));
    }
}

#[verifier::spinoff_prover]
#[verifier::rlimit(100)]
proof fn lemma_selection_start(d: Seq<Seq<char>>, key: Seq<char>, e: SurroundingsView)
    ensures
        selection_key(selection_defaults(), d, key, Seq::empty(), e) matches Some(n) ==> n == (
            selection_defaults(),
            d,
        ),
{
    reveal(selection_key);
    let c = selection_defaults();
}

/// Resetting one of these keys takes back what a value of it set.
spec fn selection_resets(
    c: SelectionView,
    d: Seq<Seq<char>>,
    key: Seq<char>,
    v: Seq<char>,
    e: SurroundingsView,
) -> bool {
    match selection_key(c, d, key, v, e) {
        Some(n) => match (
            selection_key(n.0, n.1, key, Seq::empty(), e),
            selection_key(c, d, key, Seq::empty(), e),
        ) {
            (Some(a), Some(b)) => a.0 == b.0,
            _ => false,
        },
        None => forall|m: Seq<Seq<char>>| #[trigger] selection_key(
            c,
            m,
            key,
            Seq::empty(),
            e,
        ) is None,
    }
}

#[verifier::spinoff_prover]
#[verifier::rlimit(100)]
proof fn lemma_selection_reset(
    c: SelectionView,
    d: Seq<Seq<char>>,
    key: Seq<char>,
    v: Seq<char>,
    e: SurroundingsView,
)
    ensures
        selection_resets(c, d, key, v, e),
{
    reveal(selection_key);
    if key == "selection-clear-on-typing"@ {
        assert(selection_resets(c, d, key, v, e));
    } else if key == "selection-clear-on-copy"@ {
        assert(selection_resets(c, d, key, v, e));
    } else if key == "selection-word-chars"@ {
        assert(selection_resets(c, d, key, v, e));
    } else if key == "copy-on-select"@ {
        assert(selection_resets(c, d, key, v, e));
    } else if key == "right-click-action"@ {
        assert(selection_resets(c, d, key, v, e));
    } else if key == "middle-click-action"@ {
        assert(selection_resets(c, d, key, v, e));
    } else if key == "link-osc8"@ {
        assert(selection_resets(c, d, key, v, e));
    } else if key == "link-url"@ {
        assert(selection_resets(c, d, key, v, e));
    }
}

#[verifier::spinoff_prover]
#[verifier::rlimit(100)]
proof fn lemma_mouse_start(d: Seq<Seq<char>>, key: Seq<char>, e: SurroundingsView)
    ensures
        mouse_key(mouse_defaults(), d, key, Seq::empty(), e) matches Some(n) ==> n == (
            mouse_defaults(),
            d,
        ),
{
    reveal(mouse_key);
    let c = mouse_defaults();
}

/// Resetting one of these keys takes back what a value of it set.
spec fn mouse_resets(
    c: MouseView,
    d: Seq<Seq<char>>,
    key: Seq<char>,
    v: Seq<char>,
    e: SurroundingsView,
) -> bool {
    match mouse_key(c, d, key, v, e) {
        Some(n) => match (
            mouse_key(n.0, n.1, key, Seq::empty(), e),
            mouse_key(c, d, key, Seq::empty(), e),
        ) {
            (Some(a), Some(b)) => a.0 == b.0,
            _ => false,
        },
        None => forall|m: Seq<Seq<char>>| #[trigger] mouse_key(c, m, key, Seq::empty(), e) is None,
    }
}

#[verifier::spinoff_prover]
#[verifier::rlimit(100)]
proof fn lemma_mouse_reset(
    c: MouseView,
    d: Seq<Seq<char>>,
    key: Seq<char>,
    v: Seq<char>,
    e: SurroundingsView,
)
    ensures
        mouse_resets(c, d, key, v, e),
{
    reveal(mouse_key);
    if key == "mouse-shift-capture"@ {
        assert(mouse_resets(c, d, key, v, e));
    } else if key == "mouse-hide-while-typing"@ {
        assert(mouse_resets(c, d, key, v, e));
    } else if key == "mouse-reporting"@ {
        assert(mouse_resets(c, d, key, v, e));
    } else if key == "mouse-scroll-multiplier"@ {
        assert(mouse_resets(c, d, key, v, e));
    } else if key == "scroll-to-bottom"@ {
        assert(mouse_resets(c, d, key, v, e));
    } else if key == "focus-follows-mouse"@ {
        assert(mouse_resets(c, d, key, v, e));
    } else if key == "click-repeat-interval"@ {
        assert(mouse_resets(c, d, key, v, e));
    } else if key == "cursor-click-to-move"@ {
        assert(mouse_resets(c, d, key, v, e));
    }
}

#[verifier::spinoff_prover]
#[verifier::rlimit(100)]
proof fn lemma_clipboard_start(d: Seq<Seq<char>>, key: Seq<char>, e: SurroundingsView)
    ensures
        clipboard_key(clipboard_defaults(), d, key, Seq::empty(), e) matches Some(n) ==> n == (
            clipboard_defaults(),
            d,
        ),
{
    reveal(clipboard_key);
    lemma_empty_resets();
    let c = clipboard_defaults();
}

/// Resetting one of these keys takes back what a value of it set.
spec fn clipboard_resets(
    c: ClipboardView,
    d: Seq<Seq<char>>,
    key: Seq<char>,
    v: Seq<char>,
    e: SurroundingsView,
) -> bool {
    match clipboard_key(c, d, key, v, e) {
        Some(n) => match (
            clipboard_key(n.0, n.1, key, Seq::empty(), e),
            clipboard_key(c, d, key, Seq::empty(), e),
        ) {
            (Some(a), Some(b)) => a.0 == b.0,
            _ => false,
        },
        None => forall|m: Seq<Seq<char>>| #[trigger] clipboard_key(
            c,
            m,
            key,
            Seq::empty(),
            e,
        ) is None,
    }
}

#[verifier::spinoff_prover]
#[verifier::rlimit(100)]
proof fn lemma_clipboard_reset(
    c: ClipboardView,
    d: Seq<Seq<char>>,
    key: Seq<char>,
    v: Seq<char>,
    e: SurroundingsView,
)
    ensures
        clipboard_resets(c, d, key, v, e),
{
    reveal(clipboard_key);
    lemma_empty_resets();
    if key == "clipboard-read"@ {
        assert(clipboard_resets(c, d, key, v, e));
    } else if key == "clipboard-write"@ {
        assert(clipboard_resets(c, d, key, v, e));
    } else if key == "clipboard-trim-trailing-spaces"@ {
        assert(clipboard_resets(c, d, key, v, e));
    } else if key == "clipboard-paste-protection"@ {
        assert(clipboard_resets(c, d, key, v, e));
    } else if key == "clipboard-paste-bracketed-safe"@ {
        assert(clipboard_resets(c, d, key, v, e));
    } else if key == "clipboard-write-limit-bytes"@ {
        assert(clipboard_resets(c, d, key, v, e));
    } else if key == "clipboard-codepoint-map"@ {
        assert(clipboard_resets(c, d, key, v, e));
    }
}

#[verifier::spinoff_prover]
#[verifier::rlimit(100)]
proof fn lemma_engine_start(d: Seq<Seq<char>>, key: Seq<char>, e: SurroundingsView)
    ensures
        engine_key(engine_defaults(), d, key, Seq::empty(), e) matches Some(n) ==> n == (
            engine_defaults(),
            d,
        ),
{
    reveal(engine_key);
    lemma_empty_resets();
    let c = engine_defaults();
}

/// Resetting one of these keys takes back what a value of it set.
spec fn engine_resets(
    c: EngineView,
    d: Seq<Seq<char>>,
    key: Seq<char>,
    v: Seq<char>,
    e: SurroundingsView,
) -> bool {
    match engine_key(c, d, key, v, e) {
        Some(n) => match (
            engine_key(n.0, n.1, key, Seq::empty(), e),
            engine_key(c, d, key, Seq::empty(), e),
        ) {
            (Some(a), Some(b)) => a.0 == b.0,
            _ => false,
        },
        None => forall|m: Seq<Seq<char>>| #[trigger] engine_key(c, m, key, Seq::empty(), e) is None,
    }
}

/// Whether a key is one of the first of these keys.
spec fn early_engine_key(key: Seq<char>) -> bool {
    ||| key == "scrollback-limit-bytes"@
    ||| key == "scrollback-compression"@
    ||| key == "scrollback-limit-lines"@
}

/// Whether a key is one of the next of these keys.
spec fn middle_engine_key(key: Seq<char>) -> bool {
    ||| key == "scrollback-limit"@
    ||| key == "image-storage-limit"@
    ||| key == "conpty-passthrough"@
    ||| key == "title-report"@
}

#[verifier::spinoff_prover]
#[verifier::rlimit(100)]
proof fn lemma_early_engine_reset(
    c: EngineView,
    d: Seq<Seq<char>>,
    key: Seq<char>,
    v: Seq<char>,
    e: SurroundingsView,
)
    requires
        early_engine_key(key),
    ensures
        engine_resets(c, d, key, v, e),
{
    reveal(engine_key);
    lemma_empty_resets();
    if key == "scrollback-limit-bytes"@ {
        assert(engine_resets(c, d, key, v, e));
    } else if key == "scrollback-compression"@ {
        assert(engine_resets(c, d, key, v, e));
    } else if key == "scrollback-limit-lines"@ {
        assert(engine_resets(c, d, key, v, e));
    }
}

#[verifier::spinoff_prover]
#[verifier::rlimit(100)]
proof fn lemma_middle_engine_reset(
    c: EngineView,
    d: Seq<Seq<char>>,
    key: Seq<char>,
    v: Seq<char>,
    e: SurroundingsView,
)
    requires
        !early_engine_key(key),
        middle_engine_key(key),
    ensures
        engine_resets(c, d, key, v, e),
{
    reveal(engine_key);
    lemma_empty_resets();
    if key == "scrollback-limit"@ {
        assert(engine_resets(c, d, key, v, e));
    } else if key == "image-storage-limit"@ {
        assert(engine_resets(c, d, key, v, e));
    } else if key == "conpty-passthrough"@ {
        assert(engine_resets(c, d, key, v, e));
    } else if key == "title-report"@ {
        assert(engine_resets(c, d, key, v, e));
    }
}

#[verifier::spinoff_prover]
#[verifier::rlimit(100)]
proof fn lemma_late_engine_reset(
    c: EngineView,
    d: Seq<Seq<char>>,
    key: Seq<char>,
    v: Seq<char>,
    e: SurroundingsView,
)
    requires
        !early_engine_key(key),
        !middle_engine_key(key),
    ensures
        engine_resets(c, d, key, v, e),
{
    reveal(engine_key);
    lemma_empty_resets();
    if key == "vt-kam-allowed"@ {
        assert(engine_resets(c, d, key, v, e));
    } else if key == "grapheme-width-method"@ {
        assert(engine_resets(c, d, key, v, e));
    } else if key == "progress-style"@ {
        assert(engine_resets(c, d, key, v, e));
    } else if key == "desktop-notifications"@ {
        assert(engine_resets(c, d, key, v, e));
    } else if key == "bell-features"@ {
        assert(engine_resets(c, d, key, v, e));
    } else if key == "bell-audio-path"@ {
        assert(engine_resets(c, d, key, v, e));
    } else if key == "bell-audio-volume"@ {
        assert(engine_resets(c, d, key, v, e));
    } else if key == "app-notifications"@ {
        assert(engine_resets(c, d, key, v, e));
    }
}

proof fn lemma_engine_reset(
    c: EngineView,
    d: Seq<Seq<char>>,
    key: Seq<char>,
    v: Seq<char>,
    e: SurroundingsView,
)
    ensures
        engine_resets(c, d, key, v, e),
{
    if early_engine_key(key) {
        lemma_early_engine_reset(c, d, key, v, e);
    } else if middle_engine_key(key) {
        lemma_middle_engine_reset(c, d, key, v, e);
    } else {
        lemma_late_engine_reset(c, d, key, v, e);
    }
}

#[verifier::spinoff_prover]
#[verifier::rlimit(100)]
proof fn lemma_commands_start(d: Seq<Seq<char>>, key: Seq<char>, e: SurroundingsView)
    ensures
        commands_key(commands_defaults(), d, key, Seq::empty(), e) matches Some(n) ==> n == (
            commands_defaults(),
            d,
        ),
{
    reveal(commands_key);
    lemma_empty_resets();
    let c = commands_defaults();
}

/// Resetting one of these keys takes back what a value of it set.
spec fn commands_resets(
    c: CommandsView,
    d: Seq<Seq<char>>,
    key: Seq<char>,
    v: Seq<char>,
    e: SurroundingsView,
) -> bool {
    match commands_key(c, d, key, v, e) {
        Some(n) => match (
            commands_key(n.0, n.1, key, Seq::empty(), e),
            commands_key(c, d, key, Seq::empty(), e),
        ) {
            (Some(a), Some(b)) => a.0 == b.0,
            _ => false,
        },
        None => forall|m: Seq<Seq<char>>| #[trigger] commands_key(
            c,
            m,
            key,
            Seq::empty(),
            e,
        ) is None,
    }
}

#[verifier::spinoff_prover]
#[verifier::rlimit(100)]
proof fn lemma_commands_reset(
    c: CommandsView,
    d: Seq<Seq<char>>,
    key: Seq<char>,
    v: Seq<char>,
    e: SurroundingsView,
)
    ensures
        commands_resets(c, d, key, v, e),
{
    reveal(commands_key);
    lemma_empty_resets();
    if key == "key-remap"@ {
        assert(commands_resets(c, d, key, v, e));
    } else if key == "command-palette-entry"@ {
        assert(commands_resets(c, d, key, v, e));
    } else if key == "initial-command"@ {
        assert(commands_resets(c, d, key, v, e));
    } else if key == "wait-after-command"@ {
        assert(commands_resets(c, d, key, v, e));
    } else if key == "shell-integration"@ {
        assert(commands_resets(c, d, key, v, e));
    } else if key == "shell-integration-features"@ {
        assert(commands_resets(c, d, key, v, e));
    } else if key == "abnormal-command-exit-runtime"@ {
        assert(commands_resets(c, d, key, v, e));
    } else if key == "env"@ {
        assert(commands_resets(c, d, key, v, e));
    } else if key == "input"@ {
        assert(commands_resets(c, d, key, v, e));
    } else if key == "command"@ {
        assert(commands_resets(c, d, key, v, e));
    } else if key == "keybind"@ {
        assert(commands_resets(c, d, key, v, e));
    } else if key == "notify-on-command-finish"@ {
        assert(commands_resets(c, d, key, v, e));
    } else if key == "notify-on-command-finish-action"@ {
        assert(commands_resets(c, d, key, v, e));
    } else if key == "notify-on-command-finish-after"@ {
        assert(commands_resets(c, d, key, v, e));
    } else if key == "undo-timeout"@ {
        assert(commands_resets(c, d, key, v, e));
    }
}

/// `c` without the problems it has met.
pub open spec fn settings(c: ConfigView) -> ConfigView {
    ConfigView { diagnostics: Seq::empty(), ..c }
}

/// An empty value is no change to the built-in defaults, whatever the key.
pub proof fn law_reset_keeps_defaults(key: Seq<char>, e: SurroundingsView)
    ensures
        settings(applied_key(defaults(), key, Seq::empty(), e)) == settings(defaults()),
        supported(defaults(), key, Seq::empty(), e) is Some ==> applied_key(
            defaults(),
            key,
            Seq::empty(),
            e,
        ) == defaults(),
{
    reveal(supported);
    let d = Seq::<Seq<char>>::empty();
    lemma_fonts_start(d, key, e);
    lemma_metrics_start(d, key, e);
    lemma_colors_start(d, key, e);
    lemma_backdrop_start(d, key, e);
    lemma_windows_start(d, key, e);
    lemma_lifetime_start(d, key, e);
    lemma_geometry_start(d, key, e);
    lemma_selection_start(d, key, e);
    lemma_mouse_start(d, key, e);
    lemma_clipboard_start(d, key, e);
    lemma_engine_start(d, key, e);
    lemma_commands_start(d, key, e);
}

/// An empty value takes back whatever a value of the same key set: resetting a
/// key after setting it leaves the settings that resetting it at once leaves.
pub proof fn law_reset_undoes_set(
    c: ConfigView,
    key: Seq<char>,
    v: Seq<char>,
    e: SurroundingsView,
)
    requires
        c.fonts.font_styles.len() == 4,
        c.fonts.font_variations.len() == 4,
    ensures
        settings(applied_key(applied_key(c, key, v, e), key, Seq::empty(), e)) == settings(
            applied_key(c, key, Seq::empty(), e),
        ),
{
    reveal(supported);
    let d = c.diagnostics;
    lemma_fonts_reset(c.fonts, d, key, v, e);
    lemma_metrics_reset(c.adjust, d, key, v, e);
    lemma_colors_reset(c.colors, d, key, v, e);
    lemma_backdrop_reset(c.backdrop, d, key, v, e);
    lemma_windows_reset(c.windows, d, key, v, e);
    lemma_lifetime_reset(c.lifetime, d, key, v, e);
    lemma_geometry_reset(c.layout, d, key, v, e);
    lemma_selection_reset(c.selection, d, key, v, e);
    lemma_mouse_reset(c.mouse, d, key, v, e);
    lemma_clipboard_reset(c.clipboard, d, key, v, e);
    lemma_engine_reset(c.engine, d, key, v, e);
    lemma_commands_reset(c.commands, d, key, v, e);
}

/// A key that is not supported changes no setting and adds one problem.
pub proof fn law_unsupported_key_only_reports(
    c: ConfigView,
    key: Seq<char>,
    v: Seq<char>,
    e: SurroundingsView,
)
    requires
        key != "theme"@,
        supported(c, key, v, e) is None,
    ensures
        settings(applied_key(c, key, v, e)) == settings(c),
        applied_key(c, key, v, e).diagnostics.len() == c.diagnostics.len() + 1,
        applied_key(c, key, v, e).diagnostics.drop_last() == c.diagnostics,
{
    assert(applied_key(c, key, v, e).diagnostics.drop_last() =~= c.diagnostics);
}

/// How many groups of settings two configurations differ in.
pub open spec fn groups_apart(a: ConfigView, b: ConfigView) -> int {
    apart(a.fonts, b.fonts) + apart(a.adjust, b.adjust) + apart(a.colors, b.colors) + apart(
        a.backdrop,
        b.backdrop,
    ) + apart(a.windows, b.windows) + apart(a.lifetime, b.lifetime) + apart(a.layout, b.layout)
        + apart(a.selection, b.selection) + apart(a.mouse, b.mouse) + apart(
        a.clipboard,
        b.clipboard,
    ) + apart(a.engine, b.engine) + apart(a.commands, b.commands) + apart(
        a.config_file,
        b.config_file,
    )
}

/// One for values that differ, none for equal ones.
pub open spec fn apart<T>(a: T, b: T) -> int {
    if a == b {
        0
    } else {
        1
    }
}

/// A key leaves alone every group of settings but the one it belongs to.
pub proof fn law_key_changes_one_group(
    c: ConfigView,
    key: Seq<char>,
    v: Seq<char>,
    e: SurroundingsView,
)
    ensures
        groups_apart(c, applied_key(c, key, v, e)) <= 1,
{
    reveal(supported);
}

/// Whether a line gives the background.
pub open spec fn gives_background(raw: Seq<char>) -> bool {
    line_kind(raw) matches Line::Pair(key, _) && key == "background"@
}

#[verifier::spinoff_prover]
#[verifier::rlimit(50)]
proof fn lemma_background_stays(
    c: ColorsView,
    d: Seq<Seq<char>>,
    key: Seq<char>,
    v: Seq<char>,
    e: SurroundingsView,
)
    requires
        key != "background"@,
    ensures
        colors_key(c, d, key, v, e) matches Some(n) ==> n.0.bg == c.bg,
{
    reveal(colors_key);
}

#[verifier::spinoff_prover]
#[verifier::rlimit(50)]
proof fn lemma_background_key(c: ConfigView, v: Seq<char>, e: SurroundingsView)
    requires
        v.len() > 0,
        color_value(v, e.colors) is Some,
    ensures
        Some(applied_key(c, "background"@, v, e).colors.bg) == color_value(v, e.colors),
{
    reveal(supported);
    reveal(fonts_key);
    reveal(metrics_key);
    reveal(colors_key);
    reveal_strlit("background");
    reveal_strlit("theme");
    reveal_strlit("config-file");
    reveal_strlit("font-size");
    reveal_strlit("font-family");
    reveal_strlit("font-synthetic-style");
    reveal_strlit("font-family-bold");
    reveal_strlit("font-family-italic");
    reveal_strlit("font-family-bold-italic");
    reveal_strlit("font-feature");
    reveal_strlit("font-style");
    reveal_strlit("font-style-bold");
    reveal_strlit("font-style-italic");
    reveal_strlit("font-style-bold-italic");
    reveal_strlit("font-variation");
    reveal_strlit("font-variation-bold");
    reveal_strlit("font-variation-italic");
    reveal_strlit("font-variation-bold-italic");
    reveal_strlit("font-codepoint-map");
    reveal_strlit("font-shaping-break");
    reveal_strlit("font-thicken");
    reveal_strlit("font-thicken-strength");
    reveal_strlit("text-gamma");
    reveal_strlit("adjust-cell-width");
    reveal_strlit("adjust-cell-height");
    reveal_strlit("adjust-font-baseline");
    reveal_strlit("adjust-underline-position");
    reveal_strlit("adjust-underline-thickness");
    reveal_strlit("adjust-strikethrough-position");
    reveal_strlit("adjust-strikethrough-thickness");
    reveal_strlit("adjust-overline-position");
    reveal_strlit("adjust-overline-thickness");
    reveal_strlit("adjust-cursor-thickness");
    reveal_strlit("adjust-cursor-height");
    reveal_strlit("adjust-box-thickness");
    reveal_strlit("adjust-icon-height");
    reveal_strlit("search-background");
    reveal_strlit("search-foreground");
    reveal_strlit("search-selected-background");
    reveal_strlit("search-selected-foreground");
    reveal_strlit("cursor-text");
    reveal_strlit("split-divider-color");
    reveal_strlit("foreground");
    assert("background"@[0] == 'b');
    assert("font-style"@[0] == 'f');
    assert("text-gamma"@[0] == 't');
    assert("foreground"@[0] == 'f');
}

proof fn lemma_background_line(c: ConfigView, raw: Seq<char>, n: nat, e: SurroundingsView)
    ensures
        !gives_background(raw) ==> applied_line(c, raw, n, e).colors.bg == c.colors.bg,
        (line_kind(raw) matches Line::Pair(key, v) && key == "background"@ && v.len() > 0
            && color_value(v, e.colors) is Some) ==> Some(applied_line(c, raw, n, e).colors.bg)
            == color_value((line_kind(raw)->Pair_1), e.colors),
{
    if let Line::Pair(key, v) = line_kind(raw) {
        reveal(supported);
        if key == "background"@ {
            if v.len() > 0 && color_value(v, e.colors) is Some {
                lemma_background_key(c, v, e);
            }
        } else {
            lemma_background_stays(c.colors, c.diagnostics, key, v, e);
        }
    }
}

proof fn lemma_background_lines(c: ConfigView, ls: Seq<Seq<char>>, i: int, e: SurroundingsView)
    requires
        0 <= i < ls.len(),
        gives_background(ls[i]),
        (line_kind(ls[i])->Pair_1).len() > 0,
        color_value(line_kind(ls[i])->Pair_1, e.colors) is Some,
        forall|j: int| i < j < ls.len() ==> !gives_background(#[trigger] ls[j]),
    ensures
        Some(applied_lines(c, ls, e).colors.bg) == color_value(line_kind(ls[i])->Pair_1, e.colors),
    decreases ls.len(),
{
    lemma_background_line(applied_lines(c, ls.drop_last(), e), ls.last(), ls.len(), e);
    if i < ls.len() - 1 {
        lemma_background_lines(c, ls.drop_last(), i, e);
    }
}

/// A background that a body gives wins over the one of its theme, wherever it
/// stands in the body, and over all that was read before the body.
pub proof fn law_own_background_wins(
    c: ConfigView,
    text: Seq<char>,
    theme: ThemeFile,
    i: int,
    e: SurroundingsView,
)
    requires
        0 <= i < lines(without_bom(text)).len(),
        gives_background(lines(without_bom(text))[i]),
        (line_kind(lines(without_bom(text))[i])->Pair_1).len() > 0,
        color_value(line_kind(lines(without_bom(text))[i])->Pair_1, e.colors) is Some,
        forall|j: int|
            i < j < lines(without_bom(text)).len() ==> !gives_background(
                #[trigger] lines(without_bom(text))[j],
            ),
    ensures
        Some(body_applied(c, text, theme, e).colors.bg) == color_value(
            line_kind(lines(without_bom(text))[i])->Pair_1,
            e.colors,
        ),
{
    let start = ConfigView { config_file: Seq::empty(), ..based(c, text, theme, e) };
    lemma_background_lines(start, lines(without_bom(text)), i, e);
}

/// A `theme` line inside a body changes nothing where it stands.
pub proof fn law_theme_line_is_inert(c: ConfigView, v: Seq<char>, e: SurroundingsView)
    ensures
        applied_key(c, "theme"@, v, e) == c,
{
}

/// An empty body leaves every setting at its default, without a problem.
pub proof fn law_empty_body_keeps_defaults(theme: ThemeFile, e: SurroundingsView)
    ensures
        body_applied(defaults(), Seq::empty(), theme, e) == defaults(),
{
    assert(lines(Seq::<char>::empty()) =~= Seq::empty());
}

/// A body whose lines are all blank or comments changes nothing.
pub proof fn law_comments_change_nothing(c: ConfigView, ls: Seq<Seq<char>>, e: SurroundingsView)
    requires
        forall|i: int| 0 <= i < ls.len() ==> line_kind(#[trigger] ls[i]) is Nothing,
    ensures
        applied_lines(c, ls, e) == c,
    decreases ls.len(),
{
    if ls.len() > 0 {
        law_comments_change_nothing(c, ls.drop_last(), e);
    }
}

/// A byte order mark does not hide the first line: a body reads the same with
/// one and without.
pub proof fn law_bom_is_ignored(c: ConfigView, text: Seq<char>, e: SurroundingsView)
    requires
        text.len() > 0 ==> text[0] != '\u{feff}',
    ensures
        parsed(c, seq!['\u{feff}'] + text, e) == parsed(c, text, e),
{
    assert((seq!['\u{feff}'] + text).skip(1) =~= text);
}

/// Giving a palette entry marks its index as set and leaves the marks of every
/// other index alone.
pub proof fn law_palette_entry_marks_its_index(
    mask: Seq<u64>,
    v: Seq<char>,
    names: Seq<(Seq<char>, Rgb)>,
    j: int,
)
    requires
        mask.len() == 4,
        v.len() > 0,
        palette_entry(v, names) is Some,
        0 <= j < 256,
    ensures
        0 <= (palette_entry(v, names)->0).0 < 256,
        index_set(palette_set_after(mask, v, names), j) == (j == (palette_entry(v, names)->0).0
            || index_set(mask, j)),
{
    let i = (palette_entry(v, names)->0).0;
    lemma_entry_index(v, names);
    let w = mask[i / 64];
    let a = (i % 64) as u64;
    let b = (j % 64) as u64;
    assert(a < 64 && b < 64 ==> ((w | (1u64 << a)) & (1u64 << b) != 0) == (a == b || w & (1u64 << b)
        != 0)) by (bit_vector);
    if j / 64 == i / 64 {
        assert(i == 64 * (i / 64) + i % 64);
        assert(j == 64 * (j / 64) + j % 64);
    }
}

proof fn lemma_entry_index(v: Seq<char>, names: Seq<(Seq<char>, Rgb)>)
    requires
        palette_entry(v, names) is Some,
    ensures
        0 <= (palette_entry(v, names)->0).0 < 256,
{
    let p = crate::text::split_once(v, '=')->0;
    let s = trim(p.0);
    crate::text::lemma_natural_nonneg(s, 10);
}

} // verus!
