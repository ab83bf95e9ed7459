//! Window materials: the effect configuration for each window effect name and
//! platform, the tints of the shell materials and their packing for the
//! accent policy, and the per-window record of the last applied accent theme.

use vstd::prelude::*;

use crate::hwnd_map::HwndMap;
use crate::text::same_text;

verus! {

/// First Windows build of Windows 11.
pub const WINDOWS_11_MIN_BUILD: u32 = 22_000;

/// On Windows 11 the main-window shell uses the native acrylic system
/// backdrop, which DWM composes into peek, thumbnail and minimize surrogates;
/// when off, it uses the custom DirectComposition/accent "Host Mica Alt".
pub const USE_NATIVE_BACKDROP: bool = true;

/// Blur radius of the macOS materials, in points.
pub const MAC_EFFECT_RADIUS: u32 = 12;

/// An RGBA color, 8 bits per channel.
#[derive(Debug, Clone, Copy, PartialEq, Eq, Structural)]
pub struct Rgba(pub u8, pub u8, pub u8, pub u8);

/// The platform a window lives on.
#[derive(Debug, Clone, Copy, PartialEq, Eq, Structural)]
pub enum Platform {
    Windows { build: u32 },
    MacOs,
    Other,
}

/// A system window material.
#[derive(Debug, Clone, Copy, PartialEq, Eq, Structural)]
pub enum WindowEffect {
    TabbedDark,
    TabbedLight,
    Acrylic,
    Sidebar,
    HudWindow,
}

/// A window effect configuration.
#[derive(Debug, Clone, Copy, PartialEq, Eq, Structural)]
pub struct EffectsPlan {
    pub effect: WindowEffect,
    pub color: Option<Rgba>,
    /// The material follows the window's active state.
    pub follows_active_state: bool,
    /// Corner radius in points.
    pub radius: Option<u32>,
}

/// Tint of the pre-Windows 11 acrylic shell fallback.
pub open spec fn system_shell_tint_spec(dark: bool) -> Rgba {
    if dark {
        Rgba(24, 24, 28, 220)
    } else {
        Rgba(242, 242, 244, 205)
    }
}

/// Tint of the Host Mica Alt material.
pub open spec fn host_mica_alt_tint_spec(dark: bool) -> Rgba {
    if dark {
        Rgba(18, 18, 22, 216)
    } else {
        Rgba(243, 243, 245, 216)
    }
}

pub fn system_shell_tint(dark: bool) -> (tint: Rgba)
    ensures
        tint == system_shell_tint_spec(dark),
{
    if dark {
        Rgba(24, 24, 28, 220)
    } else {
        Rgba(242, 242, 244, 205)
    }
}

pub fn host_mica_alt_tint(dark: bool) -> (tint: Rgba)
    ensures
        tint == host_mica_alt_tint_spec(dark),
{
    if dark {
        Rgba(18, 18, 22, 216)
    } else {
        Rgba(243, 243, 245, 216)
    }
}

/// The minimize cover: the Mica Alt tint at full opacity.
pub fn host_mica_alt_cover(dark: bool) -> (cover: Rgba)
    ensures
        cover == (Rgba { 3: 255, ..host_mica_alt_tint_spec(dark) }),
{
    let Rgba(r, g, b, _) = host_mica_alt_tint(dark);
    Rgba(r, g, b, 255)
}

/// The color as the accent policy wants it: `0xAABBGGRR`.
pub open spec fn abgr(c: Rgba) -> u32 {
    (c.0 + c.1 * 0x100 + c.2 * 0x1_0000 + c.3 * 0x100_0000) as u32
}

/// Pack a color as `0xAABBGGRR`.
pub fn pack_abgr(color: Rgba) -> (packed: u32)
    ensures
        packed == abgr(color),
{
    let Rgba(r, g, b, a) = color;
    let packed = (r as u32) | ((g as u32) << 8u32) | ((b as u32) << 16u32) | ((a as u32) << 24u32);
    assert(packed == r + g * 0x100 + b * 0x1_0000 + a * 0x100_0000) by (bit_vector)
        requires
            packed == (r as u32) | ((g as u32) << 8u32) | ((b as u32) << 16u32) | ((a as u32) << 24u32),
    ;
    packed
}

/// The persistent shell material used while the custom surface is cloaked:
/// tabbed (Mica Alt) on Windows 11, tinted acrylic before it, the sidebar
/// material on macOS, nothing elsewhere.
pub open spec fn shell_fallback_spec(dark: bool, platform: Platform) -> Option<EffectsPlan> {
    match platform {
        Platform::Windows { build } => if build >= WINDOWS_11_MIN_BUILD {
            Some(
                EffectsPlan {
                    effect: if dark {
                        WindowEffect::TabbedDark
                    } else {
                        WindowEffect::TabbedLight
                    },
                    color: None,
                    follows_active_state: false,
                    radius: None,
                },
            )
        } else {
            Some(
                EffectsPlan {
                    effect: WindowEffect::Acrylic,
                    color: Some(system_shell_tint_spec(dark)),
                    follows_active_state: false,
                    radius: None,
                },
            )
        },
        Platform::MacOs => Some(
            EffectsPlan {
                effect: WindowEffect::Sidebar,
                color: None,
                follows_active_state: true,
                radius: Some(MAC_EFFECT_RADIUS),
            },
        ),
        Platform::Other => None,
    }
}

/// The acrylic material: acrylic with the given tint on Windows, the HUD
/// material on macOS, nothing elsewhere.
pub open spec fn acrylic_spec(color: Option<Rgba>, platform: Platform) -> Option<EffectsPlan> {
    match platform {
        Platform::Windows { .. } => Some(
            EffectsPlan { effect: WindowEffect::Acrylic, color, follows_active_state: false, radius: None },
        ),
        Platform::MacOs => Some(
            EffectsPlan {
                effect: WindowEffect::HudWindow,
                color: None,
                follows_active_state: true,
                radius: Some(MAC_EFFECT_RADIUS),
            },
        ),
        Platform::Other => None,
    }
}

/// The configuration for a window effect name.
pub open spec fn window_effects_spec(effect: Seq<char>, color: Option<Rgba>, platform: Platform) -> Option<EffectsPlan> {
    if effect == "system-shell"@ {
        shell_fallback_spec(false, platform)
    } else if effect == "acrylic"@ {
        acrylic_spec(color, platform)
    } else {
        None
    }
}

/// The persistent shell material for `platform`.
pub fn build_system_shell_fallback(dark: bool, platform: Platform) -> (plan: Option<EffectsPlan>)
    ensures
        plan == shell_fallback_spec(dark, platform),
{
    match platform {
        Platform::Windows { build } => if build >= WINDOWS_11_MIN_BUILD {
            Some(
                EffectsPlan {
                    effect: if dark {
                        WindowEffect::TabbedDark
                    } else {
                        WindowEffect::TabbedLight
                    },
                    color: None,
                    follows_active_state: false,
                    radius: None,
                },
            )
        } else {
            Some(
                EffectsPlan {
                    effect: WindowEffect::Acrylic,
                    color: Some(system_shell_tint(dark)),
                    follows_active_state: false,
                    radius: None,
                },
            )
        },
        Platform::MacOs => Some(
            EffectsPlan {
                effect: WindowEffect::Sidebar,
                color: None,
                follows_active_state: true,
                radius: Some(MAC_EFFECT_RADIUS),
            },
        ),
        Platform::Other => None,
    }
}

/// The acrylic material for `platform`.
pub fn acrylic_effects(color: Option<Rgba>, platform: Platform) -> (plan: Option<EffectsPlan>)
    ensures
        plan == acrylic_spec(color, platform),
{
    match platform {
        Platform::Windows { .. } => Some(
            EffectsPlan { effect: WindowEffect::Acrylic, color, follows_active_state: false, radius: None },
        ),
        Platform::MacOs => Some(
            EffectsPlan {
                effect: WindowEffect::HudWindow,
                color: None,
                follows_active_state: true,
                radius: Some(MAC_EFFECT_RADIUS),
            },
        ),
        Platform::Other => None,
    }
}

/// The configuration for a window effect name (`system-shell` or `acrylic`);
/// `None` for any other name.
pub fn build_window_effects(effect: &str, color: Option<Rgba>, platform: Platform) -> (plan: Option<EffectsPlan>)
    ensures
        plan == window_effects_spec(effect@, color, platform),
{
    if same_text(effect, "system-shell") {
        build_system_shell_fallback(false, platform)
    } else if same_text(effect, "acrylic") {
        acrylic_effects(color, platform)
    } else {
        None
    }
}

/// Which material the main-window shell gets.
#[derive(Debug, Clone, Copy, PartialEq, Eq, Structural)]
pub enum ShellRoute {
    /// The native acrylic system backdrop (Windows 11); on failure, the
    /// persistent shell fallback.
    NativeBackdrop,
    /// The DirectComposition/accent Host Mica Alt (Windows 11); on failure,
    /// the persistent shell fallback.
    HostMicaAlt,
    /// The persistent shell fallback.
    SystemFallback,
}

/// The main-window shell material for `platform`.
pub fn shell_route(platform: Platform) -> (route: ShellRoute)
    ensures
        route == match platform {
            Platform::Windows { build } => if build >= WINDOWS_11_MIN_BUILD {
                if USE_NATIVE_BACKDROP {
                    ShellRoute::NativeBackdrop
                } else {
                    ShellRoute::HostMicaAlt
                }
            } else {
                ShellRoute::SystemFallback
            },
            _ => ShellRoute::SystemFallback,
        },
{
    match platform {
        Platform::Windows { build } => if build >= WINDOWS_11_MIN_BUILD {
            if USE_NATIVE_BACKDROP {
                ShellRoute::NativeBackdrop
            } else {
                ShellRoute::HostMicaAlt
            }
        } else {
            ShellRoute::SystemFallback
        },
        _ => ShellRoute::SystemFallback,
    }
}

/// How to apply Host Mica Alt to a window.
#[derive(Debug, Clone, Copy, PartialEq, Eq, Structural)]
pub enum HostMicaStep {
    /// The window is minimized and its cover took the new theme: done.
    KeepCover,
    /// The accent material already has this theme: only (re)install the guard.
    KeepAccent,
    /// Apply the accent material, then install the guard.
    ApplyAccent,
    /// Try the DirectComposition backdrop (the accent material if it fails),
    /// then install the guard.
    TryHostBackdrop,
}

/// The Host Mica Alt step: a minimized window keeps its cover; a build
/// without the DirectComposition backdrop uses the accent material, skipping
/// it when the theme is unchanged (each redundant re-apply flashes).
pub open spec fn host_mica_step_spec(cover_refreshed: bool, host_unsupported: bool, last_theme: Option<bool>, dark: bool) -> HostMicaStep {
    if cover_refreshed {
        HostMicaStep::KeepCover
    } else if host_unsupported {
        if last_theme == Some(dark) {
            HostMicaStep::KeepAccent
        } else {
            HostMicaStep::ApplyAccent
        }
    } else {
        HostMicaStep::TryHostBackdrop
    }
}

pub fn host_mica_step(cover_refreshed: bool, host_unsupported: bool, last_theme: Option<bool>, dark: bool) -> (step: HostMicaStep)
    ensures
        step == host_mica_step_spec(cover_refreshed, host_unsupported, last_theme, dark),
{
    if cover_refreshed {
        HostMicaStep::KeepCover
    } else if host_unsupported {
        let same = match last_theme {
            Some(theme) => theme == dark,
            None => false,
        };
        if same {
            HostMicaStep::KeepAccent
        } else {
            HostMicaStep::ApplyAccent
        }
    } else {
        HostMicaStep::TryHostBackdrop
    }
}

/// The theme last applied to each window's accent material.
#[derive(Debug)]
pub struct AccentThemes {
    themes: HwndMap<bool>,
}

impl View for AccentThemes {
    type V = Map<isize, bool>;

    closed spec fn view(&self) -> Map<isize, bool> {
        self.themes@
    }
}

impl AccentThemes {
    pub fn new() -> (themes: AccentThemes)
        ensures
            themes@ == Map::<isize, bool>::empty(),
    {
        AccentThemes { themes: HwndMap::new() }
    }

    /// The theme last applied to `hwnd`.
    pub fn last(&self, hwnd: isize) -> (theme: Option<bool>)
        ensures
            theme == (if self@.contains_key(hwnd) {
                Some(self@[hwnd])
            } else {
                None
            }),
    {
        match self.themes.get(hwnd) {
            Some(theme) => Some(*theme),
            None => None,
        }
    }

    /// Whether applying `dark` to `hwnd` changes its theme (the frame's dark
    /// mode is flipped only then).
    pub fn theme_changed(&self, hwnd: isize, dark: bool) -> (changed: bool)
        ensures
            changed == !(self@.contains_key(hwnd) && self@[hwnd] == dark),
    {
        match self.themes.get(hwnd) {
            Some(theme) => *theme != dark,
            None => true,
        }
    }

    /// The accent material took `dark` on `hwnd`.
    pub fn record(&mut self, hwnd: isize, dark: bool)
        ensures
            final(self)@ == old(self)@.insert(hwnd, dark),
    {
        self.themes.insert(hwnd, dark);
    }

    /// Forget `hwnd`: its window was destroyed, or its accent failed.
    pub fn forget_swca_theme(&mut self, hwnd: isize)
        ensures
            final(self)@ == old(self)@.remove(hwnd),
    {
        let _ = self.themes.remove(hwnd);
    }
}

/// Tint of the acrylic given to a managed window at creation: light for the
/// tray popup, dark for every other window.
pub open spec fn creation_tint(label: Seq<char>) -> Rgba {
    if label == "tray-popup"@ {
        Rgba(240, 240, 240, 200)
    } else {
        Rgba(30, 30, 30, 200)
    }
}

/// The effects a window is created with. The main window's `system-shell`
/// effect is deferred until the frontend picks the theme.
pub open spec fn creation_effects_spec(label: Seq<char>, window_effect: Option<Seq<char>>, platform: Platform) -> Option<EffectsPlan> {
    match window_effect {
        None => None,
        Some(effect) => if label == "main"@ && effect == "system-shell"@ {
            None
        } else {
            window_effects_spec(effect, Some(creation_tint(label)), platform)
        },
    }
}

/// The effects a window is created with.
pub fn creation_effects(label: &str, window_effect: Option<&str>, platform: Platform) -> (plan: Option<EffectsPlan>)
    ensures
        plan == creation_effects_spec(
            label@,
            match window_effect {
                Some(e) => Some(e@),
                None => None,
            },
            platform,
        ),
{
    let effect = match window_effect {
        Some(e) => e,
        None => return None,
    };
    if same_text(label, "main") && same_text(effect, "system-shell") {
        return None;
    }
    let tint = if same_text(label, "tray-popup") {
        Rgba(240, 240, 240, 200)
    } else {
        Rgba(30, 30, 30, 200)
    };
    build_window_effects(effect, Some(tint), platform)
}

/// The shadow a window is created with: on Windows a window with an effect
/// starts without one (it is restored after the effect is applied, which
/// rebuilds the native frame).
pub fn initial_shadow(has_configured_effect: bool, shadow: bool, platform: Platform) -> (initial: bool)
    ensures
        initial == (if platform is Windows && has_configured_effect {
            false
        } else {
            shadow
        }),
{
    match platform {
        Platform::Windows { .. } => if has_configured_effect {
            false
        } else {
            shadow
        },
        _ => shadow,
    }
}

/// Whether the main window's shell material has been set up, and its theme.
#[derive(Debug, Clone, Copy, PartialEq, Eq, Structural)]
pub struct MainShellState {
    pub initialized: bool,
    pub dark: bool,
}

impl MainShellState {
    /// The state of a freshly created main window.
    pub fn new() -> (state: MainShellState)
        ensures
            state == (MainShellState { initialized: false, dark: false }),
    {
        MainShellState { initialized: false, dark: false }
    }

    /// The main window is being (re)created.
    pub fn reset(&mut self)
        ensures
            *final(self) == (MainShellState { initialized: false, dark: false }),
    {
        self.initialized = false;
        self.dark = false;
    }

    /// A theme is being applied; returns whether this is the initial setup
    /// (which applies synchronously and then reveals the hidden window).
    pub fn begin_theme(&mut self, dark: bool) -> (initialize: bool)
        ensures
            initialize == !old(self).initialized,
            *final(self) == (MainShellState { dark, ..*old(self) }),
    {
        self.dark = dark;
        !self.initialized
    }

    /// The initial setup succeeded and the window is being revealed.
    pub fn finish_initialization(&mut self)
        ensures
            *final(self) == (MainShellState { initialized: true, ..*old(self) }),
    {
        self.initialized = true;
    }

    /// Whether the hidden main window must be revealed with the default
    /// material because the frontend never did it.
    pub fn needs_fallback_reveal(&self, visible: bool) -> (reveal: bool)
        ensures
            reveal == (!self.initialized && !visible),
    {
        !self.initialized && !visible
    }
}

/// Re-applying the theme a window already has is recognized as no change.
pub proof fn lemma_reapply_is_no_change(m: Map<isize, bool>, hwnd: isize, dark: bool)
    ensures
        m.insert(hwnd, dark).contains_key(hwnd) && m.insert(hwnd, dark)[hwnd] == dark,
        host_mica_step_spec(false, true, Some(dark), dark) == HostMicaStep::KeepAccent,
{
}

} // verus!
