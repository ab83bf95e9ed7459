use gmplayer::host_backdrop::{ApplyStep, HostBackdrops};
use gmplayer::minimize_guard::{
    after_minimize_command, classify_message, GuardAction, GuardEvent, MinimizeGuards, WindowMove, ICONIC_POS,
    RESTORE_TIMER_ID, SC_MINIMIZE,
    SIZE_MAXIMIZED, SIZE_MINIMIZED, SWP_NOMOVE, WM_NCDESTROY, WM_SIZE, WM_SYSCOMMAND, WM_TIMER,
    WM_WINDOWPOSCHANGING,
};
use gmplayer::webview_memory::{idle_when_hidden, suspend_when_hidden, AwakeWindows, SleepPlan};
use gmplayer::window_effects::{
    creation_effects, initial_shadow, MainShellState, build_window_effects, host_mica_alt_cover, host_mica_alt_tint, host_mica_step, pack_abgr, shell_route,
    AccentThemes, EffectsPlan, HostMicaStep, Platform, Rgba, ShellRoute, WindowEffect,
};

#[test]
fn packs_host_mica_alt_tints_as_abgr() {
    assert_eq!(pack_abgr(host_mica_alt_tint(true)), 0xd8161212);
    assert_eq!(pack_abgr(host_mica_alt_tint(false)), 0xd8f5f3f3);
}

#[test]
fn minimize_cover_is_opaque_tint() {
    assert_eq!(pack_abgr(host_mica_alt_cover(true)), 0xff161212);
    assert_eq!(pack_abgr(host_mica_alt_cover(false)), 0xfff5f3f3);
}

#[test]
fn effect_names_map_to_materials() {
    let win11 = Platform::Windows { build: 22_631 };
    let win10 = Platform::Windows { build: 19_045 };
    assert_eq!(
        build_window_effects("system-shell", None, win11),
        Some(EffectsPlan { effect: WindowEffect::TabbedLight, color: None, follows_active_state: false, radius: None })
    );
    assert_eq!(
        build_window_effects("system-shell", None, win10),
        Some(EffectsPlan {
            effect: WindowEffect::Acrylic,
            color: Some(Rgba(242, 242, 244, 205)),
            follows_active_state: false,
            radius: None
        })
    );
    let tint = Some(Rgba(30, 30, 30, 200));
    assert_eq!(
        build_window_effects("acrylic", tint, win10),
        Some(EffectsPlan { effect: WindowEffect::Acrylic, color: tint, follows_active_state: false, radius: None })
    );
    assert_eq!(
        build_window_effects("acrylic", tint, Platform::MacOs),
        Some(EffectsPlan { effect: WindowEffect::HudWindow, color: None, follows_active_state: true, radius: Some(12) })
    );
    assert_eq!(build_window_effects("acrylic", tint, Platform::Other), None);
    assert_eq!(build_window_effects("mica", tint, win11), None);
}

#[test]
fn shell_route_depends_on_the_build() {
    assert_eq!(shell_route(Platform::Windows { build: 22_000 }), ShellRoute::NativeBackdrop);
    assert_eq!(shell_route(Platform::Windows { build: 21_999 }), ShellRoute::SystemFallback);
    assert_eq!(shell_route(Platform::MacOs), ShellRoute::SystemFallback);
}

#[test]
fn host_mica_steps() {
    assert_eq!(host_mica_step(true, true, Some(true), true), HostMicaStep::KeepCover);
    assert_eq!(host_mica_step(false, true, Some(true), true), HostMicaStep::KeepAccent);
    assert_eq!(host_mica_step(false, true, Some(false), true), HostMicaStep::ApplyAccent);
    assert_eq!(host_mica_step(false, true, None, true), HostMicaStep::ApplyAccent);
    assert_eq!(host_mica_step(false, false, Some(true), true), HostMicaStep::TryHostBackdrop);
}

#[test]
fn accent_themes_dedupe_reapplies() {
    let mut themes = AccentThemes::new();
    assert!(themes.theme_changed(7, true));
    themes.record(7, true);
    assert!(!themes.theme_changed(7, true));
    assert!(themes.theme_changed(7, false));
    assert_eq!(themes.last(7), Some(true));
    themes.forget_swca_theme(7);
    assert_eq!(themes.last(7), None);
}

#[test]
fn guard_messages_are_classified() {
    assert_eq!(classify_message(WM_SYSCOMMAND, SC_MINIMIZE | 0x2, None), GuardEvent::MinimizeCommand);
    assert_eq!(classify_message(WM_SYSCOMMAND, 0xF030, None), GuardEvent::Other);
    let parked = WindowMove { x: ICONIC_POS, y: ICONIC_POS, flags: 0 };
    assert_eq!(classify_message(WM_WINDOWPOSCHANGING, 0, Some(parked)), GuardEvent::MovedToIconicPosition);
    let pinned = WindowMove { flags: SWP_NOMOVE, ..parked };
    assert_eq!(classify_message(WM_WINDOWPOSCHANGING, 0, Some(pinned)), GuardEvent::Other);
    assert_eq!(classify_message(WM_SIZE, SIZE_MINIMIZED as usize, None), GuardEvent::SizeMinimized);
    assert_eq!(classify_message(WM_SIZE, SIZE_MAXIMIZED as usize, None), GuardEvent::SizeRestored);
    assert_eq!(classify_message(WM_TIMER, RESTORE_TIMER_ID, None), GuardEvent::RestoreTimer);
    assert_eq!(classify_message(WM_TIMER, 1, None), GuardEvent::Other);
    assert_eq!(classify_message(WM_NCDESTROY, 0, None), GuardEvent::Destroyed);
}

#[test]
fn the_minimize_cover_goes_on_once_and_comes_off_once() {
    let mut guards = MinimizeGuards::new();
    assert!(guards.refresh_or_needs_install(5, true));
    guards.record_installed(5, true);
    assert!(!guards.refresh_or_needs_install(5, false));
    assert_eq!(guards.enter_solid(5), Some(false));
    assert_eq!(guards.enter_solid(5), None, "a second minimize signal repaints nothing");
    assert!(guards.is_solid(5));
    assert_eq!(guards.exit_solid(5), Some(false));
    assert_eq!(guards.exit_solid(5), None);
    assert_eq!(guards.enter_solid(6), None, "an unguarded window is left alone");
}

#[test]
fn a_minimized_window_keeps_its_cover_on_theme_change() {
    let mut guards = MinimizeGuards::new();
    guards.record_installed(9, false);
    assert!(!guards.refresh_solid_if_minimized(9, true, false));
    assert!(guards.refresh_solid_if_minimized(9, true, true));
    assert!(guards.is_solid(9));
    assert_eq!(guards.exit_solid(9), Some(true));
    assert!(guards.uninstall(9));
    assert!(!guards.uninstall(9));
    assert!(!guards.refresh_solid_if_minimized(9, true, true));
}

#[test]
fn backdrop_construction_failure_is_cached() {
    let mut backdrops: HostBackdrops<&str> = HostBackdrops::new();
    assert_eq!(backdrops.apply_step(1), ApplyStep::Construct);
    backdrops.record_constructed(1, "instance");
    assert_eq!(backdrops.apply_step(1), ApplyStep::UpdateExisting);
    assert_eq!(backdrops.apply_step(2), ApplyStep::Construct);
    backdrops.record_construction_failed();
    assert!(backdrops.unsupported());
    assert_eq!(backdrops.apply_step(2), ApplyStep::RejectUnsupported);
    assert_eq!(backdrops.apply_step(1), ApplyStep::UpdateExisting);
    let lent = backdrops.take(1).unwrap();
    assert!(!backdrops.contains(1));
    backdrops.restore(1, lent);
    assert!(backdrops.remove(1));
    assert!(!backdrops.remove(1));
}

#[test]
fn webview_idle_policy() {
    assert!(idle_when_hidden("tray-popup"));
    assert!(idle_when_hidden("desktop-lyrics-controls"));
    assert!(!idle_when_hidden("main"));
    assert!(suspend_when_hidden("tray-popup"));
    assert!(!suspend_when_hidden("desktop-lyrics-controls"));
}

#[test]
fn a_window_shown_while_loading_is_not_put_to_sleep() {
    let mut awake = AwakeWindows::new();
    assert_eq!(
        awake.sleep_if_untouched("tray-popup"),
        Some(SleepPlan { hide_control: true, suspend: true })
    );
    let plan = awake.wake("tray-popup");
    assert!(plan.restore_visible);
    assert!(awake.is_awake("tray-popup"));
    assert_eq!(awake.sleep_if_untouched("tray-popup"), None);
    let plan = awake.sleep("tray-popup");
    assert_eq!(plan, SleepPlan { hide_control: true, suspend: true });
    assert!(!awake.is_awake("tray-popup"));
    awake.wake("main");
    awake.forget("main");
    assert!(!awake.is_awake("main"));
    assert_eq!(awake.sleep("main"), SleepPlan { hide_control: false, suspend: false });
}

#[test]
fn windows_are_created_with_their_effect() {
    let win11 = Platform::Windows { build: 22_631 };
    assert_eq!(creation_effects("main", Some("system-shell"), win11), None, "the main shell effect waits for the theme");
    assert_eq!(
        creation_effects("tray-popup", Some("acrylic"), win11),
        Some(EffectsPlan {
            effect: WindowEffect::Acrylic,
            color: Some(Rgba(240, 240, 240, 200)),
            follows_active_state: false,
            radius: None
        })
    );
    assert_eq!(
        creation_effects("mini", Some("acrylic"), win11).and_then(|p| p.color),
        Some(Rgba(30, 30, 30, 200))
    );
    assert_eq!(creation_effects("mini", None, win11), None);
    assert!(!initial_shadow(true, true, win11));
    assert!(initial_shadow(false, true, win11));
    assert!(initial_shadow(true, true, Platform::MacOs));
}

#[test]
fn the_main_shell_is_initialized_once() {
    let mut shell = MainShellState::new();
    assert!(shell.needs_fallback_reveal(false));
    assert!(!shell.needs_fallback_reveal(true));
    assert!(shell.begin_theme(true));
    shell.finish_initialization();
    assert!(!shell.begin_theme(false));
    assert!(!shell.dark);
    assert!(!shell.needs_fallback_reveal(false));
    shell.reset();
    assert!(shell.begin_theme(true));
}

#[test]
fn the_restore_cover_is_held_until_the_timer() {
    let mut guards = MinimizeGuards::new();
    assert!(guards.refresh_or_needs_install(7, true));
    guards.record_installed(7, true);
    assert_eq!(guards.action_for(7, GuardEvent::SizeMinimized, true), GuardAction::EnterSolid);
    assert_eq!(guards.action_for(7, GuardEvent::SizeRestored, false), GuardAction::Nothing);
    guards.enter_solid(7);
    assert_eq!(guards.action_for(7, GuardEvent::SizeRestored, true), GuardAction::Nothing);
    assert_eq!(guards.action_for(7, GuardEvent::SizeRestored, false), GuardAction::StartRestoreTimer);
    assert_eq!(guards.action_for(7, GuardEvent::RestoreTimer, true), GuardAction::StopRestoreTimer);
    assert_eq!(guards.action_for(7, GuardEvent::RestoreTimer, false), GuardAction::ExitSolid);
    assert_eq!(guards.action_for(7, GuardEvent::Destroyed, false), GuardAction::Forget);
    assert_eq!(guards.action_for(7, GuardEvent::Other, false), GuardAction::Nothing);
    assert_eq!(after_minimize_command(false), GuardAction::ExitSolid);
    assert_eq!(after_minimize_command(true), GuardAction::Nothing);
}
