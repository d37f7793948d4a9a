use appdock::onboarding::{Readiness, Step};
use appdock::setup::{
    hidden_chrome, NextOutcome, RefreshEffect, SetupAction, SetupEnvironment, SetupSnapshot,
    SetupState,
};
use appdock::updater::load_precondition;

fn snapshot(trusted: bool) -> SetupSnapshot {
    SetupSnapshot {
        trusted,
        setup_docked: false,
        paused: false,
        has_selection: false,
        readiness: Readiness::default(),
        completion: None,
        status: "Idle".to_string(),
    }
}

fn env(exe: &str) -> SetupEnvironment {
    SetupEnvironment {
        exe_path: Some(exe.to_string()),
        home: Some("/Users/example".to_string()),
        version: "0.12.0".to_string(),
        shortcut_error: None,
    }
}

const INSTALLED: &str = "/Applications/AppDock.app/Contents/MacOS/AppDock";

#[test]
fn hidden_idle_wizard_is_left_alone() {
    let mut state = SetupState::new();
    assert!(state
        .refresh_setup(false, &snapshot(true), &env(INSTALLED))
        .is_none());
    assert_eq!(state, SetupState::new());
}

#[test]
fn install_step_describes_the_running_copy() {
    let mut state = SetupState::new();
    let (view, effect) = state
        .refresh_setup(true, &snapshot(false), &env(INSTALLED))
        .unwrap();
    assert_eq!(effect, RefreshEffect::Stay);
    assert_eq!(view.progress, "STEP 1 OF 5  ·  APPDOCK SETUP");
    assert_eq!(view.title, "Install AppDock");
    assert_eq!(
        view.result,
        "Applications location verified.\nRunning copy (v0.12.0):\n/Applications/AppDock.app/Contents/MacOS/AppDock"
    );
    assert_eq!(view.primary, "Continue");
    assert!(view.primary_enabled);
    assert_eq!(view.secondary, "Open Applications");
    assert!(!view.secondary_hidden && view.secondary_enabled);
    assert!(!view.back_enabled && !view.install_graphic_hidden);

    let home_copy = "/Users/example/Applications/AppDock.app/Contents/MacOS/AppDock";
    let (view, _) = state
        .refresh_setup(true, &snapshot(false), &env(home_copy))
        .unwrap();
    assert!(view.result.starts_with("Applications location verified."));

    let elsewhere = SetupEnvironment {
        exe_path: None,
        home: None,
        version: "1.0.0".to_string(),
        shortcut_error: None,
    };
    let (view, _) = state.refresh_setup(true, &snapshot(false), &elsewhere).unwrap();
    assert_eq!(
        view.result,
        "This copy is outside Applications.\nInstalling there is recommended.\nRunning copy (v1.0.0):\nUnavailable"
    );
}

#[test]
fn installer_copy_leads_only_to_installation() {
    let exe = "/Volumes/AppDock/AppDock.app/Contents/MacOS/AppDock";
    let mut state = SetupState::new();
    let (view, _) = state.refresh_setup(true, &snapshot(true), &env(exe)).unwrap();
    assert_eq!(view.primary, "Quit & open Applications");
    assert!(view
        .result
        .starts_with("You opened the installer copy.\nInstall and reopen from Applications"));
    assert_eq!(
        state.setup_next(&snapshot(true), true),
        NextOutcome::QuitForInstall
    );
    assert_eq!(state.step, Step::Install);
    assert_eq!(state.setup_action(), SetupAction::OpenApplications);
}

#[test]
fn full_setup_flow_requires_live_evidence() {
    let exe = env(INSTALLED);
    let mut state = SetupState::new();
    assert_eq!(state.setup_next(&snapshot(false), false), NextOutcome::Stay);
    assert_eq!(state.step, Step::Permission);
    assert_eq!(state.setup_action(), SetupAction::OpenAccessibility);
    // Without access the permission step holds.
    assert_eq!(state.setup_next(&snapshot(false), false), NextOutcome::Stay);
    assert_eq!(state.step, Step::Permission);
    let (view, _) = state.refresh_setup(true, &snapshot(false), &exe).unwrap();
    assert!(!view.primary_enabled);
    assert!(view.result.starts_with("Not verified"));
    // With access, continuing starts the first check.
    assert_eq!(
        state.setup_next(&snapshot(true), false),
        NextOutcome::VerifySetup(1)
    );
    assert_eq!(state.step, Step::Verify);
    assert!(state.waiting);
    let (view, _) = state.refresh_setup(true, &snapshot(true), &exe).unwrap();
    assert_eq!(
        view.result,
        "Checking window access on the background worker…"
    );
    assert!(!view.primary_enabled && !view.secondary_enabled);
    // The check reports.
    let mut snap = snapshot(true);
    snap.readiness = Readiness {
        generation: 1,
        eligible_windows: 2,
        desktop_available: true,
        error: None,
    };
    let (view, _) = state.refresh_setup(true, &snap, &exe).unwrap();
    assert!(!state.waiting);
    assert_eq!(
        view.result,
        "Verified: 2 controllable window(s) and desktop geometry access.\nKeyboard shortcuts are checked while AppDock is active."
    );
    assert!(view.primary_enabled);
    assert_eq!(view.progress, "STEP 3 OF 5  ·  APPDOCK SETUP");
    assert_eq!(state.setup_next(&snap, false), NextOutcome::Stay);
    assert_eq!(state.step, Step::TryWindow);
    assert_eq!(state.setup_next(&snap, false), NextOutcome::ChooseWindow);
    assert!(state.test_started);
    // The wizard is hidden while the user docks a window.
    let (view, effect) = state.refresh_setup(false, &snap, &exe).unwrap();
    assert_eq!(effect, RefreshEffect::Stay);
    assert_eq!(
        view.result,
        "Waiting for a successful dock.\nIdle\nUse AppDock → Setup & Diagnostics to return here.\nIf an attempt left a failed tab, release it before retrying."
    );
    snap.setup_docked = true;
    snap.has_selection = true;
    let (view, effect) = state.refresh_setup(false, &snap, &exe).unwrap();
    assert_eq!(effect, RefreshEffect::Show);
    assert_eq!(state.step, Step::Finish);
    assert!(!state.test_started);
    assert!(view.primary_enabled);
    assert_eq!(view.primary, "Confirm & finish");
    assert!(view.secondary_hidden);
    // Completion is requested, fails once, then succeeds.
    assert_eq!(state.setup_next(&snap, false), NextOutcome::CompleteSetup(1));
    let (view, _) = state.refresh_setup(true, &snap, &exe).unwrap();
    assert_eq!(view.result, "Saving setup… Idle");
    assert!(!view.back_enabled && !view.primary_enabled);
    snap.completion = Some((1, Err("disk full".to_string())));
    let (view, effect) = state.refresh_setup(true, &snap, &exe).unwrap();
    assert_eq!(effect, RefreshEffect::Stay);
    assert!(!state.finishing);
    assert_eq!(
        view.result,
        "Could not save setup: disk full.\nTry Finish setup again."
    );
    assert_eq!(state.setup_next(&snap, false), NextOutcome::CompleteSetup(2));
    snap.completion = Some((1, Ok(())));
    let (_, effect) = state.refresh_setup(true, &snap, &exe).unwrap();
    assert_eq!(effect, RefreshEffect::Stay);
    snap.completion = Some((2, Ok(())));
    let (_, effect) = state.refresh_setup(true, &snap, &exe).unwrap();
    assert_eq!(effect, RefreshEffect::Close);
}

#[test]
fn stale_or_failed_checks_do_not_verify() {
    let exe = env(INSTALLED);
    let mut state = SetupState {
        step: Step::Verify,
        generation: 3,
        waiting: false,
        finishing: false,
        finish_generation: 0,
        test_started: false,
    };
    let mut snap = snapshot(true);
    snap.readiness = Readiness {
        generation: 2,
        eligible_windows: 4,
        desktop_available: true,
        error: None,
    };
    let (view, _) = state.refresh_setup(true, &snap, &exe).unwrap();
    assert_eq!(view.result, "Run the check to verify current access.");
    assert!(!view.primary_enabled);
    // Continuing without verification stays on the step and checks again.
    assert_eq!(state.setup_next(&snap, false), NextOutcome::VerifySetup(4));
    assert_eq!(state.step, Step::Verify);
    assert!(state.waiting);
    snap.readiness.generation = 4;
    snap.readiness.error = Some("Timed out".to_string());
    let (view, _) = state.refresh_setup(true, &snap, &exe).unwrap();
    assert_eq!(view.result, "Check failed: Timed out");
    snap.readiness.error = None;
    snap.readiness.desktop_available = false;
    let (view, _) = state.refresh_setup(true, &snap, &exe).unwrap();
    assert!(view.result.starts_with("Cannot read desktop window geometry."));
    snap.readiness.desktop_available = true;
    snap.readiness.eligible_windows = 0;
    let (view, _) = state.refresh_setup(true, &snap, &exe).unwrap();
    assert!(view.result.starts_with("No controllable windows found."));
    assert!(!state.waiting);
    assert_eq!(state.setup_action(), SetupAction::VerifySetup(5));
    assert!(state.waiting);
}

#[test]
fn revoked_access_returns_to_permission() {
    let exe = env(INSTALLED);
    let mut state = SetupState {
        step: Step::TryWindow,
        generation: 1,
        waiting: false,
        finishing: false,
        finish_generation: 0,
        test_started: true,
    };
    let (view, effect) = state.refresh_setup(false, &snapshot(false), &exe).unwrap();
    assert_eq!(effect, RefreshEffect::Show);
    assert_eq!(state.step, Step::Permission);
    assert!(!state.test_started);
    assert_eq!(view.title, "Allow window control");
    assert_eq!(view.progress, "STEP 2 OF 5  ·  APPDOCK SETUP");
}

#[test]
fn back_show_and_hide_adjust_the_wizard() {
    let mut state = SetupState {
        step: Step::Finish,
        generation: 1,
        waiting: true,
        finishing: true,
        finish_generation: 1,
        test_started: false,
    };
    state.show_setup(false);
    assert_eq!(state.step, Step::Install);
    assert!(!state.finishing);
    state.step = Step::Verify;
    state.setup_back();
    assert_eq!(state.step, Step::Permission);
    assert!(!state.waiting);
    state.test_started = true;
    state.hide_setup();
    assert!(!state.test_started);
    assert_eq!(state.verify_setup(), 2);
    assert!(state.waiting);
}

#[test]
fn hidden_wizard_restores_the_app_area() {
    assert_eq!(hidden_chrome(Some(3), &[1, 3], false), (true, true));
    assert_eq!(hidden_chrome(Some(3), &[1, 3], true), (false, true));
    assert_eq!(hidden_chrome(Some(2), &[1, 3], false), (false, false));
    assert_eq!(hidden_chrome(None, &[1, 3], true), (false, true));
}

#[test]
fn updates_need_an_installed_release_bundle() {
    assert_eq!(load_precondition("/Applications/AppDock.app", true, true), Ok(()));
    assert_eq!(
        load_precondition("/tmp/target/debug", true, true),
        Err("Install AppDock in Applications before checking for updates.")
    );
    assert_eq!(
        load_precondition("/Volumes/AppDock/AppDock.app", true, true),
        Err("Install AppDock in Applications before checking for updates.")
    );
    assert_eq!(
        load_precondition("/Applications/AppDock.app", true, false),
        Err("This development build does not include updates. Install a published AppDock release.")
    );
    assert_eq!(
        load_precondition("/Applications/AppDock.app", false, true),
        Err("This development build does not include updates. Install a published AppDock release.")
    );
}
