//! The in-workspace setup wizard: which step it shows, what each button does,
//! and the text of every screen. Window-access probes run elsewhere; their
//! results arrive as a `SetupSnapshot`.
use vstd::prelude::*;
use crate::onboarding::{Readiness, Step, from_installer, spec_from_installer};
use crate::text::{decimal, decimal_string, has_prefix, starts_with};

verus! {

/// Wizard state kept across refreshes.
#[derive(Clone, Copy, Debug, PartialEq, Eq, Structural)]
pub struct SetupState {
    pub step: Step,
    /// Generation of the most recent access check requested by the wizard.
    pub generation: u64,
    /// A requested check has not reported yet.
    pub waiting: bool,
    /// Completion was requested and its result has not arrived.
    pub finishing: bool,
    /// Generation of the most recent completion request.
    pub finish_generation: u64,
    /// The user left the wizard to try docking a window.
    pub test_started: bool,
}

/// What the wizard reads from the worker's latest snapshot.
pub struct SetupSnapshot {
    pub trusted: bool,
    pub setup_docked: bool,
    pub paused: bool,
    pub has_selection: bool,
    pub readiness: Readiness,
    /// Result of the most recent completion request, with its generation.
    pub completion: Option<(u64, Result<(), String>)>,
    pub status: String,
}

/// Facts about the running copy that the wizard displays.
pub struct SetupEnvironment {
    /// The running executable, if it can be found.
    pub exe_path: Option<String>,
    /// `$HOME`, if set.
    pub home: Option<String>,
    pub version: String,
    /// Why keyboard shortcuts could not be registered, if they could not.
    pub shortcut_error: Option<String>,
}

/// What the wizard shows.
pub struct SetupView {
    pub progress: String,
    pub title: &'static str,
    pub detail: &'static str,
    pub result: String,
    pub primary: &'static str,
    pub primary_enabled: bool,
    pub secondary: &'static str,
    pub secondary_hidden: bool,
    pub secondary_enabled: bool,
    pub back_enabled: bool,
    pub install_graphic_hidden: bool,
}

/// After a refresh: close the wizard (setup completed), bring it back (a
/// docking attempt finished or access was lost during one), or neither.
#[derive(Clone, Copy, Debug, PartialEq, Eq, Structural)]
pub enum RefreshEffect {
    Stay,
    Show,
    Close,
}

/// What the primary button does.
#[derive(Clone, Copy, Debug, PartialEq, Eq, Structural)]
pub enum NextOutcome {
    /// The installer's copy is running: open Applications and quit.
    QuitForInstall,
    /// Hide the wizard, resume docking and open the window picker.
    ChooseWindow,
    /// Ask the worker to record completion under this generation.
    CompleteSetup(u64),
    /// Ask the worker to check window access under this generation.
    VerifySetup(u64),
    /// Nothing to send.
    Stay,
}

/// What the secondary button does.
#[derive(Clone, Copy, Debug, PartialEq, Eq, Structural)]
pub enum SetupAction {
    OpenApplications,
    OpenAccessibility,
    VerifySetup(u64),
    Nothing,
}

impl SetupState {
    /// The wizard starts at installation with nothing pending.
    pub fn new() -> (s: SetupState)
        ensures
            s == (SetupState {
                step: Step::Install,
                generation: 0,
                waiting: false,
                finishing: false,
                finish_generation: 0,
                test_started: false,
            }),
    {
        SetupState {
            step: Step::Install,
            generation: 0,
            waiting: false,
            finishing: false,
            finish_generation: 0,
            test_started: false,
        }
    }

    /// Opening a hidden wizard after a finished setup starts over.
    pub fn show_setup(&mut self, visible: bool)
        ensures
            *final(self) == if !visible && !old(self).test_started && old(self).finishing {
                SetupState { step: Step::Install, finishing: false, ..*old(self) }
            } else {
                *old(self)
            },
    {
        if !visible && !self.test_started && self.finishing {
            self.step = Step::Install;
            self.finishing = false;
        }
    }

    /// Hiding the wizard abandons a docking attempt started from it.
    pub fn hide_setup(&mut self)
        ensures
            *final(self) == (SetupState { test_started: false, ..*old(self) }),
    {
        self.test_started = false;
    }

    /// Back one step, dropping any pending check or completion.
    pub fn setup_back(&mut self)
        ensures
            *final(self) == (SetupState {
                step: old(self).step.spec_back(),
                waiting: false,
                finishing: false,
                ..*old(self)
            }),
    {
        self.step = self.step.back();
        self.waiting = false;
        self.finishing = false;
    }

    /// Requests a new access check; the result counts only if it carries the
    /// returned generation.
    pub fn verify_setup(&mut self) -> (generation: u64)
        requires
            old(self).generation < u64::MAX,
        ensures
            generation == old(self).generation + 1,
            *final(self) == (SetupState { generation, waiting: true, ..*old(self) }),
    {
        self.generation = self.generation + 1;
        self.waiting = true;
        self.generation
    }

    /// The check the wizard asked for has reported and passed.
    pub open spec fn verified(self, snap: SetupSnapshot) -> bool {
        !self.waiting && snap.readiness.generation == self.generation && snap.readiness.spec_passed(
            snap.trusted,
        )
    }

    /// The primary button. The installer's copy only leads to installation;
    /// trying a window hands over to the picker; finishing needs trusted
    /// access, a docked window and no pause; other steps advance on their
    /// evidence, and reaching the check step starts a check.
    pub open spec fn spec_setup_next(self, snap: SetupSnapshot, installer_copy: bool) -> (
        SetupState,
        NextOutcome,
    ) {
        if installer_copy && self.step == Step::Install {
            (self, NextOutcome::QuitForInstall)
        } else if self.step == Step::TryWindow {
            (SetupState { test_started: true, ..self }, NextOutcome::ChooseWindow)
        } else if self.step == Step::Finish {
            if snap.trusted && snap.setup_docked && !snap.paused {
                let g = (self.finish_generation + 1) as u64;
                (
                    SetupState { finishing: true, finish_generation: g, ..self },
                    NextOutcome::CompleteSetup(g),
                )
            } else {
                (self, NextOutcome::Stay)
            }
        } else {
            let step = self.step.spec_next(snap.trusted, self.verified(snap), snap.setup_docked);
            if step == Step::Verify {
                let g = (self.generation + 1) as u64;
                (
                    SetupState { step, generation: g, waiting: true, ..self },
                    NextOutcome::VerifySetup(g),
                )
            } else {
                (SetupState { step, ..self }, NextOutcome::Stay)
            }
        }
    }

    /// `installer_copy`: the running executable is the installer's copy.
    pub fn setup_next(&mut self, snap: &SetupSnapshot, installer_copy: bool) -> (outcome: NextOutcome)
        requires
            old(self).step == Step::Finish && snap.trusted && snap.setup_docked && !snap.paused
                ==> old(self).finish_generation < u64::MAX,
            old(self).step != Step::Finish && old(self).step != Step::TryWindow && !(installer_copy
                && old(self).step == Step::Install) && old(self).step.spec_next(
                snap.trusted,
                old(self).verified(*snap),
                snap.setup_docked,
            ) == Step::Verify ==> old(self).generation < u64::MAX,
        ensures
            (*final(self), outcome) == old(self).spec_setup_next(*snap, installer_copy),
    {
        if installer_copy && self.step == Step::Install {
            return NextOutcome::QuitForInstall;
        }
        if self.step == Step::TryWindow {
            self.test_started = true;
            return NextOutcome::ChooseWindow;
        }
        if self.step == Step::Finish {
            if snap.trusted && snap.setup_docked && !snap.paused {
                self.finishing = true;
                self.finish_generation = self.finish_generation + 1;
                return NextOutcome::CompleteSetup(self.finish_generation);
            }
            return NextOutcome::Stay;
        }
        let verified = !self.waiting && snap.readiness.generation == self.generation
            && snap.readiness.passed(snap.trusted);
        self.step = self.step.next(snap.trusted, verified, snap.setup_docked);
        if self.step == Step::Verify {
            let g = self.verify_setup();
            return NextOutcome::VerifySetup(g);
        }
        NextOutcome::Stay
    }

    /// The secondary button: open Applications while installing, open the
    /// Accessibility settings for permission, and check again while verifying.
    pub fn setup_action(&mut self) -> (action: SetupAction)
        requires
            old(self).step == Step::Verify ==> old(self).generation < u64::MAX,
        ensures
            match old(self).step {
                Step::Install => action == SetupAction::OpenApplications && *final(self) == *old(
                    self,
                ),
                Step::Permission => action == SetupAction::OpenAccessibility && *final(self)
                    == *old(self),
                Step::Verify => action == SetupAction::VerifySetup(
                    (old(self).generation + 1) as u64,
                ) && *final(self) == (SetupState {
                    generation: (old(self).generation + 1) as u64,
                    waiting: true,
                    ..*old(self)
                }),
                _ => action == SetupAction::Nothing && *final(self) == *old(self),
            },
    {
        match self.step {
            Step::Install => SetupAction::OpenApplications,
            Step::Permission => SetupAction::OpenAccessibility,
            Step::Verify => {
                let g = self.verify_setup();
                SetupAction::VerifySetup(g)
            },
            _ => SetupAction::Nothing,
        }
    }
}

fn contains(items: &[u64], id: u64) -> (found: bool)
    ensures
        found == items@.contains(id),
{
    let mut i: usize = 0;
    while i < items.len()
        invariant
            i <= items@.len(),
            forall|k: int| 0 <= k < i ==> items@[k] != id,
        decreases items@.len() - i,
    {
        if items[i] == id {
            assert(items@[i as int] == id);
            return true;
        }
        i = i + 1;
    }
    false
}

/// Hiding the wizard: the app area is live when the selected tab has a live
/// window and the picker is closed; the empty-workspace hint shows only when
/// neither a live selection nor the picker is on screen.
/// Returns (app area live, hint hidden).
pub fn hidden_chrome(selected: Option<u64>, live_tabs: &[u64], picker_open: bool) -> (chrome: (
    bool,
    bool,
))
    ensures
        ({
            let attached = selected matches Some(id) && live_tabs@.contains(id);
            chrome == (attached && !picker_open, attached || picker_open)
        }),
{
    let attached = match selected {
        Some(id) => contains(live_tabs, id),
        None => false,
    };
    (attached && !picker_open, attached || picker_open)
}


/// The state after a refresh, and what the refresh asks of the window:
/// a reported check stops the wait; losing access returns to the permission
/// step (and brings back a wizard left for a docking attempt); a successful
/// docking attempt advances to the last step when access is trusted and
/// brings the wizard back; the completion result for the latest request
/// closes the wizard on success and re-enables finishing on failure.
pub open spec fn spec_refreshed(state: SetupState, snap: SetupSnapshot) -> (SetupState, RefreshEffect) {
    let s1 = if state.waiting && snap.readiness.generation == state.generation {
        SetupState { waiting: false, ..state }
    } else {
        state
    };
    let lost = !snap.trusted && s1.step.spec_number() > 2;
    let s2 = if lost {
        SetupState { step: Step::Permission, waiting: false, test_started: false, ..s1 }
    } else {
        s1
    };
    let docked = s2.test_started && snap.setup_docked && !snap.paused && snap.has_selection;
    let s3 = if docked {
        SetupState {
            step: Step::TryWindow.spec_next(snap.trusted, true, true),
            test_started: false,
            ..s2
        }
    } else {
        s2
    };
    let show = (lost && s1.test_started) || docked;
    let (s4, close) = match snap.completion {
        Some((g, r)) => if s3.finishing && g == s3.finish_generation {
            if r is Ok {
                (s3, true)
            } else {
                (SetupState { finishing: false, ..s3 }, false)
            }
        } else {
            (s3, false)
        },
        None => (s3, false),
    };
    (
        s4,
        if close {
            RefreshEffect::Close
        } else if show {
            RefreshEffect::Show
        } else {
            RefreshEffect::Stay
        },
    )
}

/// Without trusted access a refresh leaves the wizard neither on the check
/// step nor on the last step, and clears a wait whose check has reported.
/// A refresh closes the wizard exactly when a completion request is
/// outstanding and its own result (same generation) reports success; a
/// failure for it re-enables finishing. Without an outstanding request the
/// completion result changes nothing: a wizard reopened after an earlier
/// completion stays open.
pub proof fn lemma_refresh_closes_only_on_own_success(state: SetupState, snap: SetupSnapshot)
    ensures
        (spec_refreshed(state, snap).1 == RefreshEffect::Close) <==> (state.finishing && match snap.completion {
            Some((g, r)) => g == state.finish_generation && r is Ok,
            None => false,
        }),
        !state.finishing ==> !spec_refreshed(state, snap).0.finishing,
        (state.finishing && match snap.completion {
            Some((g, r)) => g == state.finish_generation && r is Err,
            None => false,
        }) ==> !spec_refreshed(state, snap).0.finishing,
        !state.finishing ==> spec_refreshed(state, snap) == spec_refreshed(
            state,
            SetupSnapshot { completion: None, ..snap },
        ),
{
}

pub proof fn lemma_refresh_without_access(state: SetupState, snap: SetupSnapshot)
    requires
        !snap.trusted,
    ensures
        spec_refreshed(state, snap).0.step != Step::Verify,
        spec_refreshed(state, snap).0.step != Step::Finish,
{
}

/// Completing setup is requested only with trusted access, a docked window
/// and docking not paused, and only from the last step.
pub proof fn lemma_completion_needs_evidence(state: SetupState, snap: SetupSnapshot, installer_copy: bool)
    ensures
        state.spec_setup_next(snap, installer_copy).1 is CompleteSetup ==> {
            &&& state.step == Step::Finish
            &&& snap.trusted && snap.setup_docked && !snap.paused
        },
        state.spec_setup_next(snap, installer_copy).1 is ChooseWindow ==> state.step
            == Step::TryWindow,
{
}

/// The wizard's text and controls, as sequences of characters.
pub struct SetupText {
    pub progress: Seq<char>,
    pub title: Seq<char>,
    pub detail: Seq<char>,
    pub result: Seq<char>,
    pub primary: Seq<char>,
    pub primary_enabled: bool,
    pub secondary: Seq<char>,
    pub secondary_hidden: bool,
    pub secondary_enabled: bool,
    pub back_enabled: bool,
    pub install_graphic_hidden: bool,
}

impl View for SetupView {
    type V = SetupText;

    open spec fn view(&self) -> SetupText {
        SetupText {
            progress: self.progress@,
            title: self.title@,
            detail: self.detail@,
            result: self.result@,
            primary: self.primary@,
            primary_enabled: self.primary_enabled,
            secondary: self.secondary@,
            secondary_hidden: self.secondary_hidden,
            secondary_enabled: self.secondary_enabled,
            back_enabled: self.back_enabled,
            install_graphic_hidden: self.install_graphic_hidden,
        }
    }
}

/// The running executable's path, as displayed.
pub open spec fn exe_text(env: SetupEnvironment) -> Seq<char> {
    match env.exe_path {
        Some(p) => p@,
        None => "Unavailable"@,
    }
}

/// The running copy lies inside `/Applications` or `$HOME/Applications`.
pub open spec fn runs_from_applications(path: Seq<char>, home: Option<String>) -> bool {
    has_prefix(path, "/Applications/"@) || (home matches Some(h) && has_prefix(
        path,
        h@ + "/Applications/"@,
    ))
}

pub open spec fn install_result(env: SetupEnvironment) -> Seq<char> {
    let path = exe_text(env);
    (if runs_from_applications(path, env.home) {
        "Applications location verified."@
    } else if spec_from_installer(path) {
        "You opened the installer copy.\nInstall and reopen from Applications before granting access."@
    } else {
        "This copy is outside Applications.\nInstalling there is recommended."@
    }) + "\nRunning copy (v"@ + env.version@ + "):\n"@ + path
}

pub open spec fn shortcut_text(env: SetupEnvironment, otherwise: Seq<char>) -> Seq<char> {
    match env.shortcut_error {
        Some(e) => e@,
        None => otherwise,
    }
}

pub open spec fn verify_result(state: SetupState, snap: SetupSnapshot, env: SetupEnvironment) -> Seq<char> {
    if state.waiting {
        "Checking window access on the background worker…"@
    } else if snap.readiness.error is Some {
        "Check failed: "@ + snap.readiness.error->0@
    } else if snap.readiness.generation != state.generation {
        "Run the check to verify current access."@
    } else if !snap.readiness.desktop_available {
        "Cannot read desktop window geometry.\nReopen AppDock in your logged-in desktop session and retry."@
    } else if snap.readiness.eligible_windows == 0 {
        "No controllable windows found.\nOpen a normal Finder or TextEdit window on this desktop, leave fullscreen, close dialogs, then retry."@
    } else {
        "Verified: "@ + decimal(snap.readiness.eligible_windows as nat)
            + " controllable window(s) and desktop geometry access.\n"@ + shortcut_text(
            env,
            "Keyboard shortcuts are checked while AppDock is active."@,
        )
    }
}

pub open spec fn try_window_result(state: SetupState, snap: SetupSnapshot) -> Seq<char> {
    if state.test_started {
        "Waiting for a successful dock.\n"@ + snap.status@
            + "\nUse AppDock → Setup & Diagnostics to return here.\nIf an attempt left a failed tab, release it before retrying."@
    } else {
        "Choose an ordinary app window that can move and resize."@
    }
}

pub open spec fn finish_result(state: SetupState, snap: SetupSnapshot, env: SetupEnvironment) -> Seq<char> {
    if state.finishing {
        "Saving setup… "@ + snap.status@
    } else {
        match snap.completion {
            Some((_, Err(e))) => "Could not save setup: "@ + e@ + ".\nTry Finish setup again."@,
            _ => shortcut_text(env, "Accessibility and a real docking operation passed."@),
        }
    }
}

/// (title, detail, primary, secondary) of each step.
pub open spec fn step_labels(step: Step, installer_copy: bool) -> (Seq<char>, Seq<char>, Seq<char>, Seq<char>) {
    match step {
        Step::Install => (
            "Install AppDock"@,
            "Drag AppDock.app onto Applications in the installer window.\nThen eject the installer and open AppDock from Applications.\nAlready downloaded a ZIP? Move its AppDock.app into Applications first."@,
            if installer_copy {
                "Quit & open Applications"@
            } else {
                "Continue"@
            },
            "Open Applications"@,
        ),
        Step::Permission => (
            "Allow window control"@,
            "Open Accessibility settings and enable AppDock.\nThis lets it move, resize and focus the windows you choose.\nIf AppDock is already enabled but this check fails: remove its old entry, add this running copy with +, then quit and reopen AppDock.\nScreen Recording and Input Monitoring are not required."@,
            "Continue"@,
            "Open Accessibility Settings"@,
        ),
        Step::Verify => (
            "Check your workspace"@,
            "AppDock checks real window access and the move, resize, minimize and raise capabilities needed for docking.\nNo window is changed during this check.\nSome apps and dialogs do not support these operations."@,
            "Continue"@,
            "Check again"@,
        ),
        Step::TryWindow => (
            "Try your first window"@,
            "Choose a window in Add App.\nAppDock will dock it and verify its position and focus.\nThe window remains in your workspace.\nOnce docked, click inside the app to check interaction.\nClose its AppDock tab whenever you want to release it; the app keeps running."@,
            "Choose a window"@,
            ""@,
        ),
        Step::Finish => (
            "Window control verified"@,
            "AppDock successfully docked your window and checked its frame, focus and desktop window identity.\nConfirm that you can click and type in the docked app, then finish setup.\nYou can rerun these checks from AppDock → Setup & Diagnostics."@,
            "Confirm & finish"@,
            ""@,
        ),
    }
}

/// What the wizard shows in `state` (after the refresh).
pub open spec fn spec_setup_text(state: SetupState, snap: SetupSnapshot, env: SetupEnvironment) -> SetupText {
    let (title, detail, primary, secondary) = step_labels(
        state.step,
        spec_from_installer(exe_text(env)),
    );
    SetupText {
        progress: "STEP "@ + decimal(state.step.spec_number()) + " OF 5  ·  APPDOCK SETUP"@,
        title,
        detail,
        result: match state.step {
            Step::Install => install_result(env),
            Step::Permission => if snap.trusted {
                "Verified: macOS grants this running copy Accessibility access."@
            } else {
                "Not verified: macOS has not granted this process access.\nThis check updates automatically when you return."@
            },
            Step::Verify => verify_result(state, snap, env),
            Step::TryWindow => try_window_result(state, snap),
            Step::Finish => finish_result(state, snap, env),
        },
        primary,
        primary_enabled: match state.step {
            Step::Install => true,
            Step::Permission => snap.trusted,
            Step::Verify => state.verified(snap),
            Step::TryWindow => snap.trusted,
            Step::Finish => snap.trusted && snap.setup_docked && !snap.paused && !state.finishing,
        },
        secondary,
        secondary_hidden: secondary.len() == 0,
        secondary_enabled: !state.waiting,
        back_enabled: state.step != Step::Install && !state.finishing,
        install_graphic_hidden: state.step != Step::Install,
    }
}


fn exe_path_text(env: &SetupEnvironment) -> (path: String)
    ensures
        path@ == exe_text(*env),
{
    match &env.exe_path {
        Some(p) => p.clone(),
        None => String::from_str("Unavailable"),
    }
}

fn applications_copy(path: &str, home: &Option<String>) -> (yes: bool)
    ensures
        yes == runs_from_applications(path@, *home),
{
    if starts_with(path, "/Applications/") {
        return true;
    }
    match home {
        Some(h) => {
            let mut prefix = h.clone();
            prefix.append("/Applications/");
            starts_with(path, prefix.as_str())
        },
        None => false,
    }
}

fn labels(step: Step, installer_copy: bool) -> (l: (&'static str, &'static str, &'static str, &'static str))
    ensures
        (l.0@, l.1@, l.2@, l.3@) == step_labels(step, installer_copy),
{
    match step {
        Step::Install => (
            "Install AppDock",
            "Drag AppDock.app onto Applications in the installer window.\nThen eject the installer and open AppDock from Applications.\nAlready downloaded a ZIP? Move its AppDock.app into Applications first.",
            if installer_copy {
                "Quit & open Applications"
            } else {
                "Continue"
            },
            "Open Applications",
        ),
        Step::Permission => (
            "Allow window control",
            "Open Accessibility settings and enable AppDock.\nThis lets it move, resize and focus the windows you choose.\nIf AppDock is already enabled but this check fails: remove its old entry, add this running copy with +, then quit and reopen AppDock.\nScreen Recording and Input Monitoring are not required.",
            "Continue",
            "Open Accessibility Settings",
        ),
        Step::Verify => (
            "Check your workspace",
            "AppDock checks real window access and the move, resize, minimize and raise capabilities needed for docking.\nNo window is changed during this check.\nSome apps and dialogs do not support these operations.",
            "Continue",
            "Check again",
        ),
        Step::TryWindow => (
            "Try your first window",
            "Choose a window in Add App.\nAppDock will dock it and verify its position and focus.\nThe window remains in your workspace.\nOnce docked, click inside the app to check interaction.\nClose its AppDock tab whenever you want to release it; the app keeps running.",
            "Choose a window",
            "",
        ),
        Step::Finish => (
            "Window control verified",
            "AppDock successfully docked your window and checked its frame, focus and desktop window identity.\nConfirm that you can click and type in the docked app, then finish setup.\nYou can rerun these checks from AppDock → Setup & Diagnostics.",
            "Confirm & finish",
            "",
        ),
    }
}

fn shortcut_or(env: &SetupEnvironment, otherwise: &str) -> (text: String)
    ensures
        text@ == shortcut_text(*env, otherwise@),
{
    match &env.shortcut_error {
        Some(e) => e.clone(),
        None => String::from_str(otherwise),
    }
}

fn install_text(env: &SetupEnvironment) -> (text: String)
    ensures
        text@ == install_result(*env),
{
    let path = exe_path_text(env);
    let mut text = if applications_copy(path.as_str(), &env.home) {
        String::from_str("Applications location verified.")
    } else if from_installer(path.as_str()) {
        String::from_str(
            "You opened the installer copy.\nInstall and reopen from Applications before granting access.",
        )
    } else {
        String::from_str("This copy is outside Applications.\nInstalling there is recommended.")
    };
    text.append("\nRunning copy (v");
    text.append(env.version.as_str());
    text.append("):\n");
    text.append(path.as_str());
    text
}

fn verify_text(state: &SetupState, snap: &SetupSnapshot, env: &SetupEnvironment) -> (text: String)
    ensures
        text@ == verify_result(*state, *snap, *env),
{
    if state.waiting {
        String::from_str("Checking window access on the background worker…")
    } else if let Some(error) = &snap.readiness.error {
        let mut text = String::from_str("Check failed: ");
        text.append(error.as_str());
        text
    } else if snap.readiness.generation != state.generation {
        String::from_str("Run the check to verify current access.")
    } else if !snap.readiness.desktop_available {
        String::from_str(
            "Cannot read desktop window geometry.\nReopen AppDock in your logged-in desktop session and retry.",
        )
    } else if snap.readiness.eligible_windows == 0 {
        String::from_str(
            "No controllable windows found.\nOpen a normal Finder or TextEdit window on this desktop, leave fullscreen, close dialogs, then retry.",
        )
    } else {
        let mut text = String::from_str("Verified: ");
        let count = decimal_string(snap.readiness.eligible_windows as u64);
        text.append(count.as_str());
        text.append(" controllable window(s) and desktop geometry access.\n");
        let shortcuts = shortcut_or(env, "Keyboard shortcuts are checked while AppDock is active.");
        text.append(shortcuts.as_str());
        text
    }
}

fn try_window_text(state: &SetupState, snap: &SetupSnapshot) -> (text: String)
    ensures
        text@ == try_window_result(*state, *snap),
{
    if state.test_started {
        let mut text = String::from_str("Waiting for a successful dock.\n");
        text.append(snap.status.as_str());
        text.append(
            "\nUse AppDock → Setup & Diagnostics to return here.\nIf an attempt left a failed tab, release it before retrying.",
        );
        text
    } else {
        String::from_str("Choose an ordinary app window that can move and resize.")
    }
}

fn finish_text(state: &SetupState, snap: &SetupSnapshot, env: &SetupEnvironment) -> (text: String)
    ensures
        text@ == finish_result(*state, *snap, *env),
{
    if state.finishing {
        let mut text = String::from_str("Saving setup… ");
        text.append(snap.status.as_str());
        text
    } else {
        match &snap.completion {
            Some((_, Err(error))) => {
                let mut text = String::from_str("Could not save setup: ");
                text.append(error.as_str());
                text.append(".\nTry Finish setup again.");
                text
            },
            _ => shortcut_or(env, "Accessibility and a real docking operation passed."),
        }
    }
}

impl SetupState {
    /// Refreshes a wizard that is on screen or waiting for a docking attempt
    /// (otherwise nothing changes and `None` is returned): applies the
    /// snapshot's evidence and returns what to show and what to do.
    pub fn refresh_setup(&mut self, visible: bool, snap: &SetupSnapshot, env: &SetupEnvironment) -> (out: Option<
        (SetupView, RefreshEffect),
    >)
        ensures
            out is None <==> (!visible && !old(self).test_started),
            out is None ==> *final(self) == *old(self),
            out matches Some((view, effect)) ==> {
                &&& (*final(self), effect) == spec_refreshed(*old(self), *snap)
                &&& view@ == spec_setup_text(*final(self), *snap, *env)
            },
    {
        if !visible && !self.test_started {
            return None;
        }
        if self.waiting && snap.readiness.generation == self.generation {
            self.waiting = false;
        }
        let mut show = false;
        let mut close = false;
        if !snap.trusted && self.step.number() > 2 {
            self.step = Step::Permission;
            self.waiting = false;
            show = self.test_started;
            self.test_started = false;
        }
        if self.test_started && snap.setup_docked && !snap.paused && snap.has_selection {
            self.step = Step::TryWindow.next(snap.trusted, true, true);
            self.test_started = false;
            show = true;
        }
        if self.finishing {
            if let Some((generation, result)) = &snap.completion {
                if *generation == self.finish_generation {
                    if result.is_ok() {
                        close = true;
                    } else {
                        self.finishing = false;
                    }
                }
            }
        }
        let mut progress = String::from_str("STEP ");
        let number = decimal_string(self.step.number() as u64);
        progress.append(number.as_str());
        progress.append(" OF 5  ·  APPDOCK SETUP");
        let path = exe_path_text(env);
        let (title, detail, primary, secondary) = labels(self.step, from_installer(path.as_str()));
        let result = match self.step {
            Step::Install => install_text(env),
            Step::Permission => if snap.trusted {
                String::from_str("Verified: macOS grants this running copy Accessibility access.")
            } else {
                String::from_str(
                    "Not verified: macOS has not granted this process access.\nThis check updates automatically when you return.",
                )
            },
            Step::Verify => verify_text(self, snap, env),
            Step::TryWindow => try_window_text(self, snap),
            Step::Finish => finish_text(self, snap, env),
        };
        let primary_enabled = match self.step {
            Step::Install => true,
            Step::Permission => snap.trusted,
            Step::Verify => !self.waiting && snap.readiness.generation == self.generation
                && snap.readiness.passed(snap.trusted),
            Step::TryWindow => snap.trusted,
            Step::Finish => snap.trusted && snap.setup_docked && !snap.paused && !self.finishing,
        };
        let view = SetupView {
            progress,
            title,
            detail,
            result,
            primary,
            primary_enabled,
            secondary,
            secondary_hidden: secondary.is_empty(),
            secondary_enabled: !self.waiting,
            back_enabled: self.step != Step::Install && !self.finishing,
            install_graphic_hidden: self.step != Step::Install,
        };
        let effect = if close {
            RefreshEffect::Close
        } else if show {
            RefreshEffect::Show
        } else {
            RefreshEffect::Stay
        };
        Some((view, effect))
    }
}

} // verus!
