//! Setup evidence is session-local. A saved completion flag never grants access.
use vstd::prelude::*;
use crate::paths::{
    components, extension, join, parent, path_components, path_extension, path_join, path_parent,
};
use crate::text::{has_prefix, push_char, starts_with, str_eq};

verus! {

/// Evidence gathered by the most recent window-access check.
#[derive(Clone, Debug, Default)]
pub struct Readiness {
    pub generation: u64,
    pub eligible_windows: usize,
    pub desktop_available: bool,
    pub error: Option<String>,
}

impl Readiness {
    /// The check counts only when access is trusted now and the latest probe
    /// found a desktop, at least one eligible window, and no error.
    pub open spec fn spec_passed(&self, trusted: bool) -> bool {
        &&& trusted
        &&& self.generation > 0
        &&& self.eligible_windows > 0
        &&& self.desktop_available
        &&& self.error is None
    }

    /// A saved or earlier result never grants access: without trusted access
    /// no evidence passes, and neither does an unrun check (generation zero).
    pub proof fn lemma_untrusted_never_passes(&self)
        ensures
            !self.spec_passed(false),
            self.generation == 0 ==> !self.spec_passed(true),
    {
    }

    /// Each piece of evidence is necessary: a check that found no eligible
    /// window, no desktop, or an error never passes; and together with
    /// trusted access and a run check they suffice.
    pub proof fn lemma_passed_needs_all_evidence(&self, trusted: bool)
        ensures
            self.eligible_windows == 0 ==> !self.spec_passed(trusted),
            !self.desktop_available ==> !self.spec_passed(trusted),
            self.error is Some ==> !self.spec_passed(trusted),
            self.generation == 0 ==> !self.spec_passed(trusted),
            !trusted ==> !self.spec_passed(trusted),
            trusted && self.generation > 0 && self.eligible_windows > 0 && self.desktop_available
                && self.error is None ==> self.spec_passed(trusted),
    {
    }

    pub fn passed(&self, trusted: bool) -> (ok: bool)
        ensures
            ok == self.spec_passed(trusted),
    {
        trusted && self.generation > 0 && self.eligible_windows > 0 && self.desktop_available
            && self.error.is_none()
    }
}

/// The five setup screens, in order.
#[derive(Clone, Copy, Debug, Default, PartialEq, Eq, Structural)]
pub enum Step {
    #[default]
    Install,
    Permission,
    Verify,
    TryWindow,
    Finish,
}

impl Step {
    /// One-based position of the step on the progress line.
    pub open spec fn spec_number(self) -> nat {
        match self {
            Step::Install => 1,
            Step::Permission => 2,
            Step::Verify => 3,
            Step::TryWindow => 4,
            Step::Finish => 5,
        }
    }

    /// Moving forward: installing is always acknowledged; every later step
    /// needs its own live evidence, and the last step never advances.
    pub open spec fn spec_next(self, trusted: bool, verified: bool, docked: bool) -> Step {
        match self {
            Step::Install => Step::Permission,
            Step::Permission => if trusted { Step::Verify } else { self },
            Step::Verify => if verified { Step::TryWindow } else { self },
            Step::TryWindow => if trusted && docked { Step::Finish } else { self },
            Step::Finish => self,
        }
    }

    /// Moving back one screen; the first screen stays put.
    pub open spec fn spec_back(self) -> Step {
        match self {
            Step::Install => Step::Install,
            Step::Permission => Step::Install,
            Step::Verify => Step::Permission,
            Step::TryWindow => Step::Verify,
            Step::Finish => Step::TryWindow,
        }
    }

    /// Progress is gated on live evidence: a step advances by at most one and
    /// going back undoes the advance; the permission step never passes
    /// without trusted access, the check step never passes unverified, and
    /// finishing needs trusted access and a docked window.
    pub proof fn lemma_next_is_gated(self, trusted: bool, verified: bool, docked: bool)
        ensures
            ({
                let n = self.spec_next(trusted, verified, docked);
                &&& 1 <= n.spec_number() <= 5
                &&& n.spec_number() == self.spec_number() || n.spec_number() == self.spec_number() + 1
                &&& n != self ==> n.spec_back() == self
                &&& self == Step::Permission && !trusted ==> n == self
                &&& self == Step::Verify && !verified ==> n == self
                &&& n == Step::Finish ==> self == Step::Finish || (trusted && docked)
            }),
    {
    }

    /// Going back moves exactly one step toward installation, which stays put.
    pub proof fn lemma_back_is_one_step(self)
        ensures
            self == Step::Install ==> self.spec_back() == Step::Install,
            self != Step::Install ==> self.spec_back().spec_number() + 1 == self.spec_number(),
    {
    }

    pub fn number(self) -> (n: usize)
        ensures
            n == self.spec_number(),
    {
        match self {
            Step::Install => 1,
            Step::Permission => 2,
            Step::Verify => 3,
            Step::TryWindow => 4,
            Step::Finish => 5,
        }
    }

    pub fn next(self, trusted: bool, verified: bool, docked: bool) -> (s: Step)
        ensures
            s == self.spec_next(trusted, verified, docked),
    {
        match self {
            Step::Install => Step::Permission,
            Step::Permission if trusted => Step::Verify,
            Step::Verify if verified => Step::TryWindow,
            Step::TryWindow if trusted && docked => Step::Finish,
            _ => self,
        }
    }

    pub fn back(self) -> (s: Step)
        ensures
            s == self.spec_back(),
    {
        match self {
            Step::Install | Step::Permission => Step::Install,
            Step::Verify => Step::Permission,
            Step::TryWindow => Step::Verify,
            Step::Finish => Step::TryWindow,
        }
    }
}

/// `Path::starts_with`: `base`'s components are the first components of `p`.
pub open spec fn components_start_with(parts: Seq<Seq<char>>, base: Seq<Seq<char>>) -> bool {
    base.len() <= parts.len() && forall|i: int| 0 <= i < base.len() ==> parts[i] == base[i]
}

/// The text of each component, as a sequence.
pub open spec fn texts(parts: Seq<String>) -> Seq<Seq<char>> {
    parts.map_values(|s: String| s@)
}

/// Components of a copy run from a mounted installer volume (under
/// `/Volumes`, whose components are `/` and `Volumes`) or from App
/// Translocation.
pub open spec fn spec_installer_parts(parts: Seq<Seq<char>>) -> bool {
    components_start_with(parts, seq!["/"@, "Volumes"@]) || parts.contains("AppTranslocation"@)
}

/// Copies run from a mounted installer volume or from App Translocation.
pub open spec fn spec_from_installer(p: Seq<char>) -> bool {
    spec_installer_parts(path_components(p))
}

fn has_component_prefix(parts: &Vec<String>, base: &Vec<String>) -> (yes: bool)
    ensures
        yes == components_start_with(texts(parts@), texts(base@)),
{
    if base.len() > parts.len() {
        return false;
    }
    let mut i: usize = 0;
    while i < base.len()
        invariant
            base@.len() <= parts@.len(),
            i <= base@.len(),
            forall|k: int| 0 <= k < i ==> parts@[k]@ == base@[k]@,
        decreases base@.len() - i,
    {
        if !str_eq(parts[i].as_str(), base[i].as_str()) {
            assert(texts(parts@)[i as int] != texts(base@)[i as int]);
            return false;
        }
        i = i + 1;
    }
    true
}

fn root_prefixed(parts: &Vec<String>, name: &str) -> (yes: bool)
    ensures
        yes == components_start_with(texts(parts@), seq!["/"@, name@]),
{
    let yes = parts.len() >= 2 && str_eq(parts[0].as_str(), "/") && str_eq(parts[1].as_str(), name);
    proof {
        if parts@.len() >= 2 {
            assert(texts(parts@)[0] == parts@[0]@);
            assert(texts(parts@)[1] == parts@[1]@);
        }
    }
    yes
}

/// A copy is an installer copy exactly when its path begins with the root
/// and `Volumes` components, or has an `AppTranslocation` component anywhere.
pub proof fn lemma_installer_parts_cases(parts: Seq<Seq<char>>, i: int)
    ensures
        (parts.len() >= 2 && parts[0] == "/"@ && parts[1] == "Volumes"@) ==> spec_installer_parts(
            parts,
        ),
        (0 <= i < parts.len() && parts[i] == "AppTranslocation"@) ==> spec_installer_parts(parts),
        spec_installer_parts(parts) ==> (parts.len() >= 2 && parts[0] == "/"@ && parts[1]
            == "Volumes"@) || exists|k: int|
            0 <= k < parts.len() && #[trigger] parts[k] == "AppTranslocation"@,
{
    reveal_strlit("/");
    reveal_strlit("Volumes");
    if 0 <= i < parts.len() && parts[i] == "AppTranslocation"@ {
        assert(parts.contains("AppTranslocation"@));
    }
    if parts.len() >= 2 && parts[0] == "/"@ && parts[1] == "Volumes"@ {
        assert(components_start_with(parts, seq!["/"@, "Volumes"@]));
    }
    if spec_installer_parts(parts) && !parts.contains("AppTranslocation"@) {
        assert(seq!["/"@, "Volumes"@][0] == "/"@);
        assert(seq!["/"@, "Volumes"@][1] == "Volumes"@);
    }
}

/// Whether path components (by text, as `Path::components` yields them)
/// belong to an installer or translocated copy.
pub fn installer_parts(parts: &Vec<String>) -> (yes: bool)
    ensures
        yes == spec_installer_parts(texts(parts@)),
{
    if root_prefixed(parts, "Volumes") {
        return true;
    }
    let mut i: usize = 0;
    while i < parts.len()
        invariant
            i <= parts@.len(),
            forall|k: int| 0 <= k < i ==> parts@[k]@ != "AppTranslocation"@,
        decreases parts@.len() - i,
    {
        if str_eq(parts[i].as_str(), "AppTranslocation") {
            assert(texts(parts@)[i as int] == "AppTranslocation"@);
            return true;
        }
        i = i + 1;
    }
    assert(!texts(parts@).contains("AppTranslocation"@)) by {
        if texts(parts@).contains("AppTranslocation"@) {
            let k = choose|k: int| 0 <= k < texts(parts@).len() && texts(parts@)[k] == "AppTranslocation"@;
            assert(texts(parts@)[k] == parts@[k]@);
        }
    }
    false
}

/// Installer and translocated copies must not become the permission identity.
pub fn from_installer(path: &str) -> (yes: bool)
    ensures
        yes == spec_from_installer(path@),
{
    let parts = components(path);
    assert(texts(parts@) =~= path_components(path@));
    installer_parts(&parts)
}

/// The nearest of `p` and its ancestors (by `Path::parent`) whose extension is `app`.
pub open spec fn app_ancestor(p: Seq<char>) -> Option<Seq<char>>
    decreases p.len(),
{
    if path_extension(p) == Some("app"@) {
        Some(p)
    } else {
        match path_parent(p) {
            Some(q) => if q.len() < p.len() {
                app_ancestor(q)
            } else {
                None
            },
            None => None,
        }
    }
}

/// The enclosing app bundle of `p`, or `p` itself when no ancestor is one.
pub open spec fn spec_running_app(p: Seq<char>) -> Seq<char> {
    match app_ancestor(p) {
        Some(a) => a,
        None => p,
    }
}

fn is_app(p: &str) -> (yes: bool)
    ensures
        yes == (path_extension(p@) == Some("app"@)),
{
    match extension(p) {
        Some(ext) => str_eq(ext.as_str(), "app"),
        None => false,
    }
}

proof fn lemma_app_ancestor_is_app(p: Seq<char>)
    ensures
        app_ancestor(p) matches Some(a) ==> path_extension(a) == Some("app"@),
    decreases p.len(),
{
    if path_extension(p) != Some("app"@) {
        if let Some(q) = path_parent(p) {
            if q.len() < p.len() {
                lemma_app_ancestor_is_app(q);
            }
        }
    }
}

/// The revealed path is the path itself when it is a bundle, otherwise a
/// bundle among its ancestors, or else the path itself unchanged.
pub proof fn lemma_running_app_is_bundle_or_self(p: Seq<char>)
    ensures
        path_extension(p) == Some("app"@) ==> spec_running_app(p) == p,
        spec_running_app(p) == p || path_extension(spec_running_app(p)) == Some("app"@),
{
    lemma_app_ancestor_is_app(p);
}

/// Reveal the enclosing app bundle, or the executable for development launches.
pub fn running_app(path: &str) -> (app: String)
    ensures
        app@ == spec_running_app(path@),
{
    let mut current = String::from_str(path);
    loop
        invariant
            app_ancestor(current@) == app_ancestor(path@),
        decreases current@.len(),
    {
        if is_app(current.as_str()) {
            return current;
        }
        match parent(current.as_str()) {
            Some(up) => {
                current = up;
            },
            None => {
                return String::from_str(path);
            },
        }
    }
}

/// Components (by text) of a path inside `/Applications`, or inside the
/// user's Applications folder whose components are `user_applications`.
pub open spec fn spec_under_applications(
    parts: Seq<Seq<char>>,
    user_applications: Option<Seq<Seq<char>>>,
) -> bool {
    ||| components_start_with(parts, seq!["/"@, "Applications"@])
    ||| user_applications matches Some(u) && components_start_with(parts, u)
}

/// A copy is under Applications exactly when its path begins with the root
/// and `Applications` components, or with all of the user's Applications
/// folder's components.
pub proof fn lemma_under_applications_cases(
    parts: Seq<Seq<char>>,
    user_applications: Option<Seq<Seq<char>>>,
)
    ensures
        (parts.len() >= 2 && parts[0] == "/"@ && parts[1] == "Applications"@)
            ==> spec_under_applications(parts, user_applications),
        (user_applications matches Some(u) && u.len() <= parts.len() && forall|k: int|
            0 <= k < u.len() ==> parts[k] == u[k]) ==> spec_under_applications(
            parts,
            user_applications,
        ),
        spec_under_applications(parts, None) ==> parts.len() >= 2 && parts[0] == "/"@ && parts[1]
            == "Applications"@,
{
    if spec_under_applications(parts, None) {
        assert(seq!["/"@, "Applications"@][0] == "/"@);
        assert(seq!["/"@, "Applications"@][1] == "Applications"@);
    }
}

pub fn under_applications(parts: &Vec<String>, user_applications: Option<&Vec<String>>) -> (yes: bool)
    ensures
        yes == spec_under_applications(
            texts(parts@),
            match user_applications {
                Some(u) => Some(texts(u@)),
                None => None,
            },
        ),
{
    if root_prefixed(parts, "Applications") {
        return true;
    }
    match user_applications {
        Some(u) => has_component_prefix(parts, u),
        None => false,
    }
}

/// An installed copy: an app bundle under `/Applications` or `~/Applications`.
pub open spec fn spec_installed(p: Seq<char>, home: Option<Seq<char>>) -> bool {
    &&& path_extension(spec_running_app(p)) == Some("app"@)
    &&& spec_under_applications(
        path_components(p),
        match home {
            Some(h) => Some(path_components(path_join(h, "Applications"@))),
            None => None,
        },
    )
}

pub fn installed(path: &str, home: Option<&str>) -> (yes: bool)
    ensures
        yes == spec_installed(path@, match home {
            Some(h) => Some(h@),
            None => None,
        }),
{
    let app = running_app(path);
    if !is_app(app.as_str()) {
        return false;
    }
    let parts = components(path);
    assert(texts(parts@) =~= path_components(path@));
    match home {
        Some(h) => {
            let user_applications = join(h, "Applications");
            let base = components(user_applications.as_str());
            assert(texts(base@) =~= path_components(path_join(h@, "Applications"@)));
            under_applications(&parts, Some(&base))
        },
        None => under_applications(&parts, None),
    }
}

/// The empty-picker explanation. Missing access is explained first, then a
/// failed check, a check still running, an empty desktop, an unmatched
/// search, and finally windows that are all already docked.
pub open spec fn spec_picker_message(
    trusted: bool,
    complete: bool,
    failed: bool,
    eligible: usize,
    searching: bool,
) -> Seq<char> {
    if !trusted {
        "AppDock doesn’t have window access.\nOpen Setup & Diagnostics below for help enabling it.\nAlready enabled? macOS may remember a different copy."@
    } else if failed {
        "Window access is granted, but the window check failed.\nOpen Setup & Diagnostics below, or try Refresh."@
    } else if !complete {
        "Window access granted.\nChecking available windows…"@
    } else if eligible == 0 {
        "Window access granted, but no compatible windows were found.\nOpen a normal Finder or TextEdit window, then click Refresh."@
    } else if searching {
        "No matching windows.\nTry another search or clear the search field."@
    } else {
        "No more windows are available to add.\nCompatible windows may already be in your workspace."@
    }
}

/// Missing access is explained first, whatever else is known; then a failed
/// check; then a check still running; then an empty desktop; and a search
/// that matches nothing is reported only when windows exist.
pub proof fn lemma_picker_message_priority(
    trusted: bool,
    complete: bool,
    failed: bool,
    eligible: usize,
    searching: bool,
)
    ensures
        !trusted ==> spec_picker_message(trusted, complete, failed, eligible, searching)
            == "AppDock doesn’t have window access.\nOpen Setup & Diagnostics below for help enabling it.\nAlready enabled? macOS may remember a different copy."@,
        trusted && failed ==> spec_picker_message(trusted, complete, failed, eligible, searching)
            == "Window access is granted, but the window check failed.\nOpen Setup & Diagnostics below, or try Refresh."@,
        trusted && !failed && !complete ==> spec_picker_message(
            trusted,
            complete,
            failed,
            eligible,
            searching,
        ) == "Window access granted.\nChecking available windows…"@,
        trusted && !failed && complete && eligible == 0 ==> spec_picker_message(
            trusted,
            complete,
            failed,
            eligible,
            searching,
        ) == "Window access granted, but no compatible windows were found.\nOpen a normal Finder or TextEdit window, then click Refresh."@,
        trusted && !failed && complete && eligible > 0 && searching ==> spec_picker_message(
            trusted,
            complete,
            failed,
            eligible,
            searching,
        ) == "No matching windows.\nTry another search or clear the search field."@,
        trusted && !failed && complete && eligible > 0 && !searching ==> spec_picker_message(
            trusted,
            complete,
            failed,
            eligible,
            searching,
        ) == "No more windows are available to add.\nCompatible windows may already be in your workspace."@,
{
}

pub fn picker_message(
    trusted: bool,
    complete: bool,
    failed: bool,
    eligible: usize,
    searching: bool,
) -> (message: &'static str)
    ensures
        message@ == spec_picker_message(trusted, complete, failed, eligible, searching),
{
    if !trusted {
        "AppDock doesn’t have window access.\nOpen Setup & Diagnostics below for help enabling it.\nAlready enabled? macOS may remember a different copy."
    } else if failed {
        "Window access is granted, but the window check failed.\nOpen Setup & Diagnostics below, or try Refresh."
    } else if !complete {
        "Window access granted.\nChecking available windows…"
    } else if eligible == 0 {
        "Window access granted, but no compatible windows were found.\nOpen a normal Finder or TextEdit window, then click Refresh."
    } else if searching {
        "No matching windows.\nTry another search or clear the search field."
    } else {
        "No more windows are available to add.\nCompatible windows may already be in your workspace."
    }
}

/// A line without the carriage return that ended it, if any.
pub open spec fn strip_cr(line: Seq<char>) -> Seq<char> {
    if line.len() > 0 && line.last() == '\r' {
        line.drop_last()
    } else {
        line
    }
}

/// Lines completed so far, and the unterminated rest, after reading `s`.
pub open spec fn scan_lines(s: Seq<char>) -> (Seq<Seq<char>>, Seq<char>)
    decreases s.len(),
{
    if s.len() == 0 {
        (Seq::empty(), Seq::empty())
    } else {
        let (done, rest) = scan_lines(s.drop_last());
        if s.last() == '\n' {
            (done.push(strip_cr(rest)), Seq::empty())
        } else {
            (done, rest.push(s.last()))
        }
    }
}

/// `str::lines`: lines end at `\n` or `\r\n`, which are not part of them; a
/// final line ending adds no empty line.
pub open spec fn str_lines(s: Seq<char>) -> Seq<Seq<char>> {
    let (done, rest) = scan_lines(s);
    if rest.len() == 0 {
        done
    } else {
        done.push(rest)
    }
}

pub open spec fn is_signing_line(line: Seq<char>) -> bool {
    ||| has_prefix(line, "Identifier="@)
    ||| has_prefix(line, "TeamIdentifier="@)
    ||| has_prefix(line, "Authority="@)
    ||| has_prefix(line, "CDHash="@)
    ||| has_prefix(line, "Signature="@)
}

/// Lines joined with `\n` between them.
pub open spec fn join_lines(lines: Seq<Seq<char>>) -> Seq<char>
    decreases lines.len(),
{
    if lines.len() == 0 {
        Seq::empty()
    } else if lines.len() == 1 {
        lines[0]
    } else {
        join_lines(lines.drop_last()) + seq!['\n'] + lines.last()
    }
}

/// The signing lines of a code-signing report, in order, or a fixed notice
/// when it has none. No other output is copied.
pub open spec fn spec_signing_metadata(output: Seq<char>) -> Seq<char> {
    let kept = str_lines(output).filter(|line: Seq<char>| is_signing_line(line));
    if kept.len() == 0 {
        "Signing identity unavailable"@
    } else {
        join_lines(kept)
    }
}

/// Nothing but signing lines of the report is copied: every kept line is a
/// signing line and a whole line of the output.
pub proof fn lemma_signing_metadata_copies_only_signing_lines(output: Seq<char>)
    ensures
        ({
            let kept = str_lines(output).filter(|line: Seq<char>| is_signing_line(line));
            forall|i: int|
                0 <= i < kept.len() ==> is_signing_line(#[trigger] kept[i]) && str_lines(
                    output,
                ).contains(kept[i])
        }),
{
    let pred = |line: Seq<char>| is_signing_line(line);
    let kept = str_lines(output).filter(pred);
    assert forall|i: int| 0 <= i < kept.len() implies is_signing_line(#[trigger] kept[i])
        && str_lines(output).contains(kept[i]) by {
        str_lines(output).lemma_filter_pred(pred, i);
        str_lines(output).lemma_filter_contains_rev(pred, kept[i]);
    }
}

/// Reading text without a line break only extends the unterminated rest.
proof fn lemma_scan_lines_append_plain(s: Seq<char>, t: Seq<char>)
    requires
        !t.contains('\n'),
    ensures
        scan_lines(s + t) == (scan_lines(s).0, scan_lines(s).1 + t),
    decreases t.len(),
{
    if t.len() == 0 {
        assert(s + t =~= s);
        assert(scan_lines(s).1 + t =~= scan_lines(s).1);
    } else {
        let u = t.drop_last();
        assert(!u.contains('\n')) by {
            if u.contains('\n') {
                let k = choose|k: int| 0 <= k < u.len() && u[k] == '\n';
                assert(t[k] == '\n');
            }
        }
        lemma_scan_lines_append_plain(s, u);
        assert((s + t).drop_last() =~= s + u);
        assert(t.last() != '\n') by {
            assert(t[t.len() - 1] == t.last());
        }
        assert(scan_lines(s).1 + t =~= (scan_lines(s).1 + u).push(t.last()));
    }
}

/// No line, finished or not, holds a line break.
proof fn lemma_scan_lines_no_breaks(s: Seq<char>)
    ensures
        forall|i: int|
            0 <= i < scan_lines(s).0.len() ==> !(#[trigger] scan_lines(s).0[i]).contains('\n'),
        !scan_lines(s).1.contains('\n'),
    decreases s.len(),
{
    if s.len() > 0 {
        lemma_scan_lines_no_breaks(s.drop_last());
        let (done, rest) = scan_lines(s.drop_last());
        if s.last() == '\n' {
            assert(!strip_cr(rest).contains('\n')) by {
                if strip_cr(rest).contains('\n') {
                    let k = choose|k: int| 0 <= k < strip_cr(rest).len() && strip_cr(rest)[k] == '\n';
                    assert(rest[k] == '\n');
                }
            }
        } else {
            assert(!rest.push(s.last()).contains('\n')) by {
                if rest.push(s.last()).contains('\n') {
                    let k = choose|k: int|
                        0 <= k < rest.push(s.last()).len() && rest.push(s.last())[k] == '\n';
                    if k < rest.len() {
                        assert(rest[k] == '\n');
                    }
                }
            }
        }
    }
}

/// Joining break-free lines and reading them back gives the same lines,
/// each finished one without a final carriage return.
proof fn lemma_scan_joined_lines(lines: Seq<Seq<char>>)
    requires
        lines.len() > 0,
        forall|i: int| 0 <= i < lines.len() ==> !(#[trigger] lines[i]).contains('\n'),
    ensures
        scan_lines(join_lines(lines)).0.len() == lines.len() - 1,
        forall|i: int|
            0 <= i < lines.len() - 1 ==> #[trigger] scan_lines(join_lines(lines)).0[i] == strip_cr(
                lines[i],
            ),
        scan_lines(join_lines(lines)).1 == lines.last(),
    decreases lines.len(),
{
    if lines.len() == 1 {
        lemma_scan_lines_append_plain(Seq::empty(), lines[0]);
        assert(Seq::<char>::empty() + lines[0] =~= lines[0]);
    } else {
        let front = lines.drop_last();
        assert forall|i: int| 0 <= i < front.len() implies !(#[trigger] front[i]).contains('\n') by {
            assert(front[i] == lines[i]);
        }
        lemma_scan_joined_lines(front);
        let j = join_lines(front);
        let with_break = j + seq!['\n'];
        assert(with_break.drop_last() =~= j);
        assert(with_break.last() == '\n');
        lemma_scan_lines_append_plain(with_break, lines.last());
        assert(join_lines(lines) == with_break + lines.last());
        let done = scan_lines(with_break).0;
        assert(done == scan_lines(j).0.push(strip_cr(front.last())));
        assert forall|i: int| 0 <= i < lines.len() - 1 implies #[trigger] scan_lines(
            join_lines(lines),
        ).0[i] == strip_cr(lines[i]) by {
            if i < lines.len() - 2 {
                assert(scan_lines(j).0[i] == strip_cr(front[i]));
            }
        }
    }
}

/// A signing line stays one without its final carriage return.
proof fn lemma_strip_cr_keeps_signing(line: Seq<char>)
    requires
        is_signing_line(line),
    ensures
        is_signing_line(strip_cr(line)),
        line.len() > 0,
{
    reveal_strlit("Identifier=");
    reveal_strlit("TeamIdentifier=");
    reveal_strlit("Authority=");
    reveal_strlit("CDHash=");
    reveal_strlit("Signature=");
    let p = if has_prefix(line, "Identifier="@) {
        "Identifier="@
    } else if has_prefix(line, "TeamIdentifier="@) {
        "TeamIdentifier="@
    } else if has_prefix(line, "Authority="@) {
        "Authority="@
    } else if has_prefix(line, "CDHash="@) {
        "CDHash="@
    } else {
        "Signature="@
    };
    assert(has_prefix(line, p));
    assert(p.last() == '=');
    if line.len() > 0 && line.last() == '\r' {
        if line.len() == p.len() {
            assert(line.subrange(0, p.len() as int)[p.len() - 1] == line.last());
        }
        assert(strip_cr(line).subrange(0, p.len() as int) =~= line.subrange(0, p.len() as int));
    }
}

/// Every line of the result, read as `str::lines` reads it, starts with an
/// allowed prefix, unless the result is the fixed notice.
pub proof fn lemma_signing_metadata_result_lines(output: Seq<char>)
    ensures
        spec_signing_metadata(output) == "Signing identity unavailable"@ || forall|i: int|
            0 <= i < str_lines(spec_signing_metadata(output)).len() ==> is_signing_line(
                #[trigger] str_lines(spec_signing_metadata(output))[i],
            ),
{
    let pred = |line: Seq<char>| is_signing_line(line);
    let kept = str_lines(output).filter(pred);
    if kept.len() > 0 {
        lemma_signing_metadata_copies_only_signing_lines(output);
        let (done, rest) = scan_lines(output);
        lemma_scan_lines_no_breaks(output);
        assert forall|i: int| 0 <= i < kept.len() implies !(#[trigger] kept[i]).contains('\n') by {
            let k = choose|k: int| 0 <= k < str_lines(output).len() && str_lines(output)[k] == kept[i];
            if k < done.len() {
                assert(str_lines(output)[k] == done[k]);
            } else {
                assert(str_lines(output)[k] == rest);
            }
        }
        lemma_scan_joined_lines(kept);
        let result = join_lines(kept);
        assert(is_signing_line(kept[kept.len() - 1]));
        lemma_strip_cr_keeps_signing(kept.last());
        assert forall|i: int| 0 <= i < str_lines(result).len() implies is_signing_line(
            #[trigger] str_lines(result)[i],
        ) by {
            if i < kept.len() - 1 {
                assert(is_signing_line(kept[i]));
                lemma_strip_cr_keeps_signing(kept[i]);
            }
        }
    }
}

/// Exactly the lines starting with `Identifier=`, `TeamIdentifier=`,
/// `Authority=`, `CDHash=` or `Signature=` count as signing lines; other
/// report lines such as `Format=`, `Executable=` or `Timestamp=` never do.
pub proof fn lemma_signing_line_prefixes(line: Seq<char>)
    ensures
        is_signing_line(line) <==> (has_prefix(line, "Identifier="@) || has_prefix(
            line,
            "TeamIdentifier="@,
        ) || has_prefix(line, "Authority="@) || has_prefix(line, "CDHash="@) || has_prefix(
            line,
            "Signature="@,
        )),
        has_prefix(line, "Format="@) ==> !is_signing_line(line),
        has_prefix(line, "Executable="@) ==> !is_signing_line(line),
        has_prefix(line, "Timestamp="@) ==> !is_signing_line(line),
{
    reveal_strlit("Identifier=");
    reveal_strlit("TeamIdentifier=");
    reveal_strlit("Authority=");
    reveal_strlit("CDHash=");
    reveal_strlit("Signature=");
    reveal_strlit("Format=");
    reveal_strlit("Executable=");
    reveal_strlit("Timestamp=");
    if has_prefix(line, "Format="@) || has_prefix(line, "Executable="@) || has_prefix(line, "Timestamp="@) {
        assert(line[0] == 'F' || line[0] == 'E' || line[0] == 'T') by {
            if has_prefix(line, "Format="@) {
                assert(line.subrange(0, 7)[0] == line[0]);
            } else if has_prefix(line, "Executable="@) {
                assert(line.subrange(0, 11)[0] == line[0]);
            } else {
                assert(line.subrange(0, 10)[0] == line[0]);
            }
        }
        if has_prefix(line, "Identifier="@) {
            assert(line.subrange(0, 11)[0] == line[0]);
        }
        if has_prefix(line, "TeamIdentifier="@) {
            assert(line.subrange(0, 15)[0] == line[0]);
            assert(line.subrange(0, 15)[1] == line[1]);
            if has_prefix(line, "Timestamp="@) {
                assert(line.subrange(0, 10)[1] == line[1]);
            }
        }
        if has_prefix(line, "Authority="@) {
            assert(line.subrange(0, 10)[0] == line[0]);
        }
        if has_prefix(line, "CDHash="@) {
            assert(line.subrange(0, 7)[0] == line[0]);
        }
        if has_prefix(line, "Signature="@) {
            assert(line.subrange(0, 10)[0] == line[0]);
        }
    }
}

/// The result keeps a line of the report exactly when it starts with one of
/// the five signing prefixes: every line of a non-notice result starts with
/// one of them, and every such report line is among the kept lines.
pub proof fn lemma_signing_metadata_keeps_exactly_prefixed_lines(output: Seq<char>)
    ensures
        ({
            let kept = str_lines(output).filter(|line: Seq<char>| is_signing_line(line));
            &&& forall|line: Seq<char>|
                #[trigger] kept.contains(line) <==> (str_lines(output).contains(line) && (has_prefix(
                    line,
                    "Identifier="@,
                ) || has_prefix(line, "TeamIdentifier="@) || has_prefix(line, "Authority="@)
                    || has_prefix(line, "CDHash="@) || has_prefix(line, "Signature="@)))
            &&& kept.len() == 0 ==> spec_signing_metadata(output) == "Signing identity unavailable"@
            &&& kept.len() > 0 ==> spec_signing_metadata(output) == join_lines(kept)
        }),
{
    let pred = |line: Seq<char>| is_signing_line(line);
    let kept = str_lines(output).filter(pred);
    assert forall|line: Seq<char>|
        #[trigger] kept.contains(line) <==> (str_lines(output).contains(line) && (has_prefix(
            line,
            "Identifier="@,
        ) || has_prefix(line, "TeamIdentifier="@) || has_prefix(line, "Authority="@)
            || has_prefix(line, "CDHash="@) || has_prefix(line, "Signature="@))) by {
        lemma_signing_line_prefixes(line);
        if kept.contains(line) {
            str_lines(output).lemma_filter_contains_rev(pred, line);
            let i = choose|i: int| 0 <= i < kept.len() && kept[i] == line;
            str_lines(output).lemma_filter_pred(pred, i);
        }
        if str_lines(output).contains(line) && pred(line) {
            let i = choose|i: int| 0 <= i < str_lines(output).len() && str_lines(output)[i] == line;
            str_lines(output).lemma_filter_contains(pred, i);
        }
    }
}

fn signing_line(line: &str) -> (yes: bool)
    ensures
        yes == is_signing_line(line@),
{
    starts_with(line, "Identifier=") || starts_with(line, "TeamIdentifier=") || starts_with(
        line,
        "Authority=",
    ) || starts_with(line, "CDHash=") || starts_with(line, "Signature=")
}

/// Appends `line` to the joined signing lines when it is one.
fn keep_line(out: &mut String, kept: &mut usize, line: &str, Ghost(done): Ghost<Seq<Seq<char>>>)
    requires
        old(out)@ == join_lines(done.filter(|l: Seq<char>| is_signing_line(l))),
        *old(kept) == done.filter(|l: Seq<char>| is_signing_line(l)).len(),
        done.len() < usize::MAX,
    ensures
        final(out)@ == join_lines(done.push(line@).filter(|l: Seq<char>| is_signing_line(l))),
        *final(kept) == done.push(line@).filter(|l: Seq<char>| is_signing_line(l)).len(),
{
    let ghost pred = |l: Seq<char>| is_signing_line(l);
    proof {
        reveal_with_fuel(Seq::filter, 1);
        assert(done.push(line@).drop_last() == done);
        done.lemma_filter_len(pred);
    }
    if signing_line(line) {
        let ghost before = done.filter(pred);
        if *kept > 0 {
            push_char(out, '\n');
        }
        out.append(line);
        *kept = *kept + 1;
        proof {
            let after = before.push(line@);
            assert(after.drop_last() == before);
            if before.len() == 0 {
                assert(out@ =~= join_lines(after));
            }
        }
    }
}

/// Only allow signing metadata; never copy arbitrary tool output or window data.
pub fn signing_metadata(output: &str) -> (metadata: String)
    ensures
        metadata@ == spec_signing_metadata(output@),
{
    let ghost pred = |l: Seq<char>| is_signing_line(l);
    let n = output.unicode_len();
    let mut out = String::new();
    let mut kept: usize = 0;
    let mut rest = String::new();
    let ghost mut done: Seq<Seq<char>> = Seq::empty();
    let mut i: usize = 0;
    proof {
        reveal_with_fuel(Seq::filter, 1);
        assert(output@.subrange(0, 0) =~= Seq::<char>::empty());
    }
    while i < n
        invariant
            n == output@.len(),
            i <= n,
            scan_lines(output@.subrange(0, i as int)) == (done, rest@),
            done.len() + rest@.len() <= i,
            out@ == join_lines(done.filter(pred)),
            kept == done.filter(pred).len(),
            pred == (|l: Seq<char>| is_signing_line(l)),
        decreases n - i,
    {
        let c = output.get_char(i);
        proof {
            assert(output@.subrange(0, i + 1).drop_last() =~= output@.subrange(0, i as int));
        }
        if c == '\n' {
            let len = rest.as_str().unicode_len();
            let line = if len > 0 && rest.as_str().get_char(len - 1) == '\r' {
                String::from_str(rest.as_str().substring_char(0, len - 1))
            } else {
                rest
            };
            proof {
                assert(line@ == strip_cr(rest@));
            }
            keep_line(&mut out, &mut kept, line.as_str(), Ghost(done));
            proof {
                done = done.push(line@);
            }
            rest = String::new();
        } else {
            push_char(&mut rest, c);
        }
        i = i + 1;
    }
    proof {
        assert(output@.subrange(0, n as int) =~= output@);
    }
    if rest.as_str().unicode_len() > 0 {
        keep_line(&mut out, &mut kept, rest.as_str(), Ghost(done));
        proof {
            done = done.push(rest@);
        }
    }
    if kept == 0 {
        String::from_str("Signing identity unavailable")
    } else {
        out
    }
}

} // verus!
