//! Transient stacking decisions over the WindowServer's front-to-back list.
//! AX owns identity; window geometry stays with the caller.
use vstd::prelude::*;

verus! {

/// One normal onscreen window, as listed front to back.
#[derive(Clone, Copy, Debug)]
pub struct StackWindow {
    pub number: u32,
    pub pid: i32,
}

/// Index of the frontmost window owned by `pid`, if any.
pub open spec fn front_window_of(stack: Seq<StackWindow>, pid: i32) -> Option<int> {
    if exists|i: int| 0 <= i < stack.len() && stack[i].pid == pid {
        Some(
            choose|i: int|
                0 <= i < stack.len() && stack[i].pid == pid && (forall|k: int|
                    0 <= k < i ==> stack[k].pid != pid),
        )
    } else {
        None
    }
}

/// When the frontmost window of `pid` is at `i`, the reported number is that
/// window's exactly when its frame matched, and nothing otherwise; a later
/// window of the same process is never reported.
pub proof fn lemma_focused_number_is_front_match(
    stack: Seq<StackWindow>,
    pid: i32,
    frame_near: Seq<bool>,
    i: int,
)
    requires
        frame_near.len() == stack.len(),
        0 <= i < stack.len(),
        stack[i].pid == pid,
        forall|k: int| 0 <= k < i ==> stack[k].pid != pid,
    ensures
        front_window_of(stack, pid) == Some(i),
        frame_near[i] ==> (match front_window_of(stack, pid) {
            Some(j) => if frame_near[j] {
                Some(stack[j].number)
            } else {
                None
            },
            None => None,
        }) == Some(stack[i].number),
        !frame_near[i] ==> (match front_window_of(stack, pid) {
            Some(j) => if frame_near[j] {
                Some(stack[j].number)
            } else {
                None
            },
            None => None,
        }) is None,
{
    let j = choose|j: int|
        0 <= j < stack.len() && stack[j].pid == pid && (forall|k: int|
            0 <= k < j ==> stack[k].pid != pid);
    assert(j == i) by {
        if j < i {
            assert(stack[j].pid != pid);
        } else if j > i {
            assert(stack[i].pid != pid);
        }
    }
}

/// Called only after AXRaise and exact AXFocusedWindow readback: the number of
/// the frontmost normal window of `pid`, provided that window's frame matches
/// the AX frame (`frame_near[i]` tells whether `stack[i]`'s frame does).
/// Never guesses by title.
pub fn focused_number(stack: &[StackWindow], pid: i32, frame_near: &[bool]) -> (number: Option<
    u32,
>)
    requires
        frame_near@.len() == stack@.len(),
    ensures
        number == match front_window_of(stack@, pid) {
            Some(i) => if frame_near@[i] {
                Some(stack@[i].number)
            } else {
                None
            },
            None => None,
        },
{
    let mut i: usize = 0;
    while i < stack.len()
        invariant
            i <= stack@.len(),
            frame_near@.len() == stack@.len(),
            forall|k: int| 0 <= k < i ==> stack@[k].pid != pid,
        decreases stack@.len() - i,
    {
        if stack[i].pid == pid {
            proof {
                let j = choose|j: int|
                    0 <= j < stack@.len() && stack@[j].pid == pid && (forall|k: int|
                        0 <= k < j ==> stack@[k].pid != pid);
                assert(stack@[i as int].pid == pid);
                assert(j == i);
            }
            return if frame_near[i] {
                Some(stack[i].number)
            } else {
                None
            };
        }
        i = i + 1;
    }
    None
}

/// WindowServer numbers for the workspace group. Fully destructured by callers.
pub struct RevealWindows {
    pub manager: u32,
    pub backdrop: Option<u32>,
    pub selected: Option<u32>,
}

#[derive(Clone, Copy, Debug, PartialEq, Eq, Structural)]
pub enum RevealAction {
    /// No selected window on this Space; show AppDock alone.
    ShowManager,
    /// Selected is unburied; AppDock should sit immediately below it.
    Tuck,
    /// An unrelated window is above the selected docked window.
    RaiseThenTuck,
}

#[derive(Clone, Copy, Debug, PartialEq, Eq, Structural)]
pub enum RevealProgress {
    Idle,
    Wait,
    Tuck,
    ShowManager,
}

/// The manager and its backdrop are ours; every other window is unrelated.
pub open spec fn is_ours(number: u32, windows: RevealWindows) -> bool {
    number == windows.manager || windows.backdrop == Some(number)
}

/// The selected window is buried when an unrelated window lies in front of
/// its frontmost entry.
pub open spec fn is_buried(stack: Seq<StackWindow>, windows: RevealWindows, selected: u32) -> bool {
    exists|j: int|
        0 <= j < stack.len() && !is_ours(stack[j].number, windows) && (forall|k: int|
            0 <= k <= j ==> stack[k].number != selected)
}

pub open spec fn spec_reveal_action(stack: Seq<StackWindow>, windows: RevealWindows) -> RevealAction {
    match windows.selected {
        None => RevealAction::ShowManager,
        Some(selected) => if !(exists|i: int| 0 <= i < stack.len() && stack[i].number == selected) {
            RevealAction::ShowManager
        } else if is_buried(stack, windows, selected) {
            RevealAction::RaiseThenTuck
        } else {
            RevealAction::Tuck
        },
    }
}

/// Where the selected window first appears at `i` in the front-to-back
/// stack: AppDock tucks under it when only the manager and backdrop lie in
/// front of it, and raises it first when any other window does. Without a
/// selection, or when the selection is not on screen, AppDock shows alone.
pub proof fn lemma_reveal_action_by_position(
    stack: Seq<StackWindow>,
    windows: RevealWindows,
    i: int,
)
    ensures
        windows.selected is None ==> spec_reveal_action(stack, windows) == RevealAction::ShowManager,
        (windows.selected matches Some(sel) && forall|k: int|
            0 <= k < stack.len() ==> stack[k].number != sel) ==> spec_reveal_action(stack, windows)
            == RevealAction::ShowManager,
        (windows.selected matches Some(sel) && 0 <= i < stack.len() && stack[i].number == sel
            && forall|k: int| 0 <= k < i ==> stack[k].number != sel) ==> {
            &&& (forall|k: int|
                0 <= k < i ==> stack[k].number == windows.manager || windows.backdrop == Some(
                    stack[k].number,
                )) ==> spec_reveal_action(stack, windows) == RevealAction::Tuck
            &&& (exists|k: int|
                0 <= k < i && stack[k].number != windows.manager && windows.backdrop != Some(
                    #[trigger] stack[k].number,
                )) ==> spec_reveal_action(stack, windows) == RevealAction::RaiseThenTuck
        },
{
    if let Some(sel) = windows.selected {
        if 0 <= i < stack.len() && stack[i].number == sel && (forall|k: int|
            0 <= k < i ==> stack[k].number != sel) {
            if forall|k: int|
                0 <= k < i ==> stack[k].number == windows.manager || windows.backdrop == Some(
                    stack[k].number,
                ) {
                assert forall|j: int|
                    0 <= j < stack.len() && !is_ours(stack[j].number, windows) implies !(forall|
                    k: int|
                    0 <= k <= j ==> stack[k].number != sel) by {
                    if j >= i {
                        assert(stack[i].number == sel);
                    }
                }
            }
            if exists|k: int|
                0 <= k < i && stack[k].number != windows.manager && windows.backdrop != Some(
                    #[trigger] stack[k].number,
                ) {
                let k = choose|k: int|
                    0 <= k < i && stack[k].number != windows.manager && windows.backdrop != Some(
                        #[trigger] stack[k].number,
                    );
                assert(forall|m: int| 0 <= m <= k ==> stack[m].number != sel);
                assert(is_buried(stack, windows, sel));
            }
        }
    }
}

/// Front-to-back stack. Manager and backdrop above the selected window are ours.
pub fn reveal_action(stack: &[StackWindow], windows: RevealWindows) -> (action: RevealAction)
    ensures
        action == spec_reveal_action(stack@, windows),
{
    let RevealWindows { manager, backdrop, selected } = windows;
    let selected = match selected {
        Some(selected) => selected,
        None => return RevealAction::ShowManager,
    };
    let mut buried = false;
    let mut i: usize = 0;
    while i < stack.len()
        invariant
            i <= stack@.len(),
            windows.manager == manager,
            windows.backdrop == backdrop,
            windows.selected == Some(selected),
            forall|k: int| 0 <= k < i ==> stack@[k].number != selected,
            buried <==> exists|j: int| 0 <= j < i && !is_ours(stack@[j].number, windows),
        decreases stack@.len() - i,
    {
        let number = stack[i].number;
        if number == selected {
            proof {
                assert(stack@[i as int].number == selected);
                if buried {
                    let j = choose|j: int| 0 <= j < i && !is_ours(stack@[j].number, windows);
                    assert(forall|k: int| 0 <= k <= j ==> stack@[k].number != selected);
                    assert(is_buried(stack@, windows, selected));
                } else {
                    assert forall|j: int|
                        0 <= j < stack@.len() && !is_ours(stack@[j].number, windows) implies !(
                        forall|k: int| 0 <= k <= j ==> stack@[k].number != selected) by {
                        if j >= i {
                            assert(stack@[i as int].number == selected);
                        }
                    }
                    assert(!is_buried(stack@, windows, selected));
                }
            }
            return if buried {
                RevealAction::RaiseThenTuck
            } else {
                RevealAction::Tuck
            };
        }
        let ours = number == manager || match backdrop {
            Some(b) => b == number,
            None => false,
        };
        if !ours {
            buried = true;
        }
        i = i + 1;
    }
    RevealAction::ShowManager
}

pub open spec fn spec_reveal_progress(pending: bool, timed_out: bool, action: RevealAction) -> RevealProgress {
    if !pending {
        RevealProgress::Idle
    } else {
        match action {
            RevealAction::Tuck => RevealProgress::Tuck,
            RevealAction::ShowManager => RevealProgress::ShowManager,
            RevealAction::RaiseThenTuck => if timed_out {
                RevealProgress::ShowManager
            } else {
                RevealProgress::Wait
            },
        }
    }
}

/// A pending reveal waits only while the selected window is buried and the
/// wait has not timed out; after a timeout it never waits, and a reveal that
/// is not pending does nothing.
pub proof fn lemma_reveal_waits_only_when_buried(pending: bool, timed_out: bool, action: RevealAction)
    ensures
        spec_reveal_progress(pending, timed_out, action) == RevealProgress::Wait <==> (pending
            && !timed_out && action == RevealAction::RaiseThenTuck),
        spec_reveal_progress(pending, timed_out, action) == RevealProgress::Idle <==> !pending,
{
}

/// While a reveal is pending, tuck as soon as the selected window is
/// unburied; keep waiting while it is buried, and show AppDock alone once
/// the wait has timed out or nothing is selected.
pub fn reveal_progress(pending: bool, timed_out: bool, action: RevealAction) -> (progress: RevealProgress)
    ensures
        progress == spec_reveal_progress(pending, timed_out, action),
{
    if !pending {
        return RevealProgress::Idle;
    }
    match action {
        RevealAction::Tuck => RevealProgress::Tuck,
        RevealAction::ShowManager => RevealProgress::ShowManager,
        RevealAction::RaiseThenTuck => if timed_out {
            RevealProgress::ShowManager
        } else {
            RevealProgress::Wait
        },
    }
}

} // verus!
