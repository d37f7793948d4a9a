use appdock::window_tracking::{
    focused_number, reveal_action, reveal_progress, RevealAction, RevealProgress, RevealWindows,
    StackWindow,
};

fn w(number: u32) -> StackWindow {
    StackWindow { number, pid: 1 }
}

fn windows(selected: Option<u32>) -> RevealWindows {
    RevealWindows {
        manager: 10,
        backdrop: Some(11),
        selected,
    }
}

#[test]
fn covering_window_above_selected_requires_raise() {
    let stack = [w(99), w(20), w(10), w(11)];
    assert_eq!(
        reveal_action(&stack, windows(Some(20))),
        RevealAction::RaiseThenTuck
    );
}

#[test]
fn selected_already_front_tucks_manager() {
    let stack = [w(20), w(10), w(11), w(99)];
    assert_eq!(reveal_action(&stack, windows(Some(20))), RevealAction::Tuck);
}

#[test]
fn manager_raised_above_cover_is_still_buried() {
    let stack = [w(10), w(99), w(20), w(11)];
    assert_eq!(
        reveal_action(&stack, windows(Some(20))),
        RevealAction::RaiseThenTuck
    );
}

#[test]
fn only_our_windows_above_selected_is_tuck() {
    let stack = [w(10), w(11), w(20), w(99)];
    assert_eq!(reveal_action(&stack, windows(Some(20))), RevealAction::Tuck);
}

#[test]
fn missing_or_empty_selection_shows_manager() {
    let stack = [w(99), w(10)];
    assert_eq!(
        reveal_action(&stack, windows(None)),
        RevealAction::ShowManager
    );
    assert_eq!(
        reveal_action(&stack, windows(Some(20))),
        RevealAction::ShowManager
    );
    assert_eq!(
        reveal_action(&[], windows(Some(20))),
        RevealAction::ShowManager
    );
}

#[test]
fn reveal_progress_waits_until_unburied_or_timeout() {
    assert_eq!(
        reveal_progress(false, false, RevealAction::RaiseThenTuck),
        RevealProgress::Idle
    );
    assert_eq!(
        reveal_progress(true, false, RevealAction::RaiseThenTuck),
        RevealProgress::Wait
    );
    assert_eq!(
        reveal_progress(true, true, RevealAction::RaiseThenTuck),
        RevealProgress::ShowManager
    );
    assert_eq!(
        reveal_progress(true, false, RevealAction::Tuck),
        RevealProgress::Tuck
    );
    assert_eq!(
        reveal_progress(true, false, RevealAction::ShowManager),
        RevealProgress::ShowManager
    );
}

#[test]
fn reveal_without_backdrop_treats_other_numbers_as_unrelated() {
    let group = RevealWindows {
        manager: 10,
        backdrop: None,
        selected: Some(20),
    };
    assert_eq!(
        reveal_action(&[w(11), w(20)], group),
        RevealAction::RaiseThenTuck
    );
    let group = RevealWindows {
        manager: 10,
        backdrop: None,
        selected: Some(20),
    };
    assert_eq!(reveal_action(&[w(10), w(20), w(11)], group), RevealAction::Tuck);
}

#[test]
fn reveal_uses_the_frontmost_entry_of_the_selected_window() {
    // A repeated number counts from its frontmost entry.
    let stack = [w(20), w(99), w(20)];
    assert_eq!(reveal_action(&stack, windows(Some(20))), RevealAction::Tuck);
}

#[test]
fn focused_number_requires_the_front_window_of_the_process_to_match() {
    let stack = [
        StackWindow { number: 5, pid: 7 },
        StackWindow { number: 6, pid: 8 },
        StackWindow { number: 9, pid: 8 },
    ];
    assert_eq!(focused_number(&stack, 8, &[false, true, true]), Some(6));
    // Only the frontmost window of the process is considered.
    assert_eq!(focused_number(&stack, 8, &[true, false, true]), None);
    assert_eq!(focused_number(&stack, 3, &[true, true, true]), None);
    assert_eq!(focused_number(&[], 3, &[]), None);
}
