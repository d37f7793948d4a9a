use appdock::onboarding::{
    from_installer, installed, installer_parts, under_applications, picker_message, running_app, signing_metadata, Readiness, Step,
};
use std::path::Path;

#[test]
fn installed_detection_covers_updates_and_rejects_downloads() {
    let home = Some("/Users/example");
    for path in [
        "/Applications/AppDock.app/Contents/MacOS/AppDock",
        "/Users/example/Applications/AppDock.app/Contents/MacOS/AppDock",
    ] {
        assert!(installed(path, home));
    }
    for path in [
        "/Applications-copy/AppDock.app/Contents/MacOS/AppDock",
        "/Volumes/Install AppDock/AppDock.app/Contents/MacOS/AppDock",
        "/Users/example/Downloads/AppDock.app/Contents/MacOS/AppDock",
        "/tmp/target/debug/appdock",
    ] {
        assert!(!installed(path, home));
    }
}

#[test]
fn picker_explains_permission_before_search_or_old_results() {
    assert!(picker_message(false, true, false, 5, true).contains("doesn’t have window access"));
    assert!(picker_message(true, false, true, 0, false).contains("check failed"));
    assert!(picker_message(true, false, false, 0, false).contains("Checking"));
    assert!(picker_message(true, true, false, 0, false).contains("no compatible windows"));
    assert!(picker_message(true, true, false, 5, true).contains("No matching"));
    assert!(picker_message(true, true, false, 5, false).contains("already"));
}

#[test]
fn diagnostics_exclude_unexpected_output_and_reveal_the_exact_bundle() {
    assert_eq!(
        signing_metadata(
            "Executable=/private/example\nIdentifier=dev.appdock.AppDock\nSecret window title\nTeamIdentifier=EXAMPLE"
        ),
        "Identifier=dev.appdock.AppDock\nTeamIdentifier=EXAMPLE"
    );
    assert_eq!(
        signing_metadata("tool failed"),
        "Signing identity unavailable"
    );
    assert_eq!(
        running_app("/Applications/AppDock.app/Contents/MacOS/AppDock"),
        "/Applications/AppDock.app"
    );
    assert_eq!(
        running_app("/tmp/target/debug/appdock"),
        "/tmp/target/debug/appdock"
    );
}

#[test]
fn installer_detection_distinguishes_installed_and_development_copies() {
    assert!(from_installer(
        "/Volumes/AppDock/AppDock.app/Contents/MacOS/AppDock"
    ));
    assert!(from_installer(
        "/private/var/folders/example/AppTranslocation/id/d/AppDock.app/Contents/MacOS/AppDock"
    ));
    assert!(!from_installer(
        "/Applications/AppDock.app/Contents/MacOS/AppDock"
    ));
    assert!(!from_installer(
        "/Users/example/project/target/debug/appdock"
    ));
}

#[test]
fn permission_and_live_evidence_gate_progress() {
    assert_eq!(Step::Permission.next(false, true, true), Step::Permission);
    assert_eq!(Step::Verify.next(true, false, true), Step::Verify);
    assert_eq!(Step::TryWindow.next(true, true, false), Step::TryWindow);
    assert_eq!(Step::TryWindow.next(false, true, true), Step::TryWindow);
    assert_eq!(Step::TryWindow.next(true, true, true), Step::Finish);
}

#[test]
fn empty_desktop_errors_and_revoked_access_are_not_ready() {
    let mut result = Readiness::default();
    assert!(!result.passed(true));
    result.generation = 1;
    result.eligible_windows = 1;
    assert!(!result.passed(true));
    result.desktop_available = true;
    assert!(result.passed(true));
    assert!(!result.passed(false));
    result.error = Some("Timed out".into());
    assert!(!result.passed(true));
}

#[test]
fn steps_number_advance_and_go_back_in_order() {
    let steps = [
        Step::Install,
        Step::Permission,
        Step::Verify,
        Step::TryWindow,
        Step::Finish,
    ];
    for (i, step) in steps.iter().enumerate() {
        assert_eq!(step.number(), i + 1);
        let next = step.next(true, true, true);
        if i + 1 < steps.len() {
            assert_eq!(next, steps[i + 1]);
            assert_eq!(next.back(), *step);
        } else {
            assert_eq!(next, Step::Finish);
        }
    }
    assert_eq!(Step::Install.back(), Step::Install);
    assert_eq!(Step::Install.next(false, false, false), Step::Permission);
    assert_eq!(Step::Finish.next(false, false, false), Step::Finish);
    assert_eq!(Step::default(), Step::Install);
}

fn std_from_installer(path: &str) -> bool {
    let path = Path::new(path);
    path.starts_with("/Volumes")
        || path
            .components()
            .any(|part| part.as_os_str() == "AppTranslocation")
}

fn std_running_app(path: &str) -> &Path {
    let path = Path::new(path);
    path.ancestors()
        .find(|p| p.extension().is_some_and(|ext| ext == "app"))
        .unwrap_or(path)
}

fn std_installed(path: &str, home: Option<&str>) -> bool {
    let p = Path::new(path);
    std_running_app(path)
        .extension()
        .is_some_and(|ext| ext == "app")
        && (p.starts_with("/Applications")
            || home.is_some_and(|home| p.starts_with(Path::new(home).join("Applications"))))
}

#[test]
fn path_decisions_agree_with_std_paths() {
    let paths = [
        "",
        "/",
        ".",
        "./AppDock.app",
        "AppDock.app",
        ".app",
        "/Applications",
        "/Applications/",
        "/Applications//AppDock.app/./Contents/MacOS/AppDock",
        "/Applications/AppDock.app/",
        "/Applications/Tools/AppDock.app/Contents/Resources/Helper.app/Contents/MacOS/Helper",
        "/Volumes",
        "/Volumes/",
        "/VolumesX/AppDock.app",
        "Volumes/AppDock.app",
        "/tmp/AppTranslocation",
        "/tmp/AppTranslocationX/AppDock.app",
        "/Users/example/Applications/AppDock.app/Contents/MacOS/AppDock",
        "/Users/example/Applications/../Downloads/AppDock.app/Contents/MacOS/AppDock",
        "/Users/example/applications/AppDock.app",
        "../AppDock.app/x",
        "/a/b..app/c",
    ];
    let homes = [
        None,
        Some("/Users/example"),
        Some("/Users/example/"),
        Some(""),
        Some("/"),
    ];
    for path in paths {
        assert_eq!(from_installer(path), std_from_installer(path), "{path:?}");
        assert_eq!(
            Path::new(&running_app(path)),
            std_running_app(path),
            "{path:?}"
        );
        assert_eq!(running_app(path), std_running_app(path).to_str().unwrap());
        for home in homes {
            assert_eq!(
                installed(path, home),
                std_installed(path, home),
                "{path:?} {home:?}"
            );
        }
    }
}

fn std_signing_metadata(output: &str) -> String {
    let lines: Vec<_> = output
        .lines()
        .filter(|line| {
            [
                "Identifier=",
                "TeamIdentifier=",
                "Authority=",
                "CDHash=",
                "Signature=",
            ]
            .iter()
            .any(|prefix| line.starts_with(prefix))
        })
        .collect();
    if lines.is_empty() {
        "Signing identity unavailable".into()
    } else {
        lines.join("\n")
    }
}

#[test]
fn signing_metadata_keeps_only_signing_lines_in_order() {
    let outputs = [
        "",
        "\n",
        "Identifier=a",
        "Identifier=a\n",
        "Identifier=a\r\nAuthority=b\r\n",
        "Identifier=a\r",
        "x\nAuthority=Developer ID\nAuthority=Apple Root CA\nCDHash=00ff\nSignature=size=9000\n",
        "\n\nTeamIdentifier=T\n\n",
        " Identifier=indented\nidentifier=lower\nIdentifier=\n",
        "Signature=é→…\nExecutable=/x",
        "\r\n\r\n",
    ];
    for output in outputs {
        assert_eq!(
            signing_metadata(output),
            std_signing_metadata(output),
            "{output:?}"
        );
    }
    assert_eq!(
        signing_metadata("Identifier=a\r\nAuthority=b\r\n"),
        "Identifier=a\nAuthority=b"
    );
    assert_eq!(
        signing_metadata("Identifier=\nTeamIdentifier="),
        "Identifier=\nTeamIdentifier="
    );
}

#[test]
fn picker_message_full_texts() {
    assert_eq!(
        picker_message(true, false, false, 3, true),
        "Window access granted.\nChecking available windows…"
    );
    assert_eq!(
        picker_message(true, true, false, 5, true),
        "No matching windows.\nTry another search or clear the search field."
    );
}

fn parts(items: &[&str]) -> Vec<String> {
    items.iter().map(|s| s.to_string()).collect()
}

#[test]
fn component_rules_match_whole_components() {
    assert!(installer_parts(&parts(&["/", "Volumes", "AppDock"])));
    assert!(installer_parts(&parts(&["/", "Volumes"])));
    assert!(!installer_parts(&parts(&["/", "VolumesX"])));
    assert!(!installer_parts(&parts(&["Volumes", "x"])));
    assert!(installer_parts(&parts(&["a", "AppTranslocation", "b"])));
    assert!(!installer_parts(&parts(&["a", "AppTranslocationX"])));
    assert!(!installer_parts(&parts(&[])));
    let user = parts(&["/", "Users", "example", "Applications"]);
    assert!(under_applications(&parts(&["/", "Applications", "A.app"]), None));
    assert!(!under_applications(&parts(&["/", "Applications-copy"]), Some(&user)));
    assert!(under_applications(
        &parts(&["/", "Users", "example", "Applications", "A.app"]),
        Some(&user)
    ));
    assert!(!under_applications(&parts(&["/", "Users", "example"]), Some(&user)));
}

#[test]
fn signing_metadata_result_lines_all_start_with_allowed_prefixes() {
    let prefixes = [
        "Identifier=",
        "TeamIdentifier=",
        "Authority=",
        "CDHash=",
        "Signature=",
    ];
    for output in [
        "Identifier=a\r\r\nnoise\nAuthority=b\r\n",
        "Executable=/x\nSignature=adhoc\nCDHash=ff",
    ] {
        let result = signing_metadata(output);
        for line in result.lines() {
            assert!(
                prefixes.iter().any(|p| line.starts_with(p)),
                "{line:?}"
            );
        }
    }
}
