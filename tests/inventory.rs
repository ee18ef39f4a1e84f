use apps::catalog::{build_apps, chrome_candidates, macports_candidates, AppCheck};
use apps::paths::{home_app_path, home_dir, join_path};
use apps::platform::{detect_operating_system, platform_advisory, OperatingSystem};
use apps::probe::{detect_installed_apps, first_existing, probe_candidates};
use apps::report::{format_installed, format_missing, pad_right, report_lines};
use apps::text::same_text;

const INSTALLED: &str = "\x1b[32mInstalled\x1b[0m";
const NOT_INSTALLED: &str = "\x1b[31mNot Installed\x1b[0m";

fn names(apps: &[AppCheck]) -> Vec<String> {
    apps.iter().map(|a| a.name().to_string()).collect()
}

fn resolve(apps: &mut Vec<AppCheck>, found: &[Vec<bool>]) {
    for (app, f) in apps.iter_mut().zip(found) {
        app.installed_path = first_existing(&app.candidates, f);
    }
}

#[test]
fn operating_system_identifiers_map_exactly() {
    assert_eq!(detect_operating_system("macos"), OperatingSystem::Mac);
    assert_eq!(detect_operating_system("windows"), OperatingSystem::Windows);
    assert_eq!(detect_operating_system("linux"), OperatingSystem::Linux);
}

#[test]
fn unknown_operating_system_is_other() {
    assert_eq!(detect_operating_system("freebsd"), OperatingSystem::Other);
    assert_eq!(detect_operating_system(""), OperatingSystem::Other);
    assert_eq!(detect_operating_system("MacOS"), OperatingSystem::Other);
    assert_eq!(detect_operating_system("macos "), OperatingSystem::Other);
}

#[test]
fn advisory_only_off_mac() {
    assert!(platform_advisory(OperatingSystem::Mac).is_none());
    assert_eq!(
        platform_advisory(OperatingSystem::Linux).unwrap(),
        "Warning: this sample currently checks macOS-style application paths."
    );
    assert!(platform_advisory(OperatingSystem::Windows).is_some());
    assert!(platform_advisory(OperatingSystem::Other).is_some());
}

#[test]
fn text_comparison() {
    assert!(same_text("abc", "abc"));
    assert!(!same_text("abc", "abd"));
    assert!(!same_text("abc", "ab"));
    assert!(same_text("", ""));
}

#[test]
fn home_dir_falls_back_to_root() {
    assert_eq!(home_dir(None), "/");
    assert_eq!(home_dir(Some("/Users/alice".to_string())), "/Users/alice");
}

#[test]
fn joining_paths() {
    assert_eq!(join_path("/Users/alice", "Applications"), "/Users/alice/Applications");
    assert_eq!(join_path("/", "Applications"), "/Applications");
    assert_eq!(join_path("/Users/bob/", "x"), "/Users/bob/x");
    assert_eq!(join_path("", "x"), "x");
    assert_eq!(join_path("/base", "/abs"), "/abs");
}

#[test]
fn home_application_paths() {
    assert_eq!(
        home_app_path("/Users/alice", "Bitwarden.app"),
        "/Users/alice/Applications/Bitwarden.app"
    );
    assert_eq!(home_app_path("/", "Safari.app"), "/Applications/Safari.app");
}

#[test]
fn catalog_has_nine_records_in_order() {
    let expected = vec![
        "Bitwarden",
        "Chrome",
        "Firefox",
        "MacPorts",
        "Ollama",
        "Rancher Desktop",
        "Safari",
        "Visual Studio Code",
        "WhatsApp",
    ];
    for os in [
        OperatingSystem::Mac,
        OperatingSystem::Windows,
        OperatingSystem::Linux,
        OperatingSystem::Other,
    ] {
        let apps = build_apps(os, "/Users/alice");
        assert_eq!(apps.len(), 9);
        assert_eq!(names(&apps), expected);
        for app in &apps {
            assert!(!app.candidates().is_empty());
            assert!(app.installed_path().is_none());
        }
    }
}

#[test]
fn catalog_same_for_every_platform() {
    let a = build_apps(OperatingSystem::Mac, "/Users/alice");
    let b = build_apps(OperatingSystem::Linux, "/Users/alice");
    for (x, y) in a.iter().zip(b.iter()) {
        assert_eq!(x.name(), y.name());
        assert_eq!(x.candidates(), y.candidates());
    }
}

#[test]
fn chrome_candidate_order() {
    assert_eq!(
        chrome_candidates("/Users/alice"),
        vec![
            "/Applications/Google Chrome.app".to_string(),
            "/Applications/Google Chrome Dev.app".to_string(),
            "/Users/alice/Applications/Google Chrome.app".to_string(),
            "/Users/alice/Applications/Google Chrome Dev.app".to_string(),
        ]
    );
}

#[test]
fn first_existing_picks_first_found() {
    let c = vec!["/a".to_string(), "/b".to_string(), "/c".to_string()];
    assert_eq!(first_existing(&c, &vec![false, true, true]), Some("/b".to_string()));
    assert_eq!(first_existing(&c, &vec![true, true]), Some("/a".to_string()));
    assert_eq!(first_existing(&c, &vec![false, false, false]), None);
    assert_eq!(first_existing(&c, &vec![]), None);
}

#[test]
fn probing_stops_at_first_existing_path() {
    let c = vec![
        "/this/path/should/not/exist/anywhere".to_string(),
        "/".to_string(),
        "/also/not/there".to_string(),
    ];
    assert_eq!(probe_candidates(&c), vec![false, true]);
    let none = vec!["/this/path/should/not/exist/anywhere".to_string()];
    assert_eq!(probe_candidates(&none), vec![false]);
}

#[test]
fn detect_records_first_existing_path() {
    let mut apps = vec![
        AppCheck::new(
            "Root",
            vec!["/this/path/should/not/exist/anywhere".to_string(), "/".to_string()],
        ),
        AppCheck::new("Nothing", vec!["/this/path/should/not/exist/anywhere".to_string()]),
    ];
    detect_installed_apps(&mut apps);
    assert_eq!(apps[0].installed_path(), &Some("/".to_string()));
    assert_eq!(apps[1].installed_path(), &None);
    assert_eq!(apps[0].name(), "Root");
}

#[test]
fn padding_to_column_width() {
    assert_eq!(pad_right("abc", 6), "abc   ");
    assert_eq!(pad_right("abcdef", 3), "abcdef");
    assert_eq!(pad_right("", 2), "  ");
    assert_eq!(format_missing("Safari"), format!("{:<24}", "Safari"));
    assert_eq!(
        format_installed("Safari", "/Applications/Safari.app"),
        format!("{:<24} {:<16}", "Safari", "/Applications/Safari.app")
    );
    assert_eq!(format_installed("Ollama", "/x"), format!("{:<24} {:<16}", "Ollama", "/x"));
}

#[test]
fn bitwarden_in_home_applications_is_reported() {
    let home = home_dir(Some("/Users/alice".to_string()));
    let mut apps = build_apps(OperatingSystem::Mac, &home);
    let mut found: Vec<Vec<bool>> = apps.iter().map(|a| vec![false; a.candidates.len()]).collect();
    found[0] = vec![false, true];
    resolve(&mut apps, &found);
    assert_eq!(
        apps[0].installed_path(),
        &Some("/Users/alice/Applications/Bitwarden.app".to_string())
    );
    let lines = report_lines(&apps);
    assert_eq!(lines[0], INSTALLED);
    assert_eq!(
        lines[1],
        format!("{:<24} {:<16}", "Bitwarden", "/Users/alice/Applications/Bitwarden.app")
    );
    assert_eq!(lines[2], "");
    assert_eq!(lines[3], NOT_INSTALLED);
    assert_eq!(lines.len(), 4 + 8);
}

#[test]
fn nothing_found_without_home() {
    let home = home_dir(None);
    let mut apps = build_apps(OperatingSystem::Linux, &home);
    let found: Vec<Vec<bool>> = apps.iter().map(|a| vec![false; a.candidates.len()]).collect();
    resolve(&mut apps, &found);
    let lines = report_lines(&apps);
    let mut expected = vec![INSTALLED.to_string(), String::new(), NOT_INSTALLED.to_string()];
    for app in &apps {
        expected.push(format!("{:<24}", app.name()));
    }
    assert_eq!(lines, expected);
    assert_eq!(lines.len(), 3 + 9);
}

#[test]
fn macports_found_at_its_only_candidate() {
    assert_eq!(macports_candidates(), vec!["/opt/local/bin/port".to_string()]);
    let mut apps = build_apps(OperatingSystem::Mac, "/Users/alice");
    let found: Vec<Vec<bool>> = apps
        .iter()
        .map(|a| {
            let hit = a.name() == "MacPorts";
            vec![hit; a.candidates.len()]
        })
        .collect();
    resolve(&mut apps, &found);
    assert_eq!(apps[3].installed_path(), &Some("/opt/local/bin/port".to_string()));
    let lines = report_lines(&apps);
    assert_eq!(lines[1], format!("{:<24} {:<16}", "MacPorts", "/opt/local/bin/port"));
    assert_eq!(lines[2], "");
}

#[test]
fn report_partitions_records() {
    let mut apps = build_apps(OperatingSystem::Mac, "/Users/alice");
    let found: Vec<Vec<bool>> = apps
        .iter()
        .enumerate()
        .map(|(i, a)| vec![i % 2 == 0; a.candidates.len()])
        .collect();
    resolve(&mut apps, &found);
    let lines = report_lines(&apps);
    assert_eq!(lines.len(), apps.len() + 3);
    let split = lines.iter().position(|l| l.is_empty()).unwrap();
    let installed = &lines[1..split];
    let missing = &lines[split + 2..];
    assert_eq!(installed.len(), 5);
    assert_eq!(missing.len(), 4);
    assert_eq!(installed[0], format!("{:<24} {:<16}", "Bitwarden", "/Applications/Bitwarden.app"));
    assert_eq!(missing[0], format!("{:<24}", "Chrome"));
    assert_eq!(missing[3], format!("{:<24}", "Visual Studio Code"));
}

#[test]
fn pipeline_twice_gives_identical_report() {
    let run = || {
        let mut apps = build_apps(OperatingSystem::Mac, "/Users/alice");
        detect_installed_apps(&mut apps);
        report_lines(&apps)
    };
    assert_eq!(run(), run());
}
