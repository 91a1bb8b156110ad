use rsrpc::process::{
    generate_path_variants, lowered_name_matches_variants, match_executables, process_info,
    unix_process_path, DetectedGame,
    Platform, ProcessScanner,
};
use rsrpc::server::detected_game_message;
use rsrpc::types::{DetectableGame, Executable, ProcessInfo};

fn exe(name: &str) -> Executable {
    Executable { name: name.to_string(), is_launcher: false, os: None, arguments: None }
}

fn game(id: &str, name: &str, exes: Vec<Executable>) -> DetectableGame {
    DetectableGame { id: id.to_string(), name: name.to_string(), executables: exes }
}

fn process(pid: u32, path: &str, args: Option<&str>) -> ProcessInfo {
    ProcessInfo { pid, path: path.to_string(), args: args.map(|a| a.to_string()) }
}

#[test]
fn path_variants_of_nested_path() {
    let v = generate_path_variants("/games/foo/bin64/foo_64.exe");
    let expected: Vec<&str> = vec![
        "foo_64.exe",
        "bin64/foo_64.exe",
        "foo/bin64/foo_64.exe",
        "games/foo/bin64/foo_64.exe",
        // without "64", ".x64", "x64", "_64"
        "foo_.exe",
        "foo_64.exe",
        "foo_64.exe",
        "foo.exe",
        "bin/foo_.exe",
        "bin64/foo_64.exe",
        "bin64/foo_64.exe",
        "bin64/foo.exe",
        "foo/bin/foo_.exe",
        "foo/bin64/foo_64.exe",
        "foo/bin64/foo_64.exe",
        "foo/bin64/foo.exe",
        "games/foo/bin/foo_.exe",
        "games/foo/bin64/foo_64.exe",
        "games/foo/bin64/foo_64.exe",
        "games/foo/bin64/foo.exe",
    ];
    assert_eq!(v, expected);
}

#[test]
fn path_variants_x64() {
    let v = generate_path_variants("c:/app/game.x64.exe");
    assert_eq!(v[0], "game.x64.exe");
    assert_eq!(v[1], "app/game.x64.exe");
    assert_eq!(v[2], "game.x.exe");
    assert_eq!(v[3], "game.exe");
    assert_eq!(v[4], "game..exe");
    assert_eq!(v[5], "game.x64.exe");
    assert_eq!(v[6], "app/game.x.exe");
    assert_eq!(v.len(), 10);
}

#[test]
fn path_without_separator_has_no_variants() {
    assert!(generate_path_variants("game.exe").is_empty());
}

#[test]
fn executable_name_matching() {
    let to_compare: Vec<String> = generate_path_variants("/opt/game/bin/game.exe");
    assert!(match_executables(&[exe("game.exe")], &to_compare, &None, Platform::Other).is_some());
    assert!(match_executables(&[exe("bin/game.exe")], &to_compare, &None, Platform::Other).is_some());
    // Names are lower-cased before they are compared.
    assert!(match_executables(&[exe("GAME.EXE")], &to_compare, &None, Platform::Other).is_some());
    // ">" asks for an exact match with the first variant.
    assert!(match_executables(&[exe(">game.exe")], &to_compare, &None, Platform::Other).is_some());
    assert!(match_executables(&[exe(">bin/game.exe")], &to_compare, &None, Platform::Other).is_none());
    assert!(match_executables(&[exe("other.exe")], &to_compare, &None, Platform::Other).is_none());
}

#[test]
fn launchers_os_and_arguments() {
    let to_compare: Vec<String> = generate_path_variants("/opt/game/game.exe");
    let mut launcher = exe("game.exe");
    launcher.is_launcher = true;
    assert!(match_executables(&[launcher], &to_compare, &None, Platform::Linux).is_none());

    let mut windows_only = exe("game.exe");
    windows_only.os = Some("win32".to_string());
    assert!(match_executables(&[windows_only.clone()], &to_compare, &None, Platform::Linux).is_none());
    assert!(match_executables(&[windows_only.clone()], &to_compare, &None, Platform::Windows).is_some());
    assert!(match_executables(&[windows_only], &to_compare, &None, Platform::Other).is_some());

    let mut with_args = exe("game.exe");
    with_args.arguments = Some("--mode=fast".to_string());
    assert!(match_executables(&[with_args.clone()], &to_compare, &None, Platform::Linux).is_none());
    assert!(match_executables(
        &[with_args.clone()],
        &to_compare,
        &Some("-x --mode=fast -y".to_string()),
        Platform::Linux
    )
    .is_some());
    assert!(match_executables(&[with_args], &to_compare, &Some("--mode=slow".to_string()), Platform::Linux)
        .is_none());
}

fn detected(v: &[DetectedGame]) -> Vec<(String, String, u32, i64)> {
    v.iter().map(|g| (g.id.clone(), g.name.clone(), g.pid, g.start_time)).collect()
}

#[test]
fn scan_keeps_start_time_and_drops_stopped_games() {
    let mut scanner = ProcessScanner::new("https://example.invalid/db".to_string());
    scanner.set_database(
        vec![
            game("1", "Alpha", vec![exe("alpha.exe")]),
            game("2", "Beta", vec![exe("beta.exe")]),
            game("3", "Alpha Again", vec![exe("alpha.exe")]),
        ],
        10,
    );
    let first = scanner.scan(
        &[
            process(11, "C:\\Games\\Alpha\\Alpha.exe", None),
            process(12, "/usr/bin/beta.exe", None),
            process(13, "/usr/bin/nothing", None),
        ],
        Platform::Windows,
        1000,
    );
    assert_eq!(
        detected(&first),
        vec![
            ("1".to_string(), "Alpha".to_string(), 11, 1000),
            ("2".to_string(), "Beta".to_string(), 12, 1000),
        ]
    );
    assert_eq!(scanner.get_last_pid(&"1".to_string()), Some(11));
    assert_eq!(scanner.cache.len(), 2);

    let second = scanner.scan(&[process(21, "/usr/bin/alpha.exe", None)], Platform::Windows, 5000);
    assert_eq!(detected(&second), vec![("1".to_string(), "Alpha".to_string(), 21, 1000)]);
    assert_eq!(scanner.cache.start_time(&"1".to_string()), Some(1000));
    assert_eq!(scanner.cache.start_time(&"2".to_string()), None);
    assert_eq!(scanner.cache.len(), 1);
    // Beta stopped: its last process id is still on record.
    assert_eq!(scanner.get_last_pid(&"2".to_string()), Some(12));
    assert_eq!(scanner.get_last_pid(&"1".to_string()), Some(21));
    assert_eq!(scanner.get_last_pid(&"3".to_string()), None);

    let third = scanner.scan(&[process(31, "/usr/bin/beta.exe", None)], Platform::Windows, 9000);
    assert_eq!(detected(&third), vec![("2".to_string(), "Beta".to_string(), 31, 9000)]);
    assert_eq!(scanner.get_last_pid(&"2".to_string()), Some(31));
    assert_eq!(scanner.get_last_pid(&"1".to_string()), Some(21));
}

#[test]
fn stopped_game_keeps_last_pid() {
    let mut scanner = ProcessScanner::new(String::new());
    scanner.set_database(vec![game("9", "Omega", vec![exe("omega")])], 0);
    assert_eq!(scanner.get_last_pid(&"9".to_string()), None);
    let running = scanner.scan(&[process(77, "/opt/omega", None)], Platform::Linux, 100);
    assert_eq!(running.len(), 1);
    assert_eq!(scanner.get_last_pid(&"9".to_string()), Some(77));
    let stopped = scanner.scan(&[process(5, "/opt/other", None)], Platform::Linux, 200);
    assert!(stopped.is_empty());
    assert_eq!(scanner.cache.len(), 0);
    assert_eq!(scanner.get_last_pid(&"9".to_string()), Some(77));
}

#[test]
fn scan_reports_each_process() {
    let mut scanner = ProcessScanner::new(String::new());
    scanner.set_database(vec![game("7", "Gamma", vec![exe("gamma")])], 0);
    let found = scanner.scan(
        &[process(1, "/a/gamma", None), process(2, "/b/gamma", None)],
        Platform::Other,
        50,
    );
    assert_eq!(
        detected(&found),
        vec![
            ("7".to_string(), "Gamma".to_string(), 1, 50),
            ("7".to_string(), "Gamma".to_string(), 2, 50),
        ]
    );
    assert_eq!(scanner.get_last_pid(&"7".to_string()), Some(2));
    assert_eq!(scanner.cache.len(), 1);
}

#[test]
fn database_refresh_timing() {
    let mut scanner = ProcessScanner::new(String::new());
    assert!(!scanner.refresh_due(u64::MAX));
    scanner.set_database(Vec::new(), 1_000);
    assert!(!scanner.refresh_due(1_000 + 3_600_000_000_000));
    assert!(scanner.refresh_due(1_000 + 3_600_000_000_001));
    assert!(!scanner.refresh_due(0));
}

#[test]
fn detected_game_activity() {
    let g = DetectedGame { id: "55".to_string(), name: "Delta".to_string(), pid: 9, start_time: 123 };
    let m = detected_game_message(&g);
    assert_eq!(m.pid, 9);
    assert_eq!(m.socket_id, "55");
    let a = m.activity.unwrap();
    assert_eq!(a.application_id.as_deref(), Some("55"));
    assert_eq!(a.name.as_deref(), Some("Delta"));
    let ts = a.timestamps.unwrap();
    assert_eq!(ts.start, Some(123));
    assert_eq!(ts.end, None);
}

#[test]
fn process_info_joins_arguments() {
    let p = process_info(42, "/usr/bin/game".to_string(), &vec!["--fast".to_string(), "-x".to_string()]);
    assert_eq!(p.pid, 42);
    assert_eq!(p.path, "/usr/bin/game");
    assert_eq!(p.args.as_deref(), Some("--fast -x"));
    let none = process_info(1, "a".to_string(), &Vec::new());
    assert!(none.args.is_none());
    let blank = process_info(1, "a".to_string(), &vec![String::new()]);
    assert!(blank.args.is_none());
    let spaced = process_info(1, "a".to_string(), &vec![String::new(), String::new()]);
    assert_eq!(spaced.args.as_deref(), Some(" "));
}

#[test]
fn unix_path_prefers_first_word() {
    assert_eq!(
        unix_process_path(Some("/bin/a".to_string()), Some("/proc/exe".to_string())),
        Some("/bin/a".to_string())
    );
    assert_eq!(
        unix_process_path(Some(String::new()), Some("/proc/exe".to_string())),
        Some("/proc/exe".to_string())
    );
    assert_eq!(unix_process_path(None, Some("/proc/exe".to_string())), Some("/proc/exe".to_string()));
    assert_eq!(unix_process_path(None, None), None);
}

#[test]
fn lowered_name_rule() {
    let variants = vec!["game.exe".to_string(), "bin/game.exe".to_string()];
    assert!(lowered_name_matches_variants("game.exe", &variants));
    assert!(lowered_name_matches_variants("bin/game.exe", &variants));
    assert!(lowered_name_matches_variants(">game.exe", &variants));
    assert!(!lowered_name_matches_variants(">bin/game.exe", &variants));
    assert!(!lowered_name_matches_variants("other.exe", &variants));
    assert!(!lowered_name_matches_variants(">game.exe", &[]));
    assert!(!lowered_name_matches_variants("Game.exe", &variants));
}
