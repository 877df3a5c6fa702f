use gmod_wstool::steam::launch::{
    launch_candidates, launch_steam, process_list_shows_steam, try_launch, LaunchAttempt,
    Platform, SpawnOutcome,
};

fn attempt(program: &str, outcome: SpawnOutcome) -> LaunchAttempt {
    LaunchAttempt { program: program.to_string(), outcome }
}

#[test]
fn linux_candidates_in_order() {
    let c = launch_candidates(Platform::Linux);
    let got: Vec<(String, Vec<String>)> = c.into_iter().map(|c| (c.program, c.args)).collect();
    let want: Vec<(String, Vec<String>)> = vec![
        ("steam".into(), vec![]),
        ("/usr/bin/steam".into(), vec![]),
        ("xdg-open".into(), vec!["steam://open/main".into()]),
        ("/usr/bin/steam".into(), vec!["-silent".into()]),
        ("steam".into(), vec!["-silent".into()]),
        ("flatpak".into(), vec!["run".into(), "com.valvesoftware.Steam".into()]),
    ];
    assert_eq!(got, want);
}

#[test]
fn windows_and_other_candidates() {
    let w = launch_candidates(Platform::Windows);
    assert_eq!(w.len(), 2);
    assert_eq!(w[0].program, "cmd");
    assert_eq!(w[0].args, vec!["/C", "start", "", "steam://open/main"]);
    assert_eq!(w[1].program, "steam");
    assert!(launch_candidates(Platform::Other).is_empty());
}

#[test]
fn first_start_wins() {
    let attempts = vec![
        attempt("steam", SpawnOutcome::Failed("permission denied".into())),
        attempt("/usr/bin/steam", SpawnOutcome::Started),
    ];
    assert_eq!(try_launch(&attempts), Ok(()));
}

#[test]
fn nothing_found() {
    let attempts = vec![attempt("steam", SpawnOutcome::NotFound), attempt("flatpak", SpawnOutcome::NotFound)];
    assert_eq!(
        try_launch(&attempts),
        Err("Steam is not running and no supported Steam launcher command was found.".into())
    );
    assert_eq!(
        try_launch(&vec![]),
        Err("Steam is not running and no supported Steam launcher command was found.".into())
    );
}

#[test]
fn failures_are_listed() {
    let attempts = vec![
        attempt("steam", SpawnOutcome::Failed("permission denied".into())),
        attempt("xdg-open", SpawnOutcome::NotFound),
        attempt("flatpak", SpawnOutcome::Failed("broken".into())),
    ];
    assert_eq!(
        try_launch(&attempts),
        Err("Steam is not running and automatic launch failed: steam: permission denied | flatpak: broken".into())
    );
}

#[test]
fn unsupported_platform() {
    assert_eq!(
        launch_steam(Platform::Other, &vec![]),
        Err("Automatic Steam launch is not supported on this platform yet.".into())
    );
    assert_eq!(launch_steam(Platform::Linux, &vec![attempt("steam", SpawnOutcome::Started)]), Ok(()));
}

#[test]
fn tasklist_output() {
    assert!(process_list_shows_steam("steam.exe   1234 Console"));
    assert!(!process_list_shows_steam("INFO: No tasks are running"));
}

use gmod_wstool::steam::launch::{running_checks, steam_is_running, ProbeResult};

#[test]
fn process_checks_per_platform() {
    let linux: Vec<(String, Vec<String>)> =
        running_checks(Platform::Linux).into_iter().map(|c| (c.program, c.args)).collect();
    assert_eq!(
        linux,
        vec![
            ("pgrep".to_string(), vec!["-x".to_string(), "steam".to_string()]),
            ("pgrep".to_string(), vec!["-f".to_string(), "/Steam/ubuntu12_32/steam".to_string()]),
            ("pgrep".to_string(), vec!["-x".to_string(), "steam.sh".to_string()]),
        ]
    );
    let windows = running_checks(Platform::Windows);
    assert_eq!(windows.len(), 1);
    assert_eq!(windows[0].program, "tasklist");
    assert_eq!(windows[0].args, vec!["/FI", "IMAGENAME eq steam.exe"]);
    assert!(running_checks(Platform::Other).is_empty());
}

#[test]
fn running_decision() {
    assert!(steam_is_running(
        Platform::Linux,
        &vec![ProbeResult::Status(false), ProbeResult::Status(true)]
    ));
    assert!(!steam_is_running(
        Platform::Linux,
        &vec![ProbeResult::Status(false), ProbeResult::Failed, ProbeResult::Status(false)]
    ));
    assert!(steam_is_running(
        Platform::Windows,
        &vec![ProbeResult::Listing("steam.exe  42 Console".to_string())]
    ));
    assert!(!steam_is_running(
        Platform::Windows,
        &vec![ProbeResult::Listing("INFO: No tasks".to_string())]
    ));
    assert!(!steam_is_running(Platform::Windows, &vec![ProbeResult::Failed]));
    assert!(!steam_is_running(Platform::Other, &vec![ProbeResult::Status(true)]));
}
