use gmod_wstool::steam::bootstrap::{init_client, BootAction, BootEvent, BootPhase, BootStep};

fn statuses(step: &BootStep) -> Vec<&str> {
    step.statuses.iter().map(|s| s.as_str()).collect()
}

#[test]
fn connected_client_finishes_at_once() {
    let (machine, step) = init_client(true);
    assert_eq!(statuses(&step), vec!["Connected to Steam."]);
    assert!(matches!(step.action, BootAction::Finish(Ok(()))));
    assert!(machine.phase() == BootPhase::Done);
}

#[test]
fn running_steam_connects_on_first_try() {
    let (mut m, step) = init_client(false);
    assert!(matches!(step.action, BootAction::CheckRunning));
    let step = m.step(BootEvent::Running(true), 0);
    assert!(matches!(step.action, BootAction::TryInit));
    let step = m.step(BootEvent::InitDone(Ok(())), 10);
    assert_eq!(statuses(&step), vec!["Connected to Steam."]);
    assert!(matches!(step.action, BootAction::Finish(Ok(()))));
}

#[test]
fn steam_not_running_is_launched_and_waited_for() {
    let (mut m, _) = init_client(false);
    // not running: the retry loop starts with its own process check
    let step = m.step(BootEvent::Running(false), 0);
    assert!(matches!(step.action, BootAction::CheckRunning));
    let step = m.step(BootEvent::Running(false), 0);
    assert_eq!(statuses(&step), vec!["Opening Steam..."]);
    assert!(matches!(step.action, BootAction::LaunchSteam));
    let step = m.step(BootEvent::Launched(Ok(())), 100);
    assert_eq!(statuses(&step), vec!["Waiting for Steam to open..."]);
    assert!(matches!(step.action, BootAction::CheckRunning));
    // still not there: poll again after a second
    let step = m.step(BootEvent::Running(false), 200);
    assert!(matches!(step.action, BootAction::Sleep(1000)));
    let step = m.step(BootEvent::Slept, 1200);
    assert!(matches!(step.action, BootAction::CheckRunning));
    // it appeared: settle before trying
    let step = m.step(BootEvent::Running(true), 1300);
    assert_eq!(
        statuses(&step),
        vec!["Steam opened. Waiting for sign-in...", "Waiting for Steam to finish starting..."]
    );
    assert!(matches!(step.action, BootAction::Sleep(1000)));
    // after the settling time the machine waits the poll interval and tries
    let step = m.step(BootEvent::Slept, 13_300);
    assert!(matches!(step.action, BootAction::Sleep(1000)));
    let step = m.step(BootEvent::Slept, 14_300);
    assert!(matches!(step.action, BootAction::TryInit));
    let step = m.step(BootEvent::InitDone(Ok(())), 14_400);
    assert!(step.statuses.is_empty());
    assert!(matches!(step.action, BootAction::Finish(Ok(()))));
}

#[test]
fn settling_sleep_is_shortened_near_the_end() {
    let (mut m, _) = init_client(false);
    m.step(BootEvent::Running(false), 0);
    m.step(BootEvent::Running(false), 0);
    m.step(BootEvent::Launched(Ok(())), 0);
    let step = m.step(BootEvent::Running(true), 0);
    assert!(matches!(step.action, BootAction::Sleep(1000)));
    let step = m.step(BootEvent::Slept, 11_700);
    assert!(matches!(step.action, BootAction::Sleep(300)));
}

#[test]
fn failed_launch_ends_with_its_error() {
    let (mut m, _) = init_client(false);
    m.step(BootEvent::Running(false), 0);
    m.step(BootEvent::Running(false), 0);
    let step = m.step(BootEvent::Launched(Err("no launcher".to_string())), 5);
    match step.action {
        BootAction::Finish(Err(e)) => assert_eq!(e, "no launcher"),
        _ => panic!("expected the launch error"),
    }
}

#[test]
fn running_but_failing_retries_then_forces_a_launch() {
    let (mut m, _) = init_client(false);
    let step = m.step(BootEvent::Running(true), 0);
    assert!(matches!(step.action, BootAction::TryInit));
    let step = m.step(BootEvent::InitDone(Err("not signed in".to_string())), 0);
    assert!(matches!(step.action, BootAction::CheckRunning));
    let step = m.step(BootEvent::Running(true), 0);
    assert_eq!(statuses(&step), vec!["Waiting for Steam..."]);
    assert!(matches!(step.action, BootAction::Sleep(2000)));
    let step = m.step(BootEvent::Slept, 2000);
    assert!(matches!(step.action, BootAction::TryInit));
    let step = m.step(BootEvent::InitDone(Err("Denied AppID".to_string())), 2100);
    assert_eq!(statuses(&step), vec!["Steam opened. Waiting for sign-in..."]);
    assert!(matches!(step.action, BootAction::CheckRunning));
    let step = m.step(BootEvent::Running(true), 2100);
    assert!(matches!(step.action, BootAction::Sleep(8000)));
    let step = m.step(BootEvent::Slept, 10_100);
    assert!(matches!(step.action, BootAction::TryInit));
    let step = m.step(BootEvent::InitDone(Err("still".to_string())), 10_200);
    assert_eq!(statuses(&step), vec!["Opening Steam..."]);
    assert!(matches!(step.action, BootAction::LaunchSteam));
    let step = m.step(BootEvent::Launched(Ok(())), 10_300);
    assert_eq!(statuses(&step), vec!["Waiting for Steam to open..."]);
    assert!(matches!(step.action, BootAction::CheckRunning));
}

#[test]
fn timeout_after_launch_reports_last_error() {
    let (mut m, _) = init_client(false);
    m.step(BootEvent::Running(false), 0);
    m.step(BootEvent::Running(false), 0);
    m.step(BootEvent::Launched(Ok(())), 0);
    m.step(BootEvent::Running(false), 0);
    let step = m.step(BootEvent::Slept, 45_000);
    match step.action {
        BootAction::Finish(Err(e)) => assert_eq!(
            e,
            "Steam was launched, but gmod-wstool could not initialize it within 45 seconds.\n\nLast Steam error: Steam is not running.\n\nIf Steam just opened, finish signing in first. Steam must be logged into an account that owns Garry's Mod."
        ),
        _ => panic!("expected the timeout"),
    }
    // finished for good
    let again = m.step(BootEvent::Slept, 50_000);
    assert!(matches!(again.action, BootAction::Finish(Err(_))));
}

#[test]
fn timeout_when_already_running() {
    let (mut m, _) = init_client(false);
    m.step(BootEvent::Running(true), 0);
    m.step(BootEvent::InitDone(Err("boom".to_string())), 0);
    m.step(BootEvent::Running(true), 0);
    let step = m.step(BootEvent::Slept, 2_000);
    assert!(matches!(step.action, BootAction::TryInit));
    let step = m.step(BootEvent::InitDone(Err("boom".to_string())), 3_000);
    assert!(matches!(step.action, BootAction::CheckRunning));
    let step = m.step(BootEvent::Running(true), 46_000);
    match step.action {
        BootAction::Finish(Err(e)) => assert!(e.starts_with(
            "Steam looked like it was already running, but gmod-wstool still could not initialize it within 45 seconds.\n\nLast Steam error: boom"
        )),
        _ => panic!("expected the timeout"),
    }
}

#[test]
fn unexpected_event_repeats_the_request() {
    let (mut m, _) = init_client(false);
    let step = m.step(BootEvent::Slept, 0);
    assert!(step.statuses.is_empty());
    assert!(matches!(step.action, BootAction::CheckRunning));
    assert!(m.phase() == BootPhase::InitialCheck);
}

#[test]
fn launch_is_requested_at_most_once_and_sleeps_are_bounded() {
    let (mut m, _) = init_client(false);
    let mut launches = 0;
    let mut now = 0u64;
    let mut step = m.step(BootEvent::Running(false), now);
    for _ in 0..500 {
        let event = match &step.action {
            BootAction::Finish(_) => break,
            BootAction::CheckRunning => BootEvent::Running(false),
            BootAction::TryInit => BootEvent::InitDone(Err("Denied AppID".to_string())),
            BootAction::LaunchSteam => {
                launches += 1;
                BootEvent::Launched(Ok(()))
            }
            BootAction::Sleep(ms) => {
                assert!(*ms >= 1 && *ms <= 8000);
                now += *ms;
                BootEvent::Slept
            }
        };
        now += 10;
        step = m.step(event, now);
    }
    assert_eq!(launches, 1);
    assert!(matches!(step.action, BootAction::Finish(Err(_))));
}
