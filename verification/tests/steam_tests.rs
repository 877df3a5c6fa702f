use gmod_wstool::steam::{
    bootstrap_status, retry_delay_for, set_bootstrap_status, status_message_for, StatusCell,
    STEAM_DENIED_RETRY_INTERVAL_MS, STEAM_RETRY_INTERVAL_MS,
};

#[test]
fn denied_appid_waits_longer() {
    assert_eq!(retry_delay_for("SteamAPI_Init failed; Denied AppID"), STEAM_DENIED_RETRY_INTERVAL_MS);
    assert_eq!(retry_delay_for("no connection"), STEAM_RETRY_INTERVAL_MS);
    assert_eq!(STEAM_DENIED_RETRY_INTERVAL_MS, 8000);
    assert_eq!(STEAM_RETRY_INTERVAL_MS, 2000);
}

#[test]
fn status_messages() {
    assert_eq!(status_message_for("DENIED APPID", false), "Steam opened. Waiting for sign-in...");
    assert_eq!(status_message_for("other", true), "Waiting for Steam to finish starting...");
    assert_eq!(status_message_for("other", false), "Waiting for Steam...");
}

#[test]
fn status_line_defaults_then_follows_writes() {
    let mut cell = StatusCell::new();
    assert_eq!(bootstrap_status(&mut cell), "Checking Steam...");
    set_bootstrap_status(&mut cell, "Opening Steam...");
    assert_eq!(bootstrap_status(&mut cell), "Opening Steam...");
    let mut fresh = StatusCell::new();
    set_bootstrap_status(&mut fresh, "Connected to Steam.");
    assert_eq!(bootstrap_status(&mut fresh), "Connected to Steam.");
}
