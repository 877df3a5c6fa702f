//! Steam-side decisions: the bootstrap status line, how long to wait between
//! connection attempts, what to tell the user, and how launching Steam is
//! judged.
use vstd::prelude::*;
use vstd::string::StringExecFns;
use crate::text::{ascii_lower, contains_ascii_lowered, has_substring};

pub mod bootstrap;
pub mod callbacks;
pub mod launch;
pub mod pack;
pub mod update;

verus! {

/// Steam App ID of Garry's Mod.
pub const GMOD_APP_ID: u32 = 4000;

/// How long a bootstrap keeps trying, in milliseconds.
pub const STEAM_BOOT_TIMEOUT_MS: u64 = 45000;

/// Pause between checks whether the Steam process has appeared, in milliseconds.
pub const STEAM_PROCESS_POLL_INTERVAL_MS: u64 = 1000;

/// Ordinary pause between connection attempts, in milliseconds.
pub const STEAM_RETRY_INTERVAL_MS: u64 = 2000;

/// After this long without success Steam is launched, in milliseconds.
pub const STEAM_FORCE_LAUNCH_AFTER_MS: u64 = 6000;

/// How long a freshly seen Steam process is given to settle, in milliseconds.
pub const STEAM_POST_LAUNCH_SETTLE_MS: u64 = 12000;

/// Pause between attempts while Steam denies the App ID, in milliseconds.
pub const STEAM_DENIED_RETRY_INTERVAL_MS: u64 = 8000;

/// The error text names a denied App ID (in any ASCII case).
pub open spec fn mentions_denied_appid(error: Seq<char>) -> bool {
    has_substring(ascii_lower(error), "denied appid"@)
}

/// The pause before the next connection attempt after `error`.
pub open spec fn retry_delay_spec(error: Seq<char>) -> u64 {
    if mentions_denied_appid(error) {
        STEAM_DENIED_RETRY_INTERVAL_MS
    } else {
        STEAM_RETRY_INTERVAL_MS
    }
}

/// The status line shown while waiting after `error`.
pub open spec fn status_message_spec(error: Seq<char>, launched_steam: bool) -> Seq<char> {
    if mentions_denied_appid(error) {
        "Steam opened. Waiting for sign-in..."@
    } else if launched_steam {
        "Waiting for Steam to finish starting..."@
    } else {
        "Waiting for Steam..."@
    }
}

/// The pause, in milliseconds, before the next connection attempt after `error`:
/// longer while Steam reports a denied App ID.
pub fn retry_delay_for(error: &str) -> (res: u64)
    ensures
        res == retry_delay_spec(error@),
{
    if contains_ascii_lowered(error, "denied appid") {
        STEAM_DENIED_RETRY_INTERVAL_MS
    } else {
        STEAM_RETRY_INTERVAL_MS
    }
}

/// The status line shown while waiting after `error`.
pub fn status_message_for(error: &str, launched_steam: bool) -> (res: &'static str)
    ensures
        res@ == status_message_spec(error@, launched_steam),
{
    if contains_ascii_lowered(error, "denied appid") {
        "Steam opened. Waiting for sign-in..."
    } else if launched_steam {
        "Waiting for Steam to finish starting..."
    } else {
        "Waiting for Steam..."
    }
}

/// The bootstrap status line shared with the user interface.
pub struct StatusCell {
    value: Option<String>,
}

impl View for StatusCell {
    type V = Option<Seq<char>>;

    closed spec fn view(&self) -> Option<Seq<char>> {
        match self.value {
            Some(s) => Some(s@),
            None => None,
        }
    }
}

impl StatusCell {
    /// A status line that has not been read or written yet.
    pub fn new() -> (res: Self)
        ensures
            res@ == None::<Seq<char>>,
    {
        StatusCell { value: None }
    }
}

/// The text a status line reads as: the last message written, or
/// "Checking Steam..." before any.
pub open spec fn status_text(cell: Option<Seq<char>>) -> Seq<char> {
    match cell {
        Some(s) => s,
        None => "Checking Steam..."@,
    }
}

/// The current bootstrap status line; before anything was written it reads
/// (and from then on holds) "Checking Steam...".
pub fn bootstrap_status(cell: &mut StatusCell) -> (res: String)
    ensures
        res@ == status_text(old(cell)@),
        final(cell)@ == Some(status_text(old(cell)@)),
{
    if cell.value.is_none() {
        cell.value = Some(String::from_str("Checking Steam..."));
    }
    match &cell.value {
        Some(s) => s.clone(),
        None => String::new(),
    }
}

/// Replaces the bootstrap status line with `message`.
pub fn set_bootstrap_status(cell: &mut StatusCell, message: &str)
    ensures
        final(cell)@ == Some(message@),
{
    cell.value = Some(String::from_str(message));
}

/// Reading the status line after writing `message` gives `message`, and a
/// line never written reads "Checking Steam...".
pub proof fn lemma_status_reads_last_write(cell: Option<Seq<char>>, message: Seq<char>)
    ensures
        status_text(Some(message)) == message,
        status_text(None) == "Checking Steam..."@,
        status_text(Some(status_text(cell))) == status_text(cell),
{
}

/// The pause after an error is one of the two retry intervals, and the longer
/// one exactly when Steam reports a denied App ID.
pub proof fn lemma_retry_delay_choices(error: Seq<char>)
    ensures
        retry_delay_spec(error) == STEAM_RETRY_INTERVAL_MS || retry_delay_spec(error)
            == STEAM_DENIED_RETRY_INTERVAL_MS,
        retry_delay_spec(error) == STEAM_DENIED_RETRY_INTERVAL_MS <==> mentions_denied_appid(error),
{
}

} // verus!
