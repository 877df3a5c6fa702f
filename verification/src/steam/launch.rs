//! Launching Steam: which commands are tried on which platform, and what the
//! attempts add up to.
use vstd::prelude::*;
use vstd::string::StringExecFns;
use crate::text::{has_substring, join, join_strings, str_contains};

verus! {

/// The operating systems the tool tells apart.
#[derive(PartialEq, Eq, Structural, Clone, Copy, Debug)]
pub enum Platform {
    Linux,
    Windows,
    Other,
}

/// A program and its arguments.
pub struct LaunchCommand {
    pub program: String,
    pub args: Vec<String>,
}

impl View for LaunchCommand {
    type V = (Seq<char>, Seq<Seq<char>>);

    open spec fn view(&self) -> (Seq<char>, Seq<Seq<char>>) {
        (self.program@, self.args@.map_values(|a: String| a@))
    }
}

/// What became of starting one program.
pub enum SpawnOutcome {
    /// The program was started.
    Started,
    /// No such program.
    NotFound,
    /// Starting it failed; the text says why.
    Failed(String),
}

/// One launch attempt: the program tried and what became of it.
pub struct LaunchAttempt {
    pub program: String,
    pub outcome: SpawnOutcome,
}

pub enum OutcomeView {
    Started,
    NotFound,
    Failed(Seq<char>),
}

impl View for LaunchAttempt {
    type V = (Seq<char>, OutcomeView);

    open spec fn view(&self) -> (Seq<char>, OutcomeView) {
        (
            self.program@,
            match self.outcome {
                SpawnOutcome::Started => OutcomeView::Started,
                SpawnOutcome::NotFound => OutcomeView::NotFound,
                SpawnOutcome::Failed(e) => OutcomeView::Failed(e@),
            },
        )
    }
}

/// The commands tried, in order, to launch Steam on `platform`.
pub open spec fn launch_candidates_spec(platform: Platform) -> Seq<(Seq<char>, Seq<Seq<char>>)> {
    match platform {
        Platform::Linux => seq![
            ("steam"@, Seq::empty()),
            ("/usr/bin/steam"@, Seq::empty()),
            ("xdg-open"@, seq!["steam://open/main"@]),
            ("/usr/bin/steam"@, seq!["-silent"@]),
            ("steam"@, seq!["-silent"@]),
            ("flatpak"@, seq!["run"@, "com.valvesoftware.Steam"@]),
        ],
        Platform::Windows => seq![
            ("cmd"@, seq!["/C"@, "start"@, ""@, "steam://open/main"@]),
            ("steam"@, Seq::empty()),
        ],
        Platform::Other => Seq::empty(),
    }
}

/// The messages of the attempts that failed, each as "program: error".
pub open spec fn failure_messages(attempts: Seq<(Seq<char>, OutcomeView)>) -> Seq<Seq<char>>
    decreases attempts.len(),
{
    if attempts.len() == 0 {
        Seq::empty()
    } else {
        let rest = failure_messages(attempts.drop_last());
        match attempts.last().1 {
            OutcomeView::Failed(e) => rest.push(attempts.last().0 + ": "@ + e),
            _ => rest,
        }
    }
}

/// Launching succeeded when some program started; otherwise the error says
/// whether anything was found at all and, if so, what failed.
pub open spec fn try_launch_spec(attempts: Seq<(Seq<char>, OutcomeView)>) -> Result<(), Seq<char>> {
    if exists|i: int| 0 <= i < attempts.len() && attempts[i].1 is Started {
        Ok(())
    } else if failure_messages(attempts).len() == 0 {
        Err("Steam is not running and no supported Steam launcher command was found."@)
    } else {
        Err(
            "Steam is not running and automatic launch failed: "@ + join(
                failure_messages(attempts),
                " | "@,
            ),
        )
    }
}

/// What launching Steam on `platform` comes to, given the attempts made with
/// its candidate commands.
pub open spec fn launch_steam_spec(platform: Platform, attempts: Seq<(Seq<char>, OutcomeView)>) -> Result<
    (),
    Seq<char>,
> {
    if platform == Platform::Other {
        Err("Automatic Steam launch is not supported on this platform yet."@)
    } else {
        try_launch_spec(attempts)
    }
}

pub open spec fn attempts_view(attempts: Seq<LaunchAttempt>) -> Seq<(Seq<char>, OutcomeView)> {
    attempts.map_values(|a: LaunchAttempt| a@)
}

pub open spec fn result_view(r: Result<(), String>) -> Result<(), Seq<char>> {
    match r {
        Ok(()) => Ok(()),
        Err(e) => Err(e@),
    }
}

fn command(program: &str) -> (res: LaunchCommand)
    ensures
        res@ == (program@, Seq::<Seq<char>>::empty()),
{
    let res = LaunchCommand { program: String::from_str(program), args: Vec::new() };
    assert(res.args@.map_values(|a: String| a@) =~= Seq::<Seq<char>>::empty());
    res
}

impl LaunchCommand {
    fn with(self, arg: &str) -> (res: LaunchCommand)
        ensures
            res@ == (self@.0, self@.1.push(arg@)),
    {
        let mut res = self;
        let ghost before = res.args@.map_values(|a: String| a@);
        res.args.push(String::from_str(arg));
        assert(res.args@.map_values(|a: String| a@) =~= before.push(arg@));
        res
    }
}

/// The commands tried, in order, to launch Steam on `platform`.
pub fn launch_candidates(platform: Platform) -> (res: Vec<LaunchCommand>)
    ensures
        res@.map_values(|c: LaunchCommand| c@) == launch_candidates_spec(platform),
{
    let mut res: Vec<LaunchCommand> = Vec::new();
    match platform {
        Platform::Linux => {
            res.push(command("steam"));
            res.push(command("/usr/bin/steam"));
            res.push(command("xdg-open").with("steam://open/main"));
            res.push(command("/usr/bin/steam").with("-silent"));
            res.push(command("steam").with("-silent"));
            res.push(command("flatpak").with("run").with("com.valvesoftware.Steam"));
            assert(res@[0]@ == launch_candidates_spec(platform)[0]);
            assert(res@[1]@ == launch_candidates_spec(platform)[1]);
            assert(res@[2]@ == launch_candidates_spec(platform)[2]);
            assert(res@[3]@ == launch_candidates_spec(platform)[3]);
            assert(res@[4]@ == launch_candidates_spec(platform)[4]);
            assert(res@[5]@ == launch_candidates_spec(platform)[5]);
            assert(res@.map_values(|c: LaunchCommand| c@) =~= launch_candidates_spec(platform));
        },
        Platform::Windows => {
            res.push(command("cmd").with("/C").with("start").with("").with("steam://open/main"));
            res.push(command("steam"));
            assert(res@[0]@ == launch_candidates_spec(platform)[0]);
            assert(res@[1]@ == launch_candidates_spec(platform)[1]);
            assert(res@.map_values(|c: LaunchCommand| c@) =~= launch_candidates_spec(platform));
        },
        Platform::Other => {
            assert(res@.map_values(|c: LaunchCommand| c@) =~= launch_candidates_spec(platform));
        },
    }
    res
}

/// What the launch attempts add up to: success as soon as one program
/// started; otherwise an error listing every failure, or saying that no
/// launcher was found.
pub fn try_launch(attempts: &Vec<LaunchAttempt>) -> (res: Result<(), String>)
    ensures
        result_view(res) == try_launch_spec(attempts_view(attempts@)),
{
    let ghost all = attempts_view(attempts@);
    let mut errors: Vec<String> = Vec::new();
    let mut i: usize = 0;
    while i < attempts.len()
        invariant
            i <= attempts.len(),
            all == attempts_view(attempts@),
            forall|k: int| 0 <= k < i ==> !(all[k].1 is Started),
            errors@.map_values(|e: String| e@) == failure_messages(all.subrange(0, i as int)),
        decreases attempts.len() - i,
    {
        let attempt = &attempts[i];
        assert(all.subrange(0, i + 1).drop_last() =~= all.subrange(0, i as int));
        match &attempt.outcome {
            SpawnOutcome::Started => {
                assert(all[i as int].1 is Started);
                return Ok(());
            },
            SpawnOutcome::NotFound => {},
            SpawnOutcome::Failed(e) => {
                let ghost before = errors@.map_values(|x: String| x@);
                let mut msg = attempt.program.clone();
                msg.append(": ");
                msg.append(e.as_str());
                errors.push(msg);
                assert(errors@.map_values(|x: String| x@) =~= before.push(
                    attempt.program@ + ": "@ + e@,
                ));
            },
        }
        i = i + 1;
    }
    assert(all.subrange(0, attempts.len() as int) =~= all);
    if errors.len() == 0 {
        Err(String::from_str("Steam is not running and no supported Steam launcher command was found."))
    } else {
        let mut msg = String::from_str("Steam is not running and automatic launch failed: ");
        let joined = join_strings(&errors, " | ");
        msg.append(joined.as_str());
        Err(msg)
    }
}

/// What launching Steam on `platform` comes to: unsupported platforms are
/// refused; elsewhere the attempts with `launch_candidates` decide.
pub fn launch_steam(platform: Platform, attempts: &Vec<LaunchAttempt>) -> (res: Result<(), String>)
    ensures
        result_view(res) == launch_steam_spec(platform, attempts_view(attempts@)),
{
    if platform == Platform::Other {
        Err(String::from_str("Automatic Steam launch is not supported on this platform yet."))
    } else {
        try_launch(attempts)
    }
}

/// Whether a Windows process listing (the output of `tasklist`) shows the
/// Steam client.
pub fn process_list_shows_steam(listing: &str) -> (res: bool)
    ensures
        res == has_substring(listing@, "steam.exe"@),
{
    str_contains(listing, "steam.exe")
}

/// The commands that tell whether Steam is running on `platform`.
pub open spec fn running_checks_spec(platform: Platform) -> Seq<(Seq<char>, Seq<Seq<char>>)> {
    match platform {
        Platform::Linux => seq![
            ("pgrep"@, seq!["-x"@, "steam"@]),
            ("pgrep"@, seq!["-f"@, "/Steam/ubuntu12_32/steam"@]),
            ("pgrep"@, seq!["-x"@, "steam.sh"@]),
        ],
        Platform::Windows => seq![("tasklist"@, seq!["/FI"@, "IMAGENAME eq steam.exe"@])],
        Platform::Other => Seq::empty(),
    }
}

/// The commands that tell whether Steam is running on `platform`, in order:
/// on Linux each succeeds when it finds the process, on Windows the output
/// lists it.
pub fn running_checks(platform: Platform) -> (res: Vec<LaunchCommand>)
    ensures
        res@.map_values(|c: LaunchCommand| c@) == running_checks_spec(platform),
{
    let mut res: Vec<LaunchCommand> = Vec::new();
    match platform {
        Platform::Linux => {
            res.push(command("pgrep").with("-x").with("steam"));
            res.push(command("pgrep").with("-f").with("/Steam/ubuntu12_32/steam"));
            res.push(command("pgrep").with("-x").with("steam.sh"));
            assert(res@[0]@ == running_checks_spec(platform)[0]);
            assert(res@[1]@ == running_checks_spec(platform)[1]);
            assert(res@[2]@ == running_checks_spec(platform)[2]);
            assert(res@.map_values(|c: LaunchCommand| c@) =~= running_checks_spec(platform));
        },
        Platform::Windows => {
            res.push(command("tasklist").with("/FI").with("IMAGENAME eq steam.exe"));
            assert(res@[0]@ == running_checks_spec(platform)[0]);
            assert(res@.map_values(|c: LaunchCommand| c@) =~= running_checks_spec(platform));
        },
        Platform::Other => {
            assert(res@.map_values(|c: LaunchCommand| c@) =~= running_checks_spec(platform));
        },
    }
    res
}

/// What running one check gave.
pub enum ProbeResult {
    /// The command ran; whether it exited successfully.
    Status(bool),
    /// The command ran; its output.
    Listing(String),
    /// The command could not be run.
    Failed,
}

pub enum ProbeView {
    Status(bool),
    Listing(Seq<char>),
    Failed,
}

impl View for ProbeResult {
    type V = ProbeView;

    open spec fn view(&self) -> ProbeView {
        match self {
            ProbeResult::Status(b) => ProbeView::Status(*b),
            ProbeResult::Listing(s) => ProbeView::Listing(s@),
            ProbeResult::Failed => ProbeView::Failed,
        }
    }
}

/// Steam runs when, on Linux, some check succeeded, and, on Windows, some
/// process listing shows `steam.exe`; elsewhere it is taken not to run.
pub open spec fn steam_running_spec(platform: Platform, results: Seq<ProbeView>) -> bool {
    match platform {
        Platform::Linux => exists|i: int| 0 <= i < results.len() && results[i] == ProbeView::Status(
            true,
        ),
        Platform::Windows => exists|i: int|
            0 <= i < results.len() && (#[trigger] results[i] matches ProbeView::Listing(s)
                && has_substring(s, "steam.exe"@)),
        Platform::Other => false,
    }
}

/// Whether Steam is running, given the results of `running_checks`.
pub fn steam_is_running(platform: Platform, results: &Vec<ProbeResult>) -> (res: bool)
    ensures
        res == steam_running_spec(platform, results@.map_values(|r: ProbeResult| r@)),
{
    let ghost rs = results@.map_values(|r: ProbeResult| r@);
    if platform == Platform::Other {
        return false;
    }
    for i in 0..results.len()
        invariant
            platform != Platform::Other,
            rs == results@.map_values(|r: ProbeResult| r@),
            forall|k: int|
                0 <= k < i ==> match #[trigger] rs[k] {
                    ProbeView::Status(b) => !(platform == Platform::Linux && b),
                    ProbeView::Listing(s) => !(platform == Platform::Windows && has_substring(
                        s,
                        "steam.exe"@,
                    )),
                    ProbeView::Failed => true,
                },
    {
        match &results[i] {
            ProbeResult::Status(ok) => {
                if platform == Platform::Linux && *ok {
                    assert(rs[i as int] == ProbeView::Status(true));
                    return true;
                }
            },
            ProbeResult::Listing(text) => {
                if platform == Platform::Windows && process_list_shows_steam(text.as_str()) {
                    assert(rs[i as int] matches ProbeView::Listing(s) && has_substring(
                        s,
                        "steam.exe"@,
                    ));
                    return true;
                }
            },
            ProbeResult::Failed => {},
        }
    }
    assert forall|k: int| 0 <= k < rs.len() implies !(rs[k] == ProbeView::Status(true)
        && platform == Platform::Linux) by {
        let _ = rs[k];
    }
    false
}

/// One started program is enough, whatever failed before it.
pub proof fn lemma_any_start_succeeds(attempts: Seq<(Seq<char>, OutcomeView)>, i: int)
    requires
        0 <= i < attempts.len(),
        attempts[i].1 is Started,
    ensures
        try_launch_spec(attempts) is Ok,
{
}

/// Programs that were not found leave no trace in the error.
pub proof fn lemma_not_found_is_silent(attempts: Seq<(Seq<char>, OutcomeView)>, program: Seq<char>)
    ensures
        failure_messages(attempts.push((program, OutcomeView::NotFound))) == failure_messages(
            attempts,
        ),
{
    assert(attempts.push((program, OutcomeView::NotFound)).drop_last() =~= attempts);
}

/// Only the unsupported platform is refused: on Linux and Windows launching
/// comes to what the attempts add up to, and it succeeds as soon as one
/// program started.
pub proof fn lemma_supported_platforms_launch(
    platform: Platform,
    attempts: Seq<(Seq<char>, OutcomeView)>,
    i: int,
)
    requires
        platform != Platform::Other,
    ensures
        launch_steam_spec(platform, attempts) == try_launch_spec(attempts),
        0 <= i < attempts.len() && attempts[i].1 is Started ==> launch_steam_spec(platform, attempts)
            is Ok,
{
}

proof fn lemma_substring_after_prefix(prefix: Seq<char>, s: Seq<char>, needle: Seq<char>)
    requires
        has_substring(s, needle),
    ensures
        has_substring(prefix + s, needle),
{
    let i = choose|i: int| crate::text::occurs_at(s, needle, i);
    assert((prefix + s).subrange(prefix.len() + i, prefix.len() + i + needle.len()) =~= s.subrange(
        i,
        i + needle.len(),
    ));
    assert(crate::text::occurs_at(prefix + s, needle, prefix.len() + i));
}

/// On Windows, Steam counts as running exactly when some process listing
/// mentions `steam.exe` anywhere, as `process_list_shows_steam` decides for
/// one listing; a header in front of the line does not hide it.
pub proof fn lemma_windows_listing_anywhere(header: Seq<char>, listing: Seq<char>)
    ensures
        steam_running_spec(Platform::Windows, seq![ProbeView::Listing(listing)]) <==> has_substring(
            listing,
            "steam.exe"@,
        ),
        steam_running_spec(Platform::Windows, seq![ProbeView::Listing(listing)])
            ==> steam_running_spec(Platform::Windows, seq![ProbeView::Listing(header + listing)]),
{
    let one = seq![ProbeView::Listing(listing)];
    if has_substring(listing, "steam.exe"@) {
        assert(one[0] == ProbeView::Listing(listing));
        lemma_substring_after_prefix(header, listing, "steam.exe"@);
        let two = seq![ProbeView::Listing(header + listing)];
        assert(two[0] == ProbeView::Listing(header + listing));
    }
}

/// More check results can only add evidence: Steam found running stays
/// found when further results are added.
pub proof fn lemma_running_kept_by_more_results(
    platform: Platform,
    results: Seq<ProbeView>,
    more: ProbeView,
)
    ensures
        steam_running_spec(platform, results) ==> steam_running_spec(platform, results.push(more)),
{
    if steam_running_spec(platform, results) {
        if platform == Platform::Linux {
            let i = choose|i: int| 0 <= i < results.len() && results[i] == ProbeView::Status(true);
            assert(results.push(more)[i] == results[i]);
        } else if platform == Platform::Windows {
            let i = choose|i: int|
                0 <= i < results.len() && (#[trigger] results[i] matches ProbeView::Listing(s)
                    && has_substring(s, "steam.exe"@));
            assert(results.push(more)[i] == results[i]);
        }
    }
}

} // verus!
