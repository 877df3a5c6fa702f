//! Connecting to Steam: the decisions of `init_client`, written as a state
//! machine. The caller performs each requested action (checking for the
//! Steam process, trying to initialise the client, launching Steam, sleeping),
//! publishes the status lines, and feeds back what happened together with the
//! current time in milliseconds.
use vstd::prelude::*;
use vstd::string::StringExecFns;

use crate::steam::{
    retry_delay_for, retry_delay_spec, status_message_for, status_message_spec,
    STEAM_BOOT_TIMEOUT_MS, STEAM_DENIED_RETRY_INTERVAL_MS, STEAM_FORCE_LAUNCH_AFTER_MS,
    STEAM_POST_LAUNCH_SETTLE_MS, STEAM_PROCESS_POLL_INTERVAL_MS, STEAM_RETRY_INTERVAL_MS,
};

verus! {

/// What happened to the action the machine asked for last.
pub enum BootEvent {
    /// Whether the Steam process is running.
    Running(bool),
    /// The outcome of one attempt to initialise the Steam client.
    InitDone(Result<(), String>),
    /// The outcome of launching Steam.
    Launched(Result<(), String>),
    /// The requested pause is over.
    Slept,
}

/// What the caller has to do next.
pub enum BootAction {
    CheckRunning,
    TryInit,
    LaunchSteam,
    /// Sleep for this many milliseconds.
    Sleep(u64),
    /// Connecting is over, with this result.
    Finish(Result<(), String>),
}

/// One step: status lines to publish, in order, then the action to perform.
pub struct BootStep {
    pub statuses: Vec<String>,
    pub action: BootAction,
}

/// Where the machine stands.
#[derive(PartialEq, Eq, Structural, Clone, Copy)]
pub enum BootPhase {
    /// Waiting for the first process check.
    InitialCheck,
    /// Waiting for the first initialisation attempt.
    InitialTry,
    /// Waiting for the process check that opens the retry loop.
    BeginCheck,
    /// Waiting for the launch that opens the retry loop.
    BeginLaunch,
    /// Waiting for a check whether the launched Steam has appeared.
    ProcessCheck,
    /// Waiting for a pause after which the loop starts over.
    Sleeping,
    /// Waiting for the pause before the next initialisation attempt.
    RetryWait,
    /// Waiting for an initialisation attempt inside the loop.
    Retrying,
    /// Waiting for a launch forced by a long wait.
    ForcedLaunch,
    /// Waiting for the process check that ends a failed attempt.
    PostCheck,
    /// Finished.
    Done,
}

/// The fields of a connection attempt.
struct BootState {
    phase: BootPhase,
    outcome: Result<(), String>,
    last_error: String,
    launched_steam: bool,
    saw_running_process: bool,
    settled_at: Option<u64>,
    next_retry_delay: u64,
    started_waiting: u64,
    deadline: u64,
}

/// The state of a connection attempt; its retry interval is always one the
/// machine uses, and Steam is never marked launched before the retry loop.
pub struct Bootstrap {
    state: BootState,
}

impl View for Bootstrap {
    type V = BootView;

    closed spec fn view(&self) -> BootView {
        self.state@
    }
}

/// The abstract state of a connection attempt. `settled_at` is the time at
/// which a Steam process that was seen has had its settling period.
pub struct BootView {
    pub phase: BootPhase,
    pub outcome: Result<(), Seq<char>>,
    pub last_error: Seq<char>,
    pub launched: bool,
    pub saw: bool,
    pub settled_at: Option<u64>,
    pub next_retry: u64,
    pub started: u64,
    pub deadline: u64,
}

pub enum EventView {
    Running(bool),
    InitDone(Result<(), Seq<char>>),
    Launched(Result<(), Seq<char>>),
    Slept,
}

pub enum ActionView {
    CheckRunning,
    TryInit,
    LaunchSteam,
    Sleep(u64),
    Finish(Result<(), Seq<char>>),
}

pub struct StepView {
    pub statuses: Seq<Seq<char>>,
    pub action: ActionView,
}

pub open spec fn result_view(r: Result<(), String>) -> Result<(), Seq<char>> {
    match r {
        Ok(()) => Ok(()),
        Err(e) => Err(e@),
    }
}

impl View for BootState {
    type V = BootView;

    closed spec fn view(&self) -> BootView {
        BootView {
            phase: self.phase,
            outcome: result_view(self.outcome),
            last_error: self.last_error@,
            launched: self.launched_steam,
            saw: self.saw_running_process,
            settled_at: self.settled_at,
            next_retry: self.next_retry_delay,
            started: self.started_waiting,
            deadline: self.deadline,
        }
    }
}

impl View for BootEvent {
    type V = EventView;

    open spec fn view(&self) -> EventView {
        match self {
            BootEvent::Running(b) => EventView::Running(*b),
            BootEvent::InitDone(r) => EventView::InitDone(result_view(*r)),
            BootEvent::Launched(r) => EventView::Launched(result_view(*r)),
            BootEvent::Slept => EventView::Slept,
        }
    }
}

impl View for BootAction {
    type V = ActionView;

    open spec fn view(&self) -> ActionView {
        match self {
            BootAction::CheckRunning => ActionView::CheckRunning,
            BootAction::TryInit => ActionView::TryInit,
            BootAction::LaunchSteam => ActionView::LaunchSteam,
            BootAction::Sleep(d) => ActionView::Sleep(*d),
            BootAction::Finish(r) => ActionView::Finish(result_view(*r)),
        }
    }
}

impl View for BootStep {
    type V = StepView;

    open spec fn view(&self) -> StepView {
        StepView {
            statuses: self.statuses@.map_values(|s: String| s@),
            action: self.action@,
        }
    }
}

/// The error given when the time runs out.
pub open spec fn timeout_message(launched: bool, saw: bool, last_error: Seq<char>) -> Seq<char> {
    if launched {
        "Steam was launched, but gmod-wstool could not initialize it within 45 seconds.\n\nLast Steam error: "@
            + last_error
            + "\n\nIf Steam just opened, finish signing in first. Steam must be logged into an account that owns Garry's Mod."@
    } else if saw {
        "Steam looked like it was already running, but gmod-wstool still could not initialize it within 45 seconds.\n\nLast Steam error: "@
            + last_error
            + "\n\nMake sure Steam is fully signed in on the account that owns Garry's Mod, then retry."@
    } else {
        last_error
    }
}

/// The action a phase waits to have answered.
pub open spec fn pending_action(s: BootView) -> ActionView {
    match s.phase {
        BootPhase::InitialCheck | BootPhase::BeginCheck | BootPhase::ProcessCheck
        | BootPhase::PostCheck => ActionView::CheckRunning,
        BootPhase::InitialTry | BootPhase::Retrying => ActionView::TryInit,
        BootPhase::BeginLaunch | BootPhase::ForcedLaunch => ActionView::LaunchSteam,
        BootPhase::Sleeping => ActionView::Sleep(STEAM_PROCESS_POLL_INTERVAL_MS),
        BootPhase::RetryWait => ActionView::Sleep(s.next_retry),
        BootPhase::Done => ActionView::Finish(s.outcome),
    }
}

/// The event answers the action the phase waits for.
pub open spec fn answers(phase: BootPhase, e: EventView) -> bool {
    match e {
        EventView::Running(_) => phase == BootPhase::InitialCheck || phase == BootPhase::BeginCheck
            || phase == BootPhase::ProcessCheck || phase == BootPhase::PostCheck,
        EventView::InitDone(_) => phase == BootPhase::InitialTry || phase == BootPhase::Retrying,
        EventView::Launched(_) => phase == BootPhase::BeginLaunch || phase == BootPhase::ForcedLaunch,
        EventView::Slept => phase == BootPhase::Sleeping || phase == BootPhase::RetryWait,
    }
}

pub open spec fn finish(s: BootView, statuses: Seq<Seq<char>>, r: Result<(), Seq<char>>) -> (
    BootView,
    StepView,
) {
    (
        BootView { phase: BootPhase::Done, outcome: r, ..s },
        StepView { statuses, action: ActionView::Finish(r) },
    )
}

pub open spec fn ask(s: BootView, phase: BootPhase, statuses: Seq<Seq<char>>, a: ActionView) -> (
    BootView,
    StepView,
) {
    (BootView { phase, ..s }, StepView { statuses, action: a })
}

/// After the process has been seen: give it time to settle, or wait for the
/// next attempt.
pub open spec fn settle_check(s: BootView, now: u64, statuses: Seq<Seq<char>>) -> (
    BootView,
    StepView,
) {
    match s.settled_at {
        Some(t) if now < t => ask(
            s,
            BootPhase::Sleeping,
            statuses.push(status_message_spec(s.last_error, s.launched)),
            ActionView::Sleep(
                if t - now < STEAM_PROCESS_POLL_INTERVAL_MS {
                    (t - now) as u64
                } else {
                    STEAM_PROCESS_POLL_INTERVAL_MS
                },
            ),
        ),
        _ => ask(s, BootPhase::RetryWait, statuses, ActionView::Sleep(s.next_retry)),
    }
}

/// The top of the retry loop.
pub open spec fn loop_top(s: BootView, now: u64, statuses: Seq<Seq<char>>) -> (BootView, StepView) {
    if now >= s.deadline {
        finish(s, statuses, Err(timeout_message(s.launched, s.saw, s.last_error)))
    } else if s.launched && !s.saw {
        ask(s, BootPhase::ProcessCheck, statuses, ActionView::CheckRunning)
    } else {
        settle_check(s, now, statuses)
    }
}

/// The retry loop is entered at time `now`.
pub open spec fn enter_loop(s: BootView, now: u64, statuses: Seq<Seq<char>>) -> (BootView, StepView) {
    let s2 = BootView {
        started: now,
        deadline: now.saturating_add(STEAM_BOOT_TIMEOUT_MS),
        ..s
    };
    loop_top(s2, now, statuses)
}

/// The retry loop is opened after `error`: first the process is checked.
pub open spec fn begin(s: BootView, error: Seq<char>) -> (BootView, StepView) {
    ask(
        BootView { last_error: error, ..s },
        BootPhase::BeginCheck,
        Seq::empty(),
        ActionView::CheckRunning,
    )
}

/// The state machine: the next state and step after `e` arrives at time `now`.
pub open spec fn boot_next(s: BootView, e: EventView, now: u64) -> (BootView, StepView) {
    if !answers(s.phase, e) {
        (s, StepView { statuses: Seq::empty(), action: pending_action(s) })
    } else {
        match e {
            EventView::Running(running) => {
                if s.phase == BootPhase::InitialCheck {
                    if running {
                        ask(s, BootPhase::InitialTry, Seq::empty(), ActionView::TryInit)
                    } else {
                        begin(s, "Steam is not running."@)
                    }
                } else if s.phase == BootPhase::BeginCheck {
                    let s2 = BootView {
                        saw: running,
                        settled_at: if running { Some(now) } else { None },
                        next_retry: STEAM_RETRY_INTERVAL_MS,
                        ..s
                    };
                    if !running {
                        ask(
                            s2,
                            BootPhase::BeginLaunch,
                            seq!["Opening Steam..."@],
                            ActionView::LaunchSteam,
                        )
                    } else {
                        enter_loop(s2, now, seq!["Waiting for Steam..."@])
                    }
                } else if s.phase == BootPhase::ProcessCheck {
                    if running {
                        let s2 = BootView {
                            saw: true,
                            settled_at: Some(now.saturating_add(STEAM_POST_LAUNCH_SETTLE_MS)),
                            next_retry: STEAM_PROCESS_POLL_INTERVAL_MS,
                            ..s
                        };
                        settle_check(s2, now, seq!["Steam opened. Waiting for sign-in..."@])
                    } else {
                        ask(
                            s,
                            BootPhase::Sleeping,
                            Seq::empty(),
                            ActionView::Sleep(STEAM_PROCESS_POLL_INTERVAL_MS),
                        )
                    }
                } else {
                    loop_top(BootView { saw: s.saw || running, ..s }, now, Seq::empty())
                }
            },
            EventView::InitDone(r) => {
                if s.phase == BootPhase::InitialTry {
                    match r {
                        Ok(()) => finish(s, seq!["Connected to Steam."@], Ok(())),
                        Err(error) => begin(s, error),
                    }
                } else {
                    match r {
                        Ok(()) => finish(s, Seq::empty(), Ok(())),
                        Err(error) => {
                            let s2 = BootView {
                                last_error: error,
                                next_retry: retry_delay_spec(error),
                                ..s
                            };
                            if !s.launched && now.saturating_sub(s.started)
                                >= STEAM_FORCE_LAUNCH_AFTER_MS {
                                ask(
                                    s2,
                                    BootPhase::ForcedLaunch,
                                    seq!["Opening Steam..."@],
                                    ActionView::LaunchSteam,
                                )
                            } else {
                                ask(
                                    s2,
                                    BootPhase::PostCheck,
                                    seq![status_message_spec(error, s.launched)],
                                    ActionView::CheckRunning,
                                )
                            }
                        },
                    }
                }
            },
            EventView::Launched(r) => {
                match r {
                    Err(error) => finish(s, Seq::empty(), Err(error)),
                    Ok(()) => {
                        let s2 = BootView {
                            launched: true,
                            next_retry: STEAM_PROCESS_POLL_INTERVAL_MS,
                            ..s
                        };
                        if s.phase == BootPhase::BeginLaunch {
                            enter_loop(s2, now, seq!["Waiting for Steam to open..."@])
                        } else {
                            ask(
                                BootView { saw: false, settled_at: None, ..s2 },
                                BootPhase::PostCheck,
                                seq!["Waiting for Steam to open..."@],
                                ActionView::CheckRunning,
                            )
                        }
                    },
                }
            },
            EventView::Slept => {
                if s.phase == BootPhase::Sleeping {
                    loop_top(s, now, Seq::empty())
                } else {
                    ask(s, BootPhase::Retrying, Seq::empty(), ActionView::TryInit)
                }
            },
        }
    }
}

/// The start of `init_client`: connected already, or a first process check.
pub open spec fn boot_start(client_ready: bool) -> (BootView, StepView) {
    let s = BootView {
        phase: BootPhase::InitialCheck,
        outcome: Ok(()),
        last_error: Seq::empty(),
        launched: false,
        saw: false,
        settled_at: None,
        next_retry: STEAM_RETRY_INTERVAL_MS,
        started: 0,
        deadline: 0,
    };
    if client_ready {
        finish(s, seq!["Connected to Steam."@], Ok(()))
    } else {
        ask(s, BootPhase::InitialCheck, Seq::empty(), ActionView::CheckRunning)
    }
}

/// The retry interval is always one of the three the machine uses.
/// Steam has not been launched before the retry loop is under way.
pub open spec fn boot_wf(s: BootView) -> bool {
    &&& s.next_retry == STEAM_PROCESS_POLL_INTERVAL_MS || s.next_retry == STEAM_RETRY_INTERVAL_MS
        || s.next_retry == STEAM_DENIED_RETRY_INTERVAL_MS
    &&& s.launched ==> !(s.phase == BootPhase::InitialCheck || s.phase == BootPhase::InitialTry
        || s.phase == BootPhase::BeginCheck || s.phase == BootPhase::BeginLaunch)
    &&& in_retry_loop(s.phase) ==> s.launched || s.saw
}

/// The phases of the retry loop.
pub open spec fn in_retry_loop(p: BootPhase) -> bool {
    p == BootPhase::ProcessCheck || p == BootPhase::Sleeping || p == BootPhase::RetryWait
        || p == BootPhase::Retrying || p == BootPhase::ForcedLaunch || p == BootPhase::PostCheck
}

fn status(text: &str) -> (res: Vec<String>)
    ensures
        res@.map_values(|s: String| s@) == seq![text@],
{
    let mut v: Vec<String> = Vec::new();
    v.push(String::from_str(text));
    assert(v@.map_values(|s: String| s@) =~= seq![text@]);
    v
}

fn no_status() -> (res: Vec<String>)
    ensures
        res@.map_values(|s: String| s@) == Seq::<Seq<char>>::empty(),
{
    let v: Vec<String> = Vec::new();
    assert(v@.map_values(|s: String| s@) =~= Seq::<Seq<char>>::empty());
    v
}

fn copy_result(r: &Result<(), String>) -> (res: Result<(), String>)
    ensures
        result_view(res) == result_view(*r),
{
    match r {
        Ok(()) => Ok(()),
        Err(e) => Err(e.clone()),
    }
}

fn timeout_error(launched: bool, saw: bool, last_error: &String) -> (res: String)
    ensures
        res@ == timeout_message(launched, saw, last_error@),
{
    if launched {
        let mut m = String::from_str(
            "Steam was launched, but gmod-wstool could not initialize it within 45 seconds.\n\nLast Steam error: ",
        );
        m.append(last_error.as_str());
        m.append(
            "\n\nIf Steam just opened, finish signing in first. Steam must be logged into an account that owns Garry's Mod.",
        );
        m
    } else if saw {
        let mut m = String::from_str(
            "Steam looked like it was already running, but gmod-wstool still could not initialize it within 45 seconds.\n\nLast Steam error: ",
        );
        m.append(last_error.as_str());
        m.append(
            "\n\nMake sure Steam is fully signed in on the account that owns Garry's Mod, then retry.",
        );
        m
    } else {
        last_error.clone()
    }
}

/// Starts connecting to Steam, as `init_client` does: a client that is ready
/// already finishes at once with "Connected to Steam."; otherwise the Steam
/// process is checked first.
pub fn init_client(client_ready: bool) -> (res: (Bootstrap, BootStep))
    ensures
        (res.0@, res.1@) == boot_start(client_ready),
        boot_wf(res.0@),
{
    let mut machine = fresh_state();
    if client_ready {
        machine.phase = BootPhase::Done;
        let step = BootStep { statuses: status("Connected to Steam."), action: BootAction::Finish(Ok(())) };
        (Bootstrap { state: machine }, step)
    } else {
        let step = BootStep { statuses: no_status(), action: BootAction::CheckRunning };
        (Bootstrap { state: machine }, step)
    }
}

impl Bootstrap {
    #[verifier::type_invariant]
    closed spec fn inv(self) -> bool {
        boot_wf(self.state@)
    }

    /// The phase the machine is in.
    pub fn phase(&self) -> (res: BootPhase)
        ensures
            res == self@.phase,
    {
        self.state.phase
    }

    /// Takes in what happened to the last requested action at time `now`
    /// (milliseconds on a monotonic clock) and gives the next step. An event
    /// that does not answer the pending action changes nothing and repeats it.
    pub fn step(&mut self, event: BootEvent, now: u64) -> (res: BootStep)
        ensures
            (final(self)@, res@) == boot_next(old(self)@, event@, now),
            boot_wf(final(self)@),
    {
        proof {
            use_type_invariant(&*self);
        }
        let mut current = fresh_state();
        std::mem::swap(&mut current, &mut self.state);
        let res = current.advance(event, now);
        self.state = current;
        res
    }
}

fn fresh_state() -> (res: BootState)
    ensures
        boot_wf(res@),
        res@ == (BootView {
            phase: BootPhase::InitialCheck,
            outcome: Ok(()),
            last_error: Seq::empty(),
            launched: false,
            saw: false,
            settled_at: None,
            next_retry: STEAM_RETRY_INTERVAL_MS,
            started: 0,
            deadline: 0,
        }),
{
    BootState {
        phase: BootPhase::InitialCheck,
        outcome: Ok(()),
        last_error: String::new(),
        launched_steam: false,
        saw_running_process: false,
        settled_at: None,
        next_retry_delay: STEAM_RETRY_INTERVAL_MS,
        started_waiting: 0,
        deadline: 0,
    }
}

impl BootState {
    fn pending(&self) -> (res: BootAction)
        ensures
            res@ == pending_action(self@),
    {
        match self.phase {
            BootPhase::InitialCheck | BootPhase::BeginCheck | BootPhase::ProcessCheck
            | BootPhase::PostCheck => BootAction::CheckRunning,
            BootPhase::InitialTry | BootPhase::Retrying => BootAction::TryInit,
            BootPhase::BeginLaunch | BootPhase::ForcedLaunch => BootAction::LaunchSteam,
            BootPhase::Sleeping => BootAction::Sleep(STEAM_PROCESS_POLL_INTERVAL_MS),
            BootPhase::RetryWait => BootAction::Sleep(self.next_retry_delay),
            BootPhase::Done => BootAction::Finish(copy_result(&self.outcome)),
        }
    }

    fn finish_with(&mut self, statuses: Vec<String>, r: Result<(), String>) -> (res: BootStep)
        ensures
            (final(self)@, res@) == finish(old(self)@, statuses@.map_values(|s: String| s@), result_view(r)),
    {
        self.phase = BootPhase::Done;
        let out = copy_result(&r);
        self.outcome = r;
        BootStep { statuses, action: BootAction::Finish(out) }
    }

    fn ask_for(&mut self, phase: BootPhase, statuses: Vec<String>, action: BootAction) -> (res: BootStep)
        ensures
            (final(self)@, res@) == ask(old(self)@, phase, statuses@.map_values(|s: String| s@), action@),
    {
        self.phase = phase;
        BootStep { statuses, action }
    }

    fn settle_check_at(&mut self, now: u64, statuses: Vec<String>) -> (res: BootStep)
        ensures
            (final(self)@, res@) == settle_check(old(self)@, now, statuses@.map_values(|s: String| s@)),
    {
        let mut statuses = statuses;
        match self.settled_at {
            Some(t) if now < t => {
                let ghost before = statuses@.map_values(|s: String| s@);
                let msg = status_message_for(self.last_error.as_str(), self.launched_steam);
                statuses.push(String::from_str(msg));
                assert(statuses@.map_values(|s: String| s@) =~= before.push(
                    status_message_spec(self.last_error@, self.launched_steam),
                ));
                let wait = if t - now < STEAM_PROCESS_POLL_INTERVAL_MS {
                    t - now
                } else {
                    STEAM_PROCESS_POLL_INTERVAL_MS
                };
                self.ask_for(BootPhase::Sleeping, statuses, BootAction::Sleep(wait))
            },
            _ => {
                let d = self.next_retry_delay;
                self.ask_for(BootPhase::RetryWait, statuses, BootAction::Sleep(d))
            },
        }
    }

    fn loop_top_at(&mut self, now: u64, statuses: Vec<String>) -> (res: BootStep)
        ensures
            (final(self)@, res@) == loop_top(old(self)@, now, statuses@.map_values(|s: String| s@)),
    {
        if now >= self.deadline {
            let msg = timeout_error(self.launched_steam, self.saw_running_process, &self.last_error);
            self.finish_with(statuses, Err(msg))
        } else if self.launched_steam && !self.saw_running_process {
            self.ask_for(BootPhase::ProcessCheck, statuses, BootAction::CheckRunning)
        } else {
            self.settle_check_at(now, statuses)
        }
    }

    fn enter_loop_at(&mut self, now: u64, statuses: Vec<String>) -> (res: BootStep)
        ensures
            (final(self)@, res@) == enter_loop(old(self)@, now, statuses@.map_values(|s: String| s@)),
    {
        self.started_waiting = now;
        self.deadline = now.saturating_add(STEAM_BOOT_TIMEOUT_MS);
        self.loop_top_at(now, statuses)
    }

    fn begin_with(&mut self, error: String) -> (res: BootStep)
        ensures
            (final(self)@, res@) == begin(old(self)@, error@),
    {
        self.last_error = error;
        self.ask_for(BootPhase::BeginCheck, no_status(), BootAction::CheckRunning)
    }

    fn advance(&mut self, event: BootEvent, now: u64) -> (res: BootStep)
        requires
            boot_wf(old(self)@),
        ensures
            (final(self)@, res@) == boot_next(old(self)@, event@, now),
            boot_wf(final(self)@),
    {
        let ghost e = event@;
        let answered = match &event {
            BootEvent::Running(_) => self.phase == BootPhase::InitialCheck || self.phase
                == BootPhase::BeginCheck || self.phase == BootPhase::ProcessCheck || self.phase
                == BootPhase::PostCheck,
            BootEvent::InitDone(_) => self.phase == BootPhase::InitialTry || self.phase
                == BootPhase::Retrying,
            BootEvent::Launched(_) => self.phase == BootPhase::BeginLaunch || self.phase
                == BootPhase::ForcedLaunch,
            BootEvent::Slept => self.phase == BootPhase::Sleeping || self.phase
                == BootPhase::RetryWait,
        };
        if !answered {
            let a = self.pending();
            return BootStep { statuses: no_status(), action: a };
        }
        match event {
            BootEvent::Running(running) => {
                if self.phase == BootPhase::InitialCheck {
                    if running {
                        self.ask_for(BootPhase::InitialTry, no_status(), BootAction::TryInit)
                    } else {
                        self.begin_with(String::from_str("Steam is not running."))
                    }
                } else if self.phase == BootPhase::BeginCheck {
                    self.saw_running_process = running;
                    self.settled_at = if running { Some(now) } else { None };
                    self.next_retry_delay = STEAM_RETRY_INTERVAL_MS;
                    if !running {
                        self.ask_for(BootPhase::BeginLaunch, status("Opening Steam..."), BootAction::LaunchSteam)
                    } else {
                        self.enter_loop_at(now, status("Waiting for Steam..."))
                    }
                } else if self.phase == BootPhase::ProcessCheck {
                    if running {
                        self.saw_running_process = true;
                        self.settled_at = Some(now.saturating_add(STEAM_POST_LAUNCH_SETTLE_MS));
                        self.next_retry_delay = STEAM_PROCESS_POLL_INTERVAL_MS;
                        self.settle_check_at(now, status("Steam opened. Waiting for sign-in..."))
                    } else {
                        self.ask_for(
                            BootPhase::Sleeping,
                            no_status(),
                            BootAction::Sleep(STEAM_PROCESS_POLL_INTERVAL_MS),
                        )
                    }
                } else {
                    self.saw_running_process = self.saw_running_process || running;
                    self.loop_top_at(now, no_status())
                }
            },
            BootEvent::InitDone(r) => {
                if self.phase == BootPhase::InitialTry {
                    match r {
                        Ok(()) => self.finish_with(status("Connected to Steam."), Ok(())),
                        Err(error) => self.begin_with(error),
                    }
                } else {
                    match r {
                        Ok(()) => self.finish_with(no_status(), Ok(())),
                        Err(error) => {
                            let delay = retry_delay_for(error.as_str());
                            let msg = status_message_for(error.as_str(), self.launched_steam);
                            let launched = self.launched_steam;
                            self.last_error = error;
                            self.next_retry_delay = delay;
                            if !launched && now.saturating_sub(self.started_waiting)
                                >= STEAM_FORCE_LAUNCH_AFTER_MS {
                                self.ask_for(
                                    BootPhase::ForcedLaunch,
                                    status("Opening Steam..."),
                                    BootAction::LaunchSteam,
                                )
                            } else {
                                self.ask_for(BootPhase::PostCheck, status(msg), BootAction::CheckRunning)
                            }
                        },
                    }
                }
            },
            BootEvent::Launched(r) => {
                match r {
                    Err(error) => self.finish_with(no_status(), Err(error)),
                    Ok(()) => {
                        self.launched_steam = true;
                        self.next_retry_delay = STEAM_PROCESS_POLL_INTERVAL_MS;
                        if self.phase == BootPhase::BeginLaunch {
                            self.enter_loop_at(now, status("Waiting for Steam to open..."))
                        } else {
                            self.saw_running_process = false;
                            self.settled_at = None;
                            self.ask_for(
                                BootPhase::PostCheck,
                                status("Waiting for Steam to open..."),
                                BootAction::CheckRunning,
                            )
                        }
                    },
                }
            },
            BootEvent::Slept => {
                if self.phase == BootPhase::Sleeping {
                    self.loop_top_at(now, no_status())
                } else {
                    self.ask_for(BootPhase::Retrying, no_status(), BootAction::TryInit)
                }
            },
        }
    }
}

} // verus!
verus! {

/// The steps a machine in state `s` gives for a sequence of timed events.
pub open spec fn boot_run(s: BootView, events: Seq<(EventView, u64)>) -> Seq<StepView>
    decreases events.len(),
{
    if events.len() == 0 {
        Seq::empty()
    } else {
        let (s2, step) = boot_next(s, events[0].0, events[0].1);
        seq![step] + boot_run(s2, events.drop_first())
    }
}

/// Every event answers the action requested just before it.
pub open spec fn follows_protocol(s: BootView, events: Seq<(EventView, u64)>) -> bool
    decreases events.len(),
{
    events.len() == 0 || (answers(s.phase, events[0].0) && follows_protocol(
        boot_next(s, events[0].0, events[0].1).0,
        events.drop_first(),
    ))
}

/// How many of `steps` ask for Steam to be launched.
pub open spec fn launch_requests(steps: Seq<StepView>) -> nat
    decreases steps.len(),
{
    if steps.len() == 0 {
        0
    } else {
        (if steps[0].action is LaunchSteam { 1nat } else { 0nat }) + launch_requests(
            steps.drop_first(),
        )
    }
}

pub open spec fn launch_phase(p: BootPhase) -> bool {
    p == BootPhase::BeginLaunch || p == BootPhase::ForcedLaunch
}

/// How many launches a state may still ask for.
pub open spec fn launch_budget(s: BootView) -> nat {
    if s.launched || s.phase == BootPhase::Done || launch_phase(s.phase) {
        0
    } else {
        1
    }
}

/// The machine keeps its invariant.
pub proof fn lemma_boot_wf_preserved(s: BootView, e: EventView, now: u64)
    requires
        boot_wf(s),
    ensures
        boot_wf(boot_next(s, e, now).0),
{
}

proof fn lemma_step_launch_budget(s: BootView, e: EventView, now: u64)
    requires
        boot_wf(s),
        answers(s.phase, e),
    ensures
        ({
            let (s2, step) = boot_next(s, e, now);
            (if step.action is LaunchSteam { 1nat } else { 0nat }) + launch_budget(s2)
                <= launch_budget(s)
        }),
{
}

proof fn lemma_run_launch_budget(s: BootView, events: Seq<(EventView, u64)>)
    requires
        boot_wf(s),
        follows_protocol(s, events),
    ensures
        launch_requests(boot_run(s, events)) <= launch_budget(s),
    decreases events.len(),
{
    if events.len() > 0 {
        let (s2, step) = boot_next(s, events[0].0, events[0].1);
        lemma_step_launch_budget(s, events[0].0, events[0].1);
        lemma_boot_wf_preserved(s, events[0].0, events[0].1);
        lemma_run_launch_budget(s2, events.drop_first());
        let steps = boot_run(s, events);
        assert(steps[0] == step);
        assert(steps.drop_first() =~= boot_run(s2, events.drop_first()));
    }
}

/// Connecting launches Steam at most once: in any run of `init_client` in
/// which every event answers the action asked for before it, at most one step
/// asks for a launch.
pub proof fn lemma_launch_at_most_once(client_ready: bool, events: Seq<(EventView, u64)>)
    requires
        follows_protocol(boot_start(client_ready).0, events),
    ensures
        launch_requests(seq![boot_start(client_ready).1] + boot_run(boot_start(client_ready).0, events))
            <= 1,
{
    let start = boot_start(client_ready);
    lemma_run_launch_budget(start.0, events);
    let all = seq![start.1] + boot_run(start.0, events);
    assert(all.drop_first() =~= boot_run(start.0, events));
    assert(all[0] == start.1);
}

/// Every pause the machine asks for lasts between 1 ms and the longest retry
/// interval.
pub proof fn lemma_sleep_bounded(s: BootView, e: EventView, now: u64)
    requires
        boot_wf(s),
    ensures
        boot_next(s, e, now).1.action matches ActionView::Sleep(d) ==> 1 <= d
            <= STEAM_DENIED_RETRY_INTERVAL_MS,
{
}

/// A finished connection attempt stays finished and repeats its result.
pub proof fn lemma_done_is_final(s: BootView, e: EventView, now: u64)
    requires
        s.phase == BootPhase::Done,
    ensures
        boot_next(s, e, now).0 == s,
        boot_next(s, e, now).1.action == ActionView::Finish(s.outcome),
        boot_next(s, e, now).1.statuses.len() == 0,
{
}

/// Success is reported only for a client that was connected already or right
/// after an attempt to initialise it succeeded.
pub proof fn lemma_success_needs_init(s: BootView, e: EventView, now: u64)
    requires
        s.phase != BootPhase::Done,
        boot_next(s, e, now).1.action matches ActionView::Finish(r) && r is Ok,
    ensures
        e matches EventView::InitDone(r) && r is Ok,
{
}

/// Once the deadline has passed, the next turn of the retry loop gives up with
/// the timeout message.
pub proof fn lemma_gives_up_at_deadline(s: BootView, now: u64)
    requires
        s.phase == BootPhase::Sleeping,
        now >= s.deadline,
    ensures
        boot_next(s, EventView::Slept, now).1.action == ActionView::Finish(
            Err(timeout_message(s.launched, s.saw, s.last_error)),
        ),
{
}

/// The error given at the deadline always explains itself: it says that
/// Steam was launched, or that it looked like it was running, and quotes
/// the last Steam error after that; it is never the bare last error.
pub proof fn lemma_timeout_explains(s: BootView)
    requires
        boot_wf(s),
        in_retry_loop(s.phase),
    ensures
        s.launched || s.saw,
        timeout_message(s.launched, s.saw, s.last_error) != s.last_error,
{
    reveal_strlit("Steam was launched, but gmod-wstool could not initialize it within 45 seconds.\n\nLast Steam error: ");
    reveal_strlit("Steam looked like it was already running, but gmod-wstool still could not initialize it within 45 seconds.\n\nLast Steam error: ");
    assert(timeout_message(s.launched, s.saw, s.last_error).len() > s.last_error.len());
}

/// How many one-second turns of the retry loop are left before the deadline,
/// from time `t`.
pub open spec fn turns_left(s: BootView, t: int) -> nat {
    if t >= s.deadline {
        0
    } else {
        ((s.deadline - t + 999) / 1000) as nat
    }
}

/// How many more initialisation attempts a state may still ask for, the last
/// event having come at time `t`.
pub open spec fn attempt_budget(s: BootView, t: int) -> nat {
    match s.phase {
        BootPhase::InitialCheck => 46,
        BootPhase::InitialTry | BootPhase::BeginCheck | BootPhase::BeginLaunch => 45,
        BootPhase::ProcessCheck => if turns_left(s, t) >= 1 {
            turns_left(s, t)
        } else {
            1
        },
        BootPhase::Sleeping | BootPhase::Retrying | BootPhase::ForcedLaunch
        | BootPhase::PostCheck => turns_left(s, t),
        BootPhase::RetryWait => 1 + turns_left(s, t + s.next_retry),
        BootPhase::Done => 0,
    }
}

/// The next event comes no earlier than the last one, and the pause before an
/// initialisation attempt is waited out in full.
pub open spec fn waits_out(s: BootView, t: int, t2: int) -> bool {
    &&& t2 >= t
    &&& s.phase == BootPhase::RetryWait ==> t2 >= t + s.next_retry
}

/// Every event answers the action asked for before it and comes in time, the
/// last event before the run having come at time `t`.
pub open spec fn paced(s: BootView, t: int, events: Seq<(EventView, u64)>) -> bool
    decreases events.len(),
{
    events.len() == 0 || {
        &&& answers(s.phase, events[0].0)
        &&& waits_out(s, t, events[0].1 as int)
        &&& paced(boot_next(s, events[0].0, events[0].1).0, events[0].1 as int, events.drop_first())
    }
}

/// How many of `steps` ask for an initialisation attempt.
pub open spec fn init_requests(steps: Seq<StepView>) -> nat
    decreases steps.len(),
{
    if steps.len() == 0 {
        0
    } else {
        (if steps[0].action is TryInit { 1nat } else { 0nat }) + init_requests(steps.drop_first())
    }
}

proof fn lemma_turns_left_facts(s: BootView, x: int, y: int)
    ensures
        x <= y ==> turns_left(s, y) <= turns_left(s, x),
        x < s.deadline && y >= x + 1000 ==> 1 + turns_left(s, y) <= turns_left(s, x),
        s.deadline == x + 45000 ==> turns_left(s, x) == 45,
        s.deadline == x + 45000 && y >= x + 2000 ==> turns_left(s, y) <= 43,
{
}

proof fn lemma_loop_top_attempts(s: BootView, t: int, now: u64, statuses: Seq<Seq<char>>)
    requires
        boot_wf(s),
        now >= t,
    ensures
        ({
            let (s2, step) = loop_top(s, now, statuses);
            &&& !(step.action is TryInit)
            &&& attempt_budget(s2, now as int) <= (if (now as int) < s.deadline {
                turns_left(s, now as int)
            } else {
                0
            })
        }),
{
    lemma_turns_left_facts(s, now as int, now + s.next_retry);
}

proof fn lemma_step_attempts(s: BootView, t: int, e: EventView, now: u64)
    requires
        boot_wf(s),
        answers(s.phase, e),
        waits_out(s, t, now as int),
    ensures
        ({
            let (s2, step) = boot_next(s, e, now);
            (if step.action is TryInit { 1nat } else { 0nat }) + attempt_budget(s2, now as int)
                <= attempt_budget(s, t)
        }),
{
    let n = now as int;
    lemma_turns_left_facts(s, t, n);
    lemma_turns_left_facts(s, t + s.next_retry, n);
    lemma_turns_left_facts(s, n, n + s.next_retry);
    if s.phase == BootPhase::Sleeping || s.phase == BootPhase::PostCheck {
        lemma_loop_top_attempts(
            BootView { saw: s.saw || (e matches EventView::Running(b) && b), ..s },
            t,
            now,
            Seq::empty(),
        );
    }
    if s.phase == BootPhase::BeginCheck || s.phase == BootPhase::BeginLaunch {
        let s2 = boot_next(s, e, now).0;
        lemma_turns_left_facts(s2, n, n + 2000);
        lemma_turns_left_facts(s2, n, n + s2.next_retry);
    }
    if s.phase == BootPhase::ProcessCheck {
        let s2 = boot_next(s, e, now).0;
        lemma_turns_left_facts(s2, t, n);
    }
}

proof fn lemma_run_attempts(s: BootView, t: int, events: Seq<(EventView, u64)>)
    requires
        boot_wf(s),
        paced(s, t, events),
    ensures
        init_requests(boot_run(s, events)) <= attempt_budget(s, t),
    decreases events.len(),
{
    if events.len() > 0 {
        let (s2, step) = boot_next(s, events[0].0, events[0].1);
        lemma_step_attempts(s, t, events[0].0, events[0].1);
        lemma_boot_wf_preserved(s, events[0].0, events[0].1);
        lemma_run_attempts(s2, events[0].1 as int, events.drop_first());
        let steps = boot_run(s, events);
        assert(steps[0] == step);
        assert(steps.drop_first() =~= boot_run(s2, events.drop_first()));
    }
}

/// Connecting makes at most 46 attempts to initialise the Steam client: one
/// before the retry loop and at most one per second of its 45, in any run in
/// which every event answers the action asked for and the pause before each
/// attempt is waited out.
pub proof fn lemma_at_most_46_attempts(client_ready: bool, t0: int, events: Seq<(EventView, u64)>)
    requires
        paced(boot_start(client_ready).0, t0, events),
    ensures
        init_requests(seq![boot_start(client_ready).1] + boot_run(boot_start(client_ready).0, events))
            <= 46,
{
    let start = boot_start(client_ready);
    lemma_run_attempts(start.0, t0, events);
    let all = seq![start.1] + boot_run(start.0, events);
    assert(all.drop_first() =~= boot_run(start.0, events));
    assert(all[0] == start.1);
}

} // verus!
