//! The monitor's decisions: which watchers to start and stop on each
//! command, and what it reports of itself. Running the watchers is left to
//! the caller, which reports back whether a start succeeded.
use vstd::prelude::*;

verus! {

/// A command sent to the monitor.
#[derive(Debug, Clone, Copy, PartialEq, Eq, Structural)]
pub enum MonitorCommand {
    StartMessageMonitoring,
    StopMessageMonitoring,
    StartEmailMonitoring,
    StopEmailMonitoring,
    /// Ask for the status report.
    GetStatus,
}

/// Which of the two watchers.
#[derive(Debug, Clone, Copy, PartialEq, Eq, Structural)]
pub enum WatcherKind {
    Message,
    Email,
}

/// What the monitor asks its caller to do for a command.
#[derive(Debug, PartialEq, Eq)]
pub enum MonitorAction {
    /// Start this watcher and report whether that succeeded.
    StartWatcher(WatcherKind),
    /// Stop this watcher (it no longer counts as running).
    StopWatcher(WatcherKind),
    /// Nothing to do: this watcher is already running.
    AlreadyRunning(WatcherKind),
    /// Nothing to do: this watcher is not running.
    NotRunning(WatcherKind),
    /// Answer with this report.
    ReportStatus(String),
}

/// Which watchers are running.
#[derive(Debug, Clone, Copy, PartialEq, Eq, Structural)]
pub struct MonitorState {
    pub message_running: bool,
    pub email_running: bool,
}

/// The kind of action, without the text of a report.
#[derive(Debug, Clone, Copy, PartialEq, Eq, Structural)]
pub enum ActionKind {
    Start(WatcherKind),
    Stop(WatcherKind),
    AlreadyRunning(WatcherKind),
    NotRunning(WatcherKind),
    Report,
}

pub open spec fn action_kind(a: MonitorAction) -> ActionKind {
    match a {
        MonitorAction::StartWatcher(k) => ActionKind::Start(k),
        MonitorAction::StopWatcher(k) => ActionKind::Stop(k),
        MonitorAction::AlreadyRunning(k) => ActionKind::AlreadyRunning(k),
        MonitorAction::NotRunning(k) => ActionKind::NotRunning(k),
        MonitorAction::ReportStatus(_) => ActionKind::Report,
    }
}

pub open spec fn is_running(s: MonitorState, k: WatcherKind) -> bool {
    match k {
        WatcherKind::Message => s.message_running,
        WatcherKind::Email => s.email_running,
    }
}

pub open spec fn with_running(s: MonitorState, k: WatcherKind, running: bool) -> MonitorState {
    match k {
        WatcherKind::Message => MonitorState { message_running: running, ..s },
        WatcherKind::Email => MonitorState { email_running: running, ..s },
    }
}

/// The state after a command, and the kind of action it asks for: a start
/// of a running watcher and a stop of a stopped one change nothing; a stop
/// of a running one stops it; a start of a stopped one asks the caller to
/// start it (it counts as running once the caller reports success).
pub open spec fn command_step(s: MonitorState, c: MonitorCommand) -> (MonitorState, ActionKind) {
    match c {
        MonitorCommand::StartMessageMonitoring => start_step(s, WatcherKind::Message),
        MonitorCommand::StartEmailMonitoring => start_step(s, WatcherKind::Email),
        MonitorCommand::StopMessageMonitoring => stop_step(s, WatcherKind::Message),
        MonitorCommand::StopEmailMonitoring => stop_step(s, WatcherKind::Email),
        MonitorCommand::GetStatus => (s, ActionKind::Report),
    }
}

pub open spec fn start_step(s: MonitorState, k: WatcherKind) -> (MonitorState, ActionKind) {
    if is_running(s, k) {
        (s, ActionKind::AlreadyRunning(k))
    } else {
        (s, ActionKind::Start(k))
    }
}

pub open spec fn stop_step(s: MonitorState, k: WatcherKind) -> (MonitorState, ActionKind) {
    if is_running(s, k) {
        (with_running(s, k, false), ActionKind::Stop(k))
    } else {
        (s, ActionKind::NotRunning(k))
    }
}

/// The state once the caller has reported on a start it was asked for.
pub open spec fn start_reported(s: MonitorState, k: WatcherKind, succeeded: bool) -> MonitorState {
    if succeeded {
        with_running(s, k, true)
    } else {
        s
    }
}

pub open spec fn running_word(running: bool) -> Seq<char> {
    if running {
        "Running"@
    } else {
        "Stopped"@
    }
}

/// The status report.
pub open spec fn status_text(s: MonitorState) -> Seq<char> {
    "Monitoring Status:\n"@ + "- Message Monitoring: "@ + running_word(s.message_running) + "\n"@
        + "- Email Monitoring: "@ + running_word(s.email_running)
}

fn running_str(running: bool) -> (s: &'static str)
    ensures
        s@ == running_word(running),
{
    if running {
        "Running"
    } else {
        "Stopped"
    }
}

impl MonitorState {
    /// Nothing running.
    pub fn new() -> (s: Self)
        ensures
            !s.message_running,
            !s.email_running,
    {
        MonitorState { message_running: false, email_running: false }
    }

    /// The status report, with one line for each watcher.
    pub fn status_report(&self) -> (r: String)
        ensures
            r@ == status_text(*self),
    {
        let mut r = String::new();
        r.append("Monitoring Status:\n");
        r.append("- Message Monitoring: ");
        r.append(running_str(self.message_running));
        r.append("\n");
        r.append("- Email Monitoring: ");
        r.append(running_str(self.email_running));
        r
    }

    fn start(&mut self, k: WatcherKind) -> (a: MonitorAction)
        ensures
            (*final(self), action_kind(a)) == start_step(*old(self), k),
    {
        let running = match k {
            WatcherKind::Message => self.message_running,
            WatcherKind::Email => self.email_running,
        };
        if running {
            MonitorAction::AlreadyRunning(k)
        } else {
            MonitorAction::StartWatcher(k)
        }
    }

    fn stop(&mut self, k: WatcherKind) -> (a: MonitorAction)
        ensures
            (*final(self), action_kind(a)) == stop_step(*old(self), k),
    {
        match k {
            WatcherKind::Message => {
                if self.message_running {
                    self.message_running = false;
                    MonitorAction::StopWatcher(k)
                } else {
                    MonitorAction::NotRunning(k)
                }
            },
            WatcherKind::Email => {
                if self.email_running {
                    self.email_running = false;
                    MonitorAction::StopWatcher(k)
                } else {
                    MonitorAction::NotRunning(k)
                }
            },
        }
    }

    /// Decides what a command asks for (see `command_step`); a status
    /// request is answered with the report.
    pub fn handle_command(&mut self, command: MonitorCommand) -> (a: MonitorAction)
        ensures
            (*final(self), action_kind(a)) == command_step(*old(self), command),
            a matches MonitorAction::ReportStatus(t) ==> t@ == status_text(*old(self)),
    {
        match command {
            MonitorCommand::StartMessageMonitoring => self.start(WatcherKind::Message),
            MonitorCommand::StartEmailMonitoring => self.start(WatcherKind::Email),
            MonitorCommand::StopMessageMonitoring => self.stop(WatcherKind::Message),
            MonitorCommand::StopEmailMonitoring => self.stop(WatcherKind::Email),
            MonitorCommand::GetStatus => MonitorAction::ReportStatus(self.status_report()),
        }
    }

    /// Takes in the caller's report on a start it was asked for.
    pub fn report_start(&mut self, k: WatcherKind, succeeded: bool)
        ensures
            *final(self) == start_reported(*old(self), k, succeeded),
    {
        if succeeded {
            match k {
                WatcherKind::Message => self.message_running = true,
                WatcherKind::Email => self.email_running = true,
            }
        }
    }
}

/// The commands sent when monitoring starts: message monitoring first where
/// it is on, then mail monitoring where it is on.
pub open spec fn initial_command_list(listen_message: bool, listen_email: bool) -> Seq<MonitorCommand> {
    (if listen_message { seq![MonitorCommand::StartMessageMonitoring] } else { seq![] })
        + (if listen_email { seq![MonitorCommand::StartEmailMonitoring] } else { seq![] })
}

/// The commands to send when monitoring starts, under these settings.
pub fn initial_commands(listen_message: bool, listen_email: bool) -> (r: Vec<MonitorCommand>)
    ensures
        r@ == initial_command_list(listen_message, listen_email),
{
    let mut r: Vec<MonitorCommand> = Vec::new();
    if listen_message {
        r.push(MonitorCommand::StartMessageMonitoring);
    }
    if listen_email {
        r.push(MonitorCommand::StartEmailMonitoring);
    }
    assert(r@ =~= initial_command_list(listen_message, listen_email));
    r
}

/// A start of a stopped watcher that succeeds, followed by a stop of it,
/// leaves the monitor as it was; a second start of a running watcher
/// changes nothing.
pub proof fn lemma_start_then_stop(s: MonitorState, k: WatcherKind)
    requires
        !is_running(s, k),
    ensures
        ({
            let (s1, a1) = start_step(s, k);
            let s2 = start_reported(s1, k, true);
            let (s3, a3) = start_step(s2, k);
            let (s4, a4) = stop_step(s3, k);
            &&& a1 == ActionKind::Start(k)
            &&& is_running(s2, k)
            &&& s3 == s2 && a3 == ActionKind::AlreadyRunning(k)
            &&& a4 == ActionKind::Stop(k)
            &&& s4 == s
        }),
{
}

/// A command that concerns one watcher leaves the other one as it was, and
/// a status request changes nothing.
pub proof fn lemma_commands_independent(s: MonitorState, c: MonitorCommand)
    ensures
        ({
            let s1 = command_step(s, c).0;
            &&& (c == MonitorCommand::StartEmailMonitoring || c == MonitorCommand::StopEmailMonitoring)
                ==> s1.message_running == s.message_running
            &&& (c == MonitorCommand::StartMessageMonitoring || c == MonitorCommand::StopMessageMonitoring)
                ==> s1.email_running == s.email_running
            &&& c == MonitorCommand::GetStatus ==> s1 == s
        }),
{
}

/// The monitor after a sequence of commands, every start it asks for
/// reported as successful.
pub open spec fn run_commands(s: MonitorState, cs: Seq<MonitorCommand>) -> MonitorState
    decreases cs.len(),
{
    if cs.len() == 0 {
        s
    } else {
        let (s1, a) = command_step(run_commands(s, cs.drop_last()), cs.last());
        match a {
            ActionKind::Start(k) => start_reported(s1, k, true),
            _ => s1,
        }
    }
}

/// Whether the last of the commands that start or stop a watcher starts it
/// (`initially` where there is none).
pub open spec fn last_is_start(cs: Seq<MonitorCommand>, start: MonitorCommand, stop: MonitorCommand, initially: bool) -> bool
    decreases cs.len(),
{
    if cs.len() == 0 {
        initially
    } else if cs.last() == start {
        true
    } else if cs.last() == stop {
        false
    } else {
        last_is_start(cs.drop_last(), start, stop, initially)
    }
}

/// After any sequence of commands whose starts succeed, a watcher runs
/// exactly when the last command that starts or stops it starts it (or,
/// where there is none, when it ran before); status requests change nothing.
pub proof fn lemma_command_sequence(s: MonitorState, cs: Seq<MonitorCommand>)
    ensures
        run_commands(s, cs).message_running == last_is_start(
            cs,
            MonitorCommand::StartMessageMonitoring,
            MonitorCommand::StopMessageMonitoring,
            s.message_running,
        ),
        run_commands(s, cs).email_running == last_is_start(
            cs,
            MonitorCommand::StartEmailMonitoring,
            MonitorCommand::StopEmailMonitoring,
            s.email_running,
        ),
    decreases cs.len(),
{
    if cs.len() > 0 {
        lemma_command_sequence(s, cs.drop_last());
    }
}

/// Some command starts the watcher, and none after the last such one stops it.
pub open spec fn started_and_not_stopped(cs: Seq<MonitorCommand>, start: MonitorCommand, stop: MonitorCommand) -> bool {
    exists|i: int| 0 <= i < cs.len() && #[trigger] cs[i] == start && forall|j: int| i < j < cs.len() ==> cs[j] != stop
}

proof fn lemma_last_is_start_from_stopped(cs: Seq<MonitorCommand>, start: MonitorCommand, stop: MonitorCommand)
    requires
        start != stop,
    ensures
        last_is_start(cs, start, stop, false) == started_and_not_stopped(cs, start, stop),
    decreases cs.len(),
{
    if cs.len() > 0 {
        let init = cs.drop_last();
        let n = cs.len() - 1;
        lemma_last_is_start_from_stopped(init, start, stop);
        if cs.last() == start {
            assert(cs[n] == start);
        } else if cs.last() == stop {
            assert(!started_and_not_stopped(cs, start, stop)) by {
                if started_and_not_stopped(cs, start, stop) {
                    let i = choose|i: int| 0 <= i < cs.len() && #[trigger] cs[i] == start && forall|j: int| i < j < cs.len() ==> cs[j] != stop;
                    assert(i != n);
                    assert(cs[n] == stop);
                }
            }
        } else {
            if started_and_not_stopped(init, start, stop) {
                let i = choose|i: int| 0 <= i < init.len() && #[trigger] init[i] == start && forall|j: int| i < j < init.len() ==> init[j] != stop;
                assert(cs[i] == start);
                assert forall|j: int| i < j < cs.len() implies cs[j] != stop by {
                    if j < n {
                        assert(cs[j] == init[j]);
                    }
                }
            }
            if started_and_not_stopped(cs, start, stop) {
                let i = choose|i: int| 0 <= i < cs.len() && #[trigger] cs[i] == start && forall|j: int| i < j < cs.len() ==> cs[j] != stop;
                assert(i != n);
                assert(init[i] == start);
                assert forall|j: int| i < j < init.len() implies init[j] != stop by {
                    assert(cs[j] == init[j]);
                }
            }
        }
    }
}

/// From a new monitor (nothing running), after any sequence of commands
/// whose starts succeed, the message watcher runs exactly when some command
/// starts it and no command after the last such one stops it; likewise the
/// mail watcher. Each is one flag, so at most one of each kind runs.
pub proof fn lemma_commands_from_new(cs: Seq<MonitorCommand>)
    ensures
        run_commands(MonitorState { message_running: false, email_running: false }, cs).message_running
            == started_and_not_stopped(cs, MonitorCommand::StartMessageMonitoring, MonitorCommand::StopMessageMonitoring),
        run_commands(MonitorState { message_running: false, email_running: false }, cs).email_running
            == started_and_not_stopped(cs, MonitorCommand::StartEmailMonitoring, MonitorCommand::StopEmailMonitoring),
{
    lemma_command_sequence(MonitorState { message_running: false, email_running: false }, cs);
    lemma_last_is_start_from_stopped(cs, MonitorCommand::StartMessageMonitoring, MonitorCommand::StopMessageMonitoring);
    lemma_last_is_start_from_stopped(cs, MonitorCommand::StartEmailMonitoring, MonitorCommand::StopEmailMonitoring);
}

/// The commands sent when monitoring starts ask for message monitoring
/// exactly when it is on and for mail monitoring exactly when it is on,
/// each whatever the other setting says; sent to a new monitor whose starts
/// succeed, they leave running exactly the watchers that are on.
pub proof fn lemma_initial_commands_follow_settings(listen_message: bool, listen_email: bool)
    ensures
        initial_command_list(listen_message, listen_email).contains(MonitorCommand::StartMessageMonitoring)
            <==> listen_message,
        initial_command_list(listen_message, listen_email).contains(MonitorCommand::StartEmailMonitoring)
            <==> listen_email,
        run_commands(MonitorState { message_running: false, email_running: false }, initial_command_list(listen_message, listen_email))
            == (MonitorState { message_running: listen_message, email_running: listen_email }),
        initial_command_list(listen_message, listen_email).len() == (if listen_message { 1int } else { 0 }) + (if listen_email {
            1int
        } else {
            0
        }),
        listen_message ==> initial_command_list(listen_message, listen_email)[0] == MonitorCommand::StartMessageMonitoring,
{
    let cs = initial_command_list(listen_message, listen_email);
    let s0 = MonitorState { message_running: false, email_running: false };
    reveal_with_fuel(run_commands, 3);
    if listen_message && listen_email {
        assert(cs =~= seq![MonitorCommand::StartMessageMonitoring, MonitorCommand::StartEmailMonitoring]);
        assert(cs.drop_last() =~= seq![MonitorCommand::StartMessageMonitoring]);
        assert(cs.drop_last().drop_last() =~= Seq::<MonitorCommand>::empty());
        assert(cs[0] == MonitorCommand::StartMessageMonitoring);
        assert(cs[1] == MonitorCommand::StartEmailMonitoring);
    } else if listen_message {
        assert(cs =~= seq![MonitorCommand::StartMessageMonitoring]);
        assert(cs.drop_last() =~= Seq::<MonitorCommand>::empty());
        assert(cs[0] == MonitorCommand::StartMessageMonitoring);
        assert(!cs.contains(MonitorCommand::StartEmailMonitoring)) by {
            assert forall|i: int| 0 <= i < cs.len() implies cs[i] != MonitorCommand::StartEmailMonitoring by {}
        }
    } else if listen_email {
        assert(cs =~= seq![MonitorCommand::StartEmailMonitoring]);
        assert(cs.drop_last() =~= Seq::<MonitorCommand>::empty());
        assert(cs[0] == MonitorCommand::StartEmailMonitoring);
        assert(!cs.contains(MonitorCommand::StartMessageMonitoring)) by {
            assert forall|i: int| 0 <= i < cs.len() implies cs[i] != MonitorCommand::StartMessageMonitoring by {}
        }
    } else {
        assert(cs =~= Seq::<MonitorCommand>::empty());
    }
}

} // verus!
