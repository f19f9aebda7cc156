//! The monitor panel of a remote machine: its sessions, the command that
//! collects the figures, and the reading of a command's output within a
//! time limit.

use vstd::prelude::*;
use crate::login::Login;
use crate::login::LoginProfile;
use crate::registry::SessionTable;
use crate::scan::contains_text;
use crate::scan::has_text;
use crate::session::ErrorKind;
use crate::session::SessionError;
use crate::sftp::side_login_for;
use crate::sftp::ssh_session_missing;
use crate::sftp::SideLogin;
use crate::ssh::SshState;

verus! {

/// One row of the process table.
#[derive(Debug, PartialEq, Eq)]
pub struct ProcessInfo {
    pub pid: String,
    pub user: String,
    pub cpu: String,
    pub mem: String,
    pub command: String,
}

/// The registry of monitor sessions, by the identifier of the interactive
/// session that each belongs to.
pub struct MonitorState<S> {
    sessions: SessionTable<S>,
}

impl<S> View for MonitorState<S> {
    type V = Map<Seq<char>, S>;

    closed spec fn view(&self) -> Map<Seq<char>, S> {
        self.sessions@
    }
}

impl<S> MonitorState<S> {
    /// A registry without sessions.
    pub fn new() -> (state: MonitorState<S>)
        ensures
            state@ == Map::<Seq<char>, S>::empty(),
    {
        MonitorState { sessions: SessionTable::new() }
    }

    /// Whether a session is registered under `id`.
    pub fn contains(&self, id: &str) -> (found: bool)
        ensures
            found == self@.contains_key(id@),
    {
        self.sessions.contains(id)
    }

    /// The session registered under `id`.
    pub fn get(&self, id: &str) -> (found: Option<&S>)
        ensures
            match found {
                Some(session) => self@.contains_key(id@) && self@[id@] == *session,
                None => !self@.contains_key(id@),
            },
    {
        self.sessions.get(id)
    }

    /// Registers `session` under `id`, in place of what was there.
    pub fn register(&mut self, id: String, session: S) -> (replaced: Option<S>)
        ensures
            final(self)@ == old(self)@.insert(id@, session),
            replaced == if old(self)@.contains_key(id@) {
                Some(old(self)@[id@])
            } else {
                None::<S>
            },
    {
        self.sessions.insert(id, session)
    }

    /// Takes the session registered under `id` out of the registry.
    pub fn unregister(&mut self, id: &str) -> (removed: Option<S>)
        ensures
            final(self)@ == old(self)@.remove(id@),
            removed == if old(self)@.contains_key(id@) {
                Some(old(self)@[id@])
            } else {
                None::<S>
            },
    {
        self.sessions.remove(id)
    }
}

/// Begins the opening of the monitor session of interactive session `id`:
/// nothing to do where one is registered already; else a login with time
/// limits and the credentials of the interactive session, which must be
/// registered.
pub fn open_monitor_session<H, S>(
    ssh_state: &SshState<H>,
    monitor_state: &MonitorState<S>,
    id: &str,
) -> (r: Result<SideLogin, SessionError>)
    ensures
        match r {
            Ok(SideLogin::AlreadyOpen) => monitor_state@.contains_key(id@),
            Ok(SideLogin::Open(login, first)) => !monitor_state@.contains_key(id@)
                && ssh_state@.contains_key(id@) && (login@, first@) == side_login_for(
                LoginProfile::Monitor,
                ssh_state@[id@],
            ),
            Err(e) => !monitor_state@.contains_key(id@) && !ssh_state@.contains_key(id@) && e@
                == ssh_session_missing(),
        },
{
    if monitor_state.contains(id) {
        return Ok(SideLogin::AlreadyOpen);
    }
    match ssh_state.get(id) {
        Some(connection) => {
            let (login, first) = Login::to_endpoint(LoginProfile::Monitor, connection.endpoint());
            Ok(SideLogin::Open(login, first))
        },
        None => Err(SessionError::new(ErrorKind::NotFound, "SSH session not found")),
    }
}

/// The command that asks a machine for the name of its system.
pub fn system_name_command() -> (command: String)
    ensures
        command@ == "uname -s"@,
{
    String::from_str("uname -s")
}

/// Whether the answer to the question for the system's name is that of a
/// Mac.
pub open spec fn names_mac(system_name: Seq<char>) -> bool {
    has_text(system_name, "Darwin"@)
}

/// Whether the answer to the question for the system's name is that of a
/// Mac.
pub fn is_mac(system_name: &str) -> (mac: bool)
    ensures
        mac == names_mac(system_name@),
{
    contains_text(system_name, "Darwin")
}

/// The commands that print the figures of a Mac, each under its heading.
pub open spec fn mac_probes() -> Seq<char> {
    "echo '---UPTIME---'; sysctl -n kern.boottime; echo '---MEM---'; sysctl -n hw.memsize; echo '---DISK---'; df -h /; echo '---CPU---'; top -l 1 | grep 'CPU usage'; echo '---PROC---'; ps aux -r | head -6 | tail -5; echo '---OS---'; sw_vers -productVersion; echo '---MODEL---'; sysctl -n machdep.cpu.brand_string; echo '---CORES---'; sysctl -n hw.ncpu;"@
}

/// The commands that print the figures of a Linux machine, each under its
/// heading.
pub open spec fn linux_probes() -> Seq<char> {
    "echo '---UPTIME---'; cat /proc/uptime; echo '---MEM---'; free -m; echo '---DISK---'; df -h /; echo '---CPU---'; top -bn1 | grep 'Cpu(s)'; echo '---PROC---'; ps aux --sort=-%cpu | head -6 | tail -5; echo '---OS---'; cat /etc/os-release | grep PRETTY_NAME | cut -d'\"' -f2; echo '---MODEL---'; cat /proc/cpuinfo | grep 'model name' | head -1 | cut -d':' -f2; echo '---CORES---'; nproc;"@
}

/// The one command that collects all figures: the probes of the system in
/// a subshell with a plain terminal type, errors joined to the output.
pub open spec fn stats_command_text(mac: bool) -> Seq<char> {
    "(export TERM=xterm; "@ + (if mac {
        mac_probes()
    } else {
        linux_probes()
    }) + ") 2>&1"@
}

/// The command that collects all figures of a machine.
pub fn stats_command(mac: bool) -> (command: String)
    ensures
        command@ == stats_command_text(mac),
{
    let mut command = String::from_str("(export TERM=xterm; ");
    if mac {
        command.append(
            "echo '---UPTIME---'; sysctl -n kern.boottime; echo '---MEM---'; sysctl -n hw.memsize; echo '---DISK---'; df -h /; echo '---CPU---'; top -l 1 | grep 'CPU usage'; echo '---PROC---'; ps aux -r | head -6 | tail -5; echo '---OS---'; sw_vers -productVersion; echo '---MODEL---'; sysctl -n machdep.cpu.brand_string; echo '---CORES---'; sysctl -n hw.ncpu;",
        );
    } else {
        command.append(
            "echo '---UPTIME---'; cat /proc/uptime; echo '---MEM---'; free -m; echo '---DISK---'; df -h /; echo '---CPU---'; top -bn1 | grep 'Cpu(s)'; echo '---PROC---'; ps aux --sort=-%cpu | head -6 | tail -5; echo '---OS---'; cat /etc/os-release | grep PRETTY_NAME | cut -d'\"' -f2; echo '---MODEL---'; cat /proc/cpuinfo | grep 'model name' | head -1 | cut -d':' -f2; echo '---CORES---'; nproc;",
        );
    }
    command.append(") 2>&1");
    command
}

/// Milliseconds after which the reading of a command's output gives up.
pub const COMMAND_TIMEOUT_MS: u64 = 5000;

/// Milliseconds to wait when a command has no output ready.
pub const COMMAND_POLL_MS: u64 = 10;

/// What the reading of a command's output has asked for last.
#[derive(Debug, Clone, Copy, PartialEq, Eq, Structural)]
pub enum CommandPhase {
    /// The time since the start.
    Timing,
    /// A read from the channel.
    Reading,
    /// A wait.
    Waiting,
    /// The closing of the channel.
    Closing,
    /// Nothing more.
    Done,
}

/// What the last action of the reading brought.
#[derive(Debug, PartialEq, Eq)]
pub enum CommandEvent {
    /// The action is done.
    Tick,
    /// So many milliseconds have passed since the start.
    Elapsed(u64),
    /// The read brought this text.
    Chunk(String),
    /// The read found the end of the output.
    Eof,
    /// The read found nothing ready.
    WouldBlock,
    /// The read failed.
    Failed,
}

/// An event of the reading as plain values.
pub enum CommandEventView {
    Tick,
    Elapsed(u64),
    Chunk(Seq<char>),
    Eof,
    WouldBlock,
    Failed,
}

impl View for CommandEvent {
    type V = CommandEventView;

    open spec fn view(&self) -> CommandEventView {
        match *self {
            CommandEvent::Tick => CommandEventView::Tick,
            CommandEvent::Elapsed(ms) => CommandEventView::Elapsed(ms),
            CommandEvent::Chunk(text) => CommandEventView::Chunk(text@),
            CommandEvent::Eof => CommandEventView::Eof,
            CommandEvent::WouldBlock => CommandEventView::WouldBlock,
            CommandEvent::Failed => CommandEventView::Failed,
        }
    }
}

/// What the caller of the reading has to do next.
#[derive(Debug, PartialEq, Eq)]
pub enum CommandAction {
    /// Tell how many milliseconds have passed since the start.
    CheckClock,
    /// Read from the channel.
    Read,
    /// Sleep for so many milliseconds.
    Sleep(u64),
    /// Wait until the channel has closed; a failure is ignored.
    WaitClose,
    /// The output that was read.
    Finish(String),
    /// Nothing is left to do.
    Stop,
}

/// An action of the reading as plain values.
pub enum CommandActionView {
    CheckClock,
    Read,
    Sleep(u64),
    WaitClose,
    Finish(Seq<char>),
    Stop,
}

impl View for CommandAction {
    type V = CommandActionView;

    open spec fn view(&self) -> CommandActionView {
        match *self {
            CommandAction::CheckClock => CommandActionView::CheckClock,
            CommandAction::Read => CommandActionView::Read,
            CommandAction::Sleep(ms) => CommandActionView::Sleep(ms),
            CommandAction::WaitClose => CommandActionView::WaitClose,
            CommandAction::Finish(output) => CommandActionView::Finish(output@),
            CommandAction::Stop => CommandActionView::Stop,
        }
    }
}

/// The reading of a command's output as plain values.
pub struct CommandRunView {
    pub phase: CommandPhase,
    pub output: Seq<char>,
}

impl CommandRunView {
    /// The reading before anything was read.
    pub open spec fn fresh() -> CommandRunView {
        CommandRunView { phase: CommandPhase::Timing, output: Seq::empty() }
    }

    /// The reading in another phase.
    pub open spec fn at(self, phase: CommandPhase) -> CommandRunView {
        CommandRunView { phase, ..self }
    }

    /// The reading after `event`, and the action it asks for: the output
    /// is read chunk by chunk until it ends, until a read fails, or until
    /// the time limit has passed when the clock is looked at before a read.
    pub open spec fn step(self, event: CommandEventView) -> (CommandRunView, CommandActionView) {
        match self.phase {
            CommandPhase::Timing => match event {
                CommandEventView::Elapsed(ms) => if ms > COMMAND_TIMEOUT_MS {
                    (self.at(CommandPhase::Closing), CommandActionView::WaitClose)
                } else {
                    (self.at(CommandPhase::Reading), CommandActionView::Read)
                },
                _ => (self.at(CommandPhase::Reading), CommandActionView::Read),
            },
            CommandPhase::Reading => match event {
                CommandEventView::Chunk(text) => (
                    CommandRunView { phase: CommandPhase::Timing, output: self.output + text },
                    CommandActionView::CheckClock,
                ),
                CommandEventView::WouldBlock => (
                    self.at(CommandPhase::Waiting),
                    CommandActionView::Sleep(COMMAND_POLL_MS),
                ),
                _ => (self.at(CommandPhase::Closing), CommandActionView::WaitClose),
            },
            CommandPhase::Waiting => (self.at(CommandPhase::Timing), CommandActionView::CheckClock),
            CommandPhase::Closing => (
                self.at(CommandPhase::Done),
                CommandActionView::Finish(self.output),
            ),
            CommandPhase::Done => (self, CommandActionView::Stop),
        }
    }
}

/// The decisions of the reading of one command's output.
pub struct CommandRun {
    phase: CommandPhase,
    output: String,
}

impl View for CommandRun {
    type V = CommandRunView;

    closed spec fn view(&self) -> CommandRunView {
        CommandRunView { phase: self.phase, output: self.output@ }
    }
}

impl CommandRun {
    /// A reading before anything was read, with its first action: to look
    /// at the clock.
    pub fn begin() -> (r: (CommandRun, CommandAction))
        ensures
            r.0@ == CommandRunView::fresh(),
            r.1@ == CommandActionView::CheckClock,
    {
        (CommandRun { phase: CommandPhase::Timing, output: String::new() }, CommandAction::CheckClock)
    }

    /// What the reading has asked for last.
    pub fn phase(&self) -> (phase: CommandPhase)
        ensures
            phase == self@.phase,
    {
        self.phase
    }

    /// Takes what the last action brought and names the next action.
    pub fn step(&mut self, event: CommandEvent) -> (action: CommandAction)
        ensures
            (final(self)@, action@) == old(self)@.step(event@),
    {
        match self.phase {
            CommandPhase::Timing => match event {
                CommandEvent::Elapsed(ms) => {
                    if ms > COMMAND_TIMEOUT_MS {
                        self.phase = CommandPhase::Closing;
                        CommandAction::WaitClose
                    } else {
                        self.phase = CommandPhase::Reading;
                        CommandAction::Read
                    }
                },
                _ => {
                    self.phase = CommandPhase::Reading;
                    CommandAction::Read
                },
            },
            CommandPhase::Reading => match event {
                CommandEvent::Chunk(text) => {
                    self.output.append(text.as_str());
                    self.phase = CommandPhase::Timing;
                    CommandAction::CheckClock
                },
                CommandEvent::WouldBlock => {
                    self.phase = CommandPhase::Waiting;
                    CommandAction::Sleep(COMMAND_POLL_MS)
                },
                _ => {
                    self.phase = CommandPhase::Closing;
                    CommandAction::WaitClose
                },
            },
            CommandPhase::Waiting => {
                self.phase = CommandPhase::Timing;
                CommandAction::CheckClock
            },
            CommandPhase::Closing => {
                self.phase = CommandPhase::Done;
                CommandAction::Finish(self.output.clone())
            },
            CommandPhase::Done => CommandAction::Stop,
        }
    }
}

/// The free memory for the panel: what is left of the total after what is
/// used; nothing where more is used than there is.
pub fn free_memory(total: u64, used: u64) -> (free: u64)
    ensures
        free == if used <= total {
            total - used
        } else {
            0
        },
{
    if used <= total {
        total - used
    } else {
        0
    }
}

} // verus!
