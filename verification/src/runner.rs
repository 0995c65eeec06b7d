//! The rules of running a project: when the sandbox may fall back to the
//! host's root filesystem, and the stages of an execution (compile, patch
//! the binary, run) with the output messages each stage sends.
//!
//! The caller runs the commands in the sandbox and reports what happened as
//! events; `Executor::step` says which messages to broadcast and which
//! command to start next.

use vstd::prelude::*;

use crate::messages::{OutputChannel, ServerMessage};

verus! {

/// Exit code reported when a stage could not be run at all, or when the
/// patched binary could not be prepared.
pub const COMPILE_FAILURE_EXIT_CODE: u8 = 126;

/// Exit code of a program stopped on request.
pub const ABORTED_EXIT_CODE: i32 = 137;

/// Why a runner cannot be prepared.
#[derive(Debug, Clone, PartialEq, Eq)]
pub enum RunnerError {
    /// An I/O operation failed; the text describes it.
    Io(String),
    /// The vendored root filesystem is missing at this path.
    MissingRootfs(String),
    /// The sandbox refused its configuration; the text describes it.
    Container(String),
}

/// The host's root filesystem may stand in for the vendored one only in a
/// local debug build: a production deployment, or any release build,
/// without the vendored root filesystem is refused.
pub fn validate_environment(
    rootfs_present: bool,
    production: bool,
    debug_build: bool,
    rootfs_path: String,
) -> (r: Result<(), RunnerError>)
    ensures
        r == (if !rootfs_present && (production || !debug_build) {
            Err::<(), RunnerError>(RunnerError::MissingRootfs(rootfs_path))
        } else {
            Ok::<(), RunnerError>(())
        }),
{
    let host_fallback = !rootfs_present;
    if host_fallback && (production || !debug_build) {
        return Err(RunnerError::MissingRootfs(rootfs_path));
    }
    Ok(())
}

pub open spec fn exit_code_byte_spec(code: i32) -> u8 {
    if code < 0 {
        0
    } else if code > 255 {
        255
    } else {
        code as u8
    }
}

/// An exit status as the one byte sent to clients: clamped to `0..=255`.
pub fn exit_code_byte(code: i32) -> (r: u8)
    ensures
        r == exit_code_byte_spec(code),
{
    if code < 0 {
        0
    } else if code > 255 {
        255
    } else {
        code as u8
    }
}

/// The stage an execution is in.
#[derive(Debug, Clone, Copy, PartialEq, Eq, Structural)]
pub enum Phase {
    Idle,
    Compiling,
    Patching,
    Running,
}

/// What happened, as reported by the caller.
pub enum ExecEvent {
    /// An execution was requested.
    Start,
    /// The current command wrote `bytes` to `channel`.
    Output { channel: OutputChannel, bytes: Vec<u8> },
    /// The current command could not be run; `error` says why.
    Failed { error: String },
    /// The current command ended with exit status `code`; for the patch
    /// stage, with what it wrote.
    Exited { code: i32, stdout: Vec<u8>, stderr: Vec<u8> },
}

/// The command the caller starts next.
#[derive(Debug, Clone, Copy, PartialEq, Eq, Structural)]
pub enum Command {
    Nothing,
    /// Compile the main file.
    Compile,
    /// Set the interpreter of the compiled binary.
    Patch,
    /// Run the compiled binary.
    Run,
}

/// The execution state of one project.
pub struct Executor {
    pub phase: Phase,
}

/// The output message of a chunk written to `channel`.
pub open spec fn is_output(m: ServerMessage, channel: OutputChannel, bytes: Seq<u8>) -> bool {
    m matches ServerMessage::SyncOutput { channel: c, buf } && c == channel && buf@ == bytes
}

/// The message that ends an execution with exit code `code`.
pub open spec fn is_end(m: ServerMessage, code: u8) -> bool {
    m matches ServerMessage::SyncOutputEnd { exit_code } && exit_code == code
}

/// What one step does: the next phase, the messages to broadcast in order,
/// and the command to start.
pub open spec fn step_spec(phase: Phase, ev: ExecEvent, next: Phase, msgs: Seq<ServerMessage>, cmd: Command) -> bool {
    match ev {
        ExecEvent::Start => if phase is Idle {
            next == Phase::Compiling && msgs.len() == 1 && msgs[0] is SyncOutputStart && cmd
                == Command::Compile
        } else {
            next == phase && msgs.len() == 0 && cmd == Command::Nothing
        },
        ExecEvent::Output { channel, bytes } => {
            &&& next == phase
            &&& cmd == Command::Nothing
            &&& if phase is Compiling || phase is Running {
                msgs.len() == 1 && is_output(msgs[0], channel, bytes@)
            } else {
                msgs.len() == 0
            }
        },
        ExecEvent::Failed { error } => if phase is Idle {
            next == Phase::Idle && msgs.len() == 0 && cmd == Command::Nothing
        } else {
            &&& next == Phase::Idle
            &&& cmd == Command::Nothing
            &&& msgs.len() == 2
            &&& is_output(msgs[0], OutputChannel::Stderr, encode_utf8_of(error@))
            &&& is_end(msgs[1], COMPILE_FAILURE_EXIT_CODE)
        },
        ExecEvent::Exited { code, stdout, stderr } => match phase {
            Phase::Idle => next == Phase::Idle && msgs.len() == 0 && cmd == Command::Nothing,
            Phase::Compiling => if code == 0 {
                next == Phase::Patching && msgs.len() == 0 && cmd == Command::Patch
            } else {
                next == Phase::Idle && msgs.len() == 1 && is_end(msgs[0], exit_code_byte_spec(code))
                    && cmd == Command::Nothing
            },
            Phase::Patching => if code == 0 {
                next == Phase::Running && msgs.len() == 0 && cmd == Command::Run
            } else {
                &&& next == Phase::Idle
                &&& cmd == Command::Nothing
                &&& msgs.len() == 3
                &&& is_output(msgs[0], OutputChannel::Stdout, stdout@)
                &&& is_output(msgs[1], OutputChannel::Stderr, stderr@)
                &&& is_end(msgs[2], COMPILE_FAILURE_EXIT_CODE)
            },
            Phase::Running => next == Phase::Idle && msgs.len() == 1 && is_end(
                msgs[0],
                exit_code_byte_spec(code),
            ) && cmd == Command::Nothing,
        },
    }
}

/// The UTF-8 bytes of a text.
pub open spec fn encode_utf8_of(s: Seq<char>) -> Seq<u8> {
    vstd::utf8::encode_utf8(s)
}

/// The UTF-8 bytes of `s`.
fn utf8_bytes(s: &String) -> (r: Vec<u8>)
    ensures
        r@ == encode_utf8_of(s@),
{
    let bytes = s.as_str().as_bytes();
    let mut out: Vec<u8> = Vec::new();
    let mut i: usize = 0;
    while i < bytes.len()
        invariant
            i <= bytes@.len(),
            bytes@ == encode_utf8_of(s@),
            out@ == bytes@.take(i as int),
        decreases bytes@.len() - i,
    {
        out.push(bytes[i]);
        i = i + 1;
        assert(out@ =~= bytes@.take(i as int));
    }
    assert(bytes@.take(bytes@.len() as int) =~= bytes@);
    out
}

impl Executor {
    pub fn new() -> (r: Executor)
        ensures
            r.phase == Phase::Idle,
    {
        Executor { phase: Phase::Idle }
    }

    /// Whether an execution is under way.
    pub fn is_running(&self) -> (r: bool)
        ensures
            r == !(self.phase is Idle),
    {
        match self.phase {
            Phase::Idle => false,
            _ => true,
        }
    }

    /// Advances the execution by one event.
    pub fn step(&mut self, ev: ExecEvent) -> (r: (Vec<ServerMessage>, Command))
        ensures
            step_spec(old(self).phase, ev, final(self).phase, r.0@, r.1),
    {
        let mut msgs: Vec<ServerMessage> = Vec::new();
        match ev {
            ExecEvent::Start => {
                if self.is_running() {
                    return (msgs, Command::Nothing);
                }
                self.phase = Phase::Compiling;
                msgs.push(ServerMessage::SyncOutputStart);
                (msgs, Command::Compile)
            },
            ExecEvent::Output { channel, bytes } => {
                match self.phase {
                    Phase::Compiling | Phase::Running => {
                        msgs.push(ServerMessage::SyncOutput { channel, buf: bytes });
                    },
                    _ => {},
                }
                (msgs, Command::Nothing)
            },
            ExecEvent::Failed { error } => {
                if !self.is_running() {
                    return (msgs, Command::Nothing);
                }
                self.phase = Phase::Idle;
                msgs.push(
                    ServerMessage::SyncOutput { channel: OutputChannel::Stderr, buf: utf8_bytes(&error) },
                );
                msgs.push(ServerMessage::SyncOutputEnd { exit_code: COMPILE_FAILURE_EXIT_CODE });
                (msgs, Command::Nothing)
            },
            ExecEvent::Exited { code, stdout, stderr } => match self.phase {
                Phase::Idle => (msgs, Command::Nothing),
                Phase::Compiling => {
                    if code == 0 {
                        self.phase = Phase::Patching;
                        (msgs, Command::Patch)
                    } else {
                        self.phase = Phase::Idle;
                        msgs.push(ServerMessage::SyncOutputEnd { exit_code: exit_code_byte(code) });
                        (msgs, Command::Nothing)
                    }
                },
                Phase::Patching => {
                    if code == 0 {
                        self.phase = Phase::Running;
                        (msgs, Command::Run)
                    } else {
                        self.phase = Phase::Idle;
                        msgs.push(
                            ServerMessage::SyncOutput { channel: OutputChannel::Stdout, buf: stdout },
                        );
                        msgs.push(
                            ServerMessage::SyncOutput { channel: OutputChannel::Stderr, buf: stderr },
                        );
                        msgs.push(
                            ServerMessage::SyncOutputEnd { exit_code: COMPILE_FAILURE_EXIT_CODE },
                        );
                        (msgs, Command::Nothing)
                    }
                },
                Phase::Running => {
                    self.phase = Phase::Idle;
                    msgs.push(ServerMessage::SyncOutputEnd { exit_code: exit_code_byte(code) });
                    (msgs, Command::Nothing)
                },
            },
        }
    }
}

/// An execution under way goes back to idle exactly when it sends its end
/// message; that message comes last and is the only one of its kind.
pub proof fn execution_ends_with_its_end_message(
    phase: Phase,
    ev: ExecEvent,
    next: Phase,
    msgs: Seq<ServerMessage>,
    cmd: Command,
)
    requires
        step_spec(phase, ev, next, msgs, cmd),
        !(phase is Idle),
    ensures
        (next is Idle) <==> (msgs.len() > 0 && msgs.last() is SyncOutputEnd),
        forall|i: int| 0 <= i < msgs.len() - 1 ==> !(#[trigger] msgs[i] is SyncOutputEnd),
{
}

/// An idle project only starts an execution on request, announcing it
/// first; any other event leaves it idle and silent.
pub proof fn idle_executor_only_starts(
    ev: ExecEvent,
    next: Phase,
    msgs: Seq<ServerMessage>,
    cmd: Command,
)
    requires
        step_spec(Phase::Idle, ev, next, msgs, cmd),
    ensures
        ev is Start ==> next == Phase::Compiling && msgs.len() == 1 && msgs[0] is SyncOutputStart
            && cmd == Command::Compile,
        !(ev is Start) ==> next == Phase::Idle && msgs.len() == 0 && cmd == Command::Nothing,
{
}

/// A request to execute while an execution is under way changes nothing.
pub proof fn start_while_running_is_ignored(
    phase: Phase,
    next: Phase,
    msgs: Seq<ServerMessage>,
    cmd: Command,
)
    requires
        step_spec(phase, ExecEvent::Start, next, msgs, cmd),
        !(phase is Idle),
    ensures
        next == phase,
        msgs.len() == 0,
        cmd == Command::Nothing,
{
}

} // verus!
