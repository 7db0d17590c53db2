//! The daemon's command records: a tagged union with one arm per command,
//! dispatched by a single match in the daemon around this library.

use vstd::prelude::*;

verus! {

/// The daemon's listening port.
pub const PORT: u32 = 6666;

/// The arguments of a freeze command.
pub struct FreezeArgs {
    pub pid: i32,
}

/// The arguments of the terminal-takeover special.
pub struct OblivionArgs {
    pub ttys: Vec<i32>,
}

/// The arguments of a pause command.
pub struct PauseArgs {
    pub pid: i32,
}

/// The arguments of a process-listing command.
pub struct ProcessesArgs {
    pub pid: Option<i32>,
}

/// The arguments of a stdio redirect.
pub struct RedirectArgs {
    pub pid: i32,
    pub tty: String,
}

/// The arguments of a resume command.
pub struct ResumeArgs {
    pub pid: i32,
}

/// The arguments of a rewind command.
pub struct RewindArgs {
    pub pid: i32,
}

/// The arguments of the output-rotation special.
pub struct Rot13Args {
    pub pid: i32,
}

/// The arguments of the error-colouring special.
pub struct ColorizeStderrArgs {
    pub pid: i32,
}

/// The arguments of a spawn command.
pub struct SpawnArgs {
    pub tty: String,
    pub cmd: String,
    pub uid: Option<u32>,
}

/// The arguments of a takeover: the target, whether to pause it after its
/// image is replaced, and the replacement binary.
pub struct TakeoverArgs {
    pub pid: i32,
    pub pause: bool,
    pub bin: Option<String>,
}

/// The arguments of a thaw: the snapshot file path.
pub struct ThawArgs {
    pub path: String,
}

/// The arguments of a stdin write.
pub struct WriteStdinArgs {
    pub pid: i32,
    pub message: String,
}

/// One command, as the daemon receives it.
pub enum Args {
    DaemonKill,
    DaemonLogs,
    DaemonRestart,
    DaemonStart,
    DaemonStatus,
    Freeze(FreezeArgs),
    Groups,
    Oblivion(OblivionArgs),
    Pause(PauseArgs),
    Processes(ProcessesArgs),
    Redirect(RedirectArgs),
    Resume(ResumeArgs),
    Rewind(RewindArgs),
    Rot13(Rot13Args),
    ColorizeStderr(ColorizeStderrArgs),
    Sessions,
    Spawn(SpawnArgs),
    Takeover(TakeoverArgs),
    Terminals,
    TerminalSizes,
    Thaw(ThawArgs),
    UnmapChild,
    Which,
    WriteStdin(WriteStdinArgs),
}

/// One record of the daemon's wire protocol: a command, or the order to
/// shut down after this connection.
pub enum DaemonMessage {
    Command(Args),
    Kill,
}

} // verus!
