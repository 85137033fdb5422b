//! The session as a state machine over models: what each event does to it.

use vstd::prelude::*;
use vstd::utf8::encode_utf8;
use crate::error::Failure;
use crate::lpd::{
    ControlFileLineModel, JobModel, LprCommandModel, ReceiveJobSubcommandModel,
};
use crate::parse::Parse;

verus! {

/// The byte that acknowledges.
pub const POSITIVE_ACK: u8 = 0;

/// What the session asks of the transport next.
#[derive(Debug, Clone, Copy, PartialEq, Eq, Structural)]
pub enum Action {
    /// Read up to and including the next newline, or to the end of the stream.
    ReadLine,
    /// Read exactly this many bytes.
    ReadExact(usize),
    /// Read the one byte that follows a file.
    ReadByte,
    /// Write this one byte.
    WriteByte(u8),
    /// Nothing: the stream has ended between two commands.
    Finish,
    /// Nothing: the session has failed.
    Fail,
}

/// Model of the log of a session.
pub struct LogModel {
    pub c: Seq<LprCommandModel>,
    pub jobs: Seq<JobModel>,
}

/// Where a session stands.
pub enum PhaseModel {
    /// A top-level command is awaited.
    AwaitingCommand,
    /// The acknowledgement that opens a job is being written.
    AckJob,
    /// A subcommand of the job is awaited.
    AwaitingSubcommand,
    /// A control file is being received; so many of its bytes, at least one,
    /// are still to come.
    ControlFile(usize),
    /// A data file of so many bytes is awaited.
    DataFile(usize),
    /// The byte behind a file is awaited.
    Terminator,
    /// The acknowledgement of a file is being written.
    AckFile,
    /// The stream ended between two commands.
    Finished,
    /// The session failed.
    Failed(Failure),
}

/// What the transport hands back.
pub enum EventModel {
    /// The line that was read, with its newline; empty when the stream has ended.
    Line(Seq<char>),
    /// The bytes that were read.
    Bytes(Seq<u8>),
    /// The one byte that was read.
    Byte(u8),
    /// The byte was written.
    Written,
    /// The read or the write failed.
    Failed,
}

/// Model of a session.
pub struct SessionModel {
    pub phase: PhaseModel,
    pub log: LogModel,
    /// The job that is being received.
    pub job: JobModel,
    /// The lines received so far of the control file that is being received.
    pub lines: Seq<ControlFileLineModel>,
}

/// The session before anything was read.
pub open spec fn initial() -> SessionModel {
    SessionModel {
        phase: PhaseModel::AwaitingCommand,
        log: LogModel { c: Seq::empty(), jobs: Seq::empty() },
        job: JobModel::empty(),
        lines: Seq::empty(),
    }
}

/// What a session in phase `p` asks of the transport.
pub open spec fn pending(p: PhaseModel) -> Action {
    match p {
        PhaseModel::AwaitingCommand => Action::ReadLine,
        PhaseModel::AckJob => Action::WriteByte(POSITIVE_ACK),
        PhaseModel::AwaitingSubcommand => Action::ReadLine,
        PhaseModel::ControlFile(_) => Action::ReadLine,
        PhaseModel::DataFile(n) => Action::ReadExact(n),
        PhaseModel::Terminator => Action::ReadByte,
        PhaseModel::AckFile => Action::WriteByte(POSITIVE_ACK),
        PhaseModel::Finished => Action::Finish,
        PhaseModel::Failed(_) => Action::Fail,
    }
}

/// Whether the session is over.
pub open spec fn over(p: PhaseModel) -> bool {
    p is Finished || p is Failed
}

pub open spec fn failed(s: SessionModel, f: Failure) -> SessionModel {
    SessionModel { phase: PhaseModel::Failed(f), ..s }
}

/// A line was read while a command was awaited, and the grammar made
/// `parsed` of it. The command is recorded; one that opens a job is then
/// acknowledged.
pub open spec fn on_command(s: SessionModel, parsed: Option<LprCommandModel>) -> SessionModel {
    if s.phase is AwaitingCommand {
        match parsed {
            None => failed(s, Failure::Grammar),
            Some(c) => SessionModel {
                phase: if c is ReceivePrinterJob {
                    PhaseModel::AckJob
                } else {
                    PhaseModel::AwaitingCommand
                },
                log: LogModel { c: s.log.c.push(c), ..s.log },
                ..s
            },
        }
    } else {
        s
    }
}

/// A line was read while a subcommand was awaited, and the grammar made
/// `parsed` of it. Abort ends the job and drops what was received of it.
pub open spec fn on_subcommand(
    s: SessionModel,
    parsed: Option<ReceiveJobSubcommandModel>,
) -> SessionModel {
    if s.phase is AwaitingSubcommand {
        match parsed {
            None => failed(s, Failure::Grammar),
            Some(ReceiveJobSubcommandModel::AbortJob) => SessionModel {
                phase: PhaseModel::AwaitingCommand,
                job: JobModel::empty(),
                ..s
            },
            Some(ReceiveJobSubcommandModel::ReceiveControlFile(n, _)) => {
                if n == 0 {
                    SessionModel {
                        phase: PhaseModel::Terminator,
                        job: JobModel { cf: Some(Seq::empty()), ..s.job },
                        lines: Seq::empty(),
                        ..s
                    }
                } else {
                    SessionModel { phase: PhaseModel::ControlFile(n), lines: Seq::empty(), ..s }
                }
            },
            Some(ReceiveJobSubcommandModel::ReceiveDataFile(n, _)) => SessionModel {
                phase: PhaseModel::DataFile(n),
                ..s
            },
        }
    } else {
        s
    }
}

/// A line of `len` bytes was read inside a control file, and the grammar made
/// `parsed` of it. The file is complete once its lines hold as many bytes as
/// were declared, or more; it then takes the place of the job's control file.
pub open spec fn on_control_line(
    s: SessionModel,
    len: nat,
    parsed: Option<ControlFileLineModel>,
) -> SessionModel {
    match s.phase {
        PhaseModel::ControlFile(remaining) => match parsed {
            None => failed(s, Failure::Grammar),
            Some(l) => {
                if len >= remaining {
                    SessionModel {
                        phase: PhaseModel::Terminator,
                        job: JobModel { cf: Some(s.lines.push(l)), ..s.job },
                        lines: Seq::empty(),
                        ..s
                    }
                } else {
                    SessionModel {
                        phase: PhaseModel::ControlFile((remaining - len) as usize),
                        lines: s.lines.push(l),
                        ..s
                    }
                }
            },
        },
        _ => s,
    }
}

/// The stream ended where a line was awaited. Between two commands that ends
/// the session. Inside a job it ends the job, of which nothing is kept, as an
/// abort does. Inside a control file it is a failure of the transport.
pub open spec fn on_stream_end(s: SessionModel) -> SessionModel {
    match s.phase {
        PhaseModel::AwaitingCommand => SessionModel { phase: PhaseModel::Finished, ..s },
        PhaseModel::AwaitingSubcommand => SessionModel {
            phase: PhaseModel::AwaitingCommand,
            job: JobModel::empty(),
            ..s
        },
        PhaseModel::ControlFile(_) => failed(s, Failure::Transport),
        _ => s,
    }
}

/// Bytes were read. Where a data file of that many bytes is awaited they
/// take the place of the job's data file.
pub open spec fn on_data(s: SessionModel, bytes: Seq<u8>) -> SessionModel {
    match s.phase {
        PhaseModel::DataFile(n) if bytes.len() == n => SessionModel {
            phase: PhaseModel::Terminator,
            job: JobModel { df: Some(bytes), ..s.job },
            ..s
        },
        _ => s,
    }
}

/// The byte behind a file was read: 0 is acknowledged, any other fails the
/// session.
pub open spec fn on_terminator(s: SessionModel, byte: u8) -> SessionModel {
    if s.phase is Terminator {
        if byte == 0 {
            SessionModel { phase: PhaseModel::AckFile, ..s }
        } else {
            failed(s, Failure::Acknowledgement)
        }
    } else {
        s
    }
}

/// An acknowledgement was written.
pub open spec fn on_written(s: SessionModel) -> SessionModel {
    match s.phase {
        PhaseModel::AckJob => SessionModel {
            phase: PhaseModel::AwaitingSubcommand,
            job: JobModel::empty(),
            ..s
        },
        PhaseModel::AckFile => SessionModel { phase: PhaseModel::AwaitingSubcommand, ..s },
        _ => s,
    }
}

/// The transport failed.
pub open spec fn on_failure(s: SessionModel) -> SessionModel {
    if over(s.phase) {
        s
    } else {
        failed(s, Failure::Transport)
    }
}

/// A line that is not empty was read.
pub open spec fn on_line<P: Parse>(s: SessionModel, line: Seq<char>) -> SessionModel {
    match s.phase {
        PhaseModel::AwaitingCommand => on_command(s, P::lpr_command(line)),
        PhaseModel::AwaitingSubcommand => on_subcommand(s, P::receive_job_subcommand(line)),
        PhaseModel::ControlFile(_) => on_control_line(
            s,
            encode_utf8(line).len(),
            P::control_file_line(line),
        ),
        _ => s,
    }
}

/// The session after the event `e`, under the grammar `P`. An event that
/// does not answer what the session asked for leaves it as it is.
pub open spec fn step<P: Parse>(s: SessionModel, e: EventModel) -> SessionModel {
    match e {
        EventModel::Line(line) => if line.len() == 0 {
            on_stream_end(s)
        } else {
            on_line::<P>(s, line)
        },
        EventModel::Bytes(bytes) => on_data(s, bytes),
        EventModel::Byte(byte) => on_terminator(s, byte),
        EventModel::Written => on_written(s),
        EventModel::Failed => on_failure(s),
    }
}

/// Whether `t` may come of `s` by the event `e` where `P` reads the lines:
/// as [`step`] has it, with what `P` follows of its grammar, and with
/// anything at all that it could make of a line otherwise.
pub open spec fn may_follow<P: Parse>(s: SessionModel, e: EventModel, t: SessionModel) -> bool {
    match e {
        EventModel::Line(line) if line.len() > 0 && !P::follows_grammar() => match s.phase {
            PhaseModel::AwaitingCommand => exists|c: Option<LprCommandModel>|
                t == on_command(s, c),
            PhaseModel::AwaitingSubcommand => exists|c: Option<ReceiveJobSubcommandModel>|
                t == on_subcommand(s, c),
            PhaseModel::ControlFile(_) => exists|c: Option<ControlFileLineModel>|
                t == on_control_line(s, encode_utf8(line).len(), c),
            _ => t == s,
        },
        _ => t == step::<P>(s, e),
    }
}

/// The session after the events `es`, one after the other.
pub open spec fn run<P: Parse>(s: SessionModel, es: Seq<EventModel>) -> SessionModel
    decreases es.len(),
{
    if es.len() == 0 {
        s
    } else {
        step::<P>(run::<P>(s, es.drop_last()), es.last())
    }
}

} // verus!
