//! The session: what the server does with what the transport hands it.
//!
//! The transport is not here. A [`Worker`] says what it wants read or
//! written next, takes what came of it as an [`Event`], and says what it
//! wants then.

pub mod lemmas;
pub mod model;

use vstd::prelude::*;
use crate::error::{unexpected_eof, LpdError};
use crate::lpd::{
    model as model_of, ControlFile, ControlFileLine, DataFile, Job, LprCommand,
    ReceiveJobSubcommand,
};
use crate::parse::{Parse, ParseError};
use crate::session::model::{
    initial, may_follow, on_command, on_control_line, on_data, on_failure, on_stream_end,
    on_subcommand, on_terminator, on_written, pending, step, Action, EventModel, LogModel,
    PhaseModel, SessionModel, POSITIVE_ACK,
};

verus! {

/// What a session leaves: each top-level command in the order in which it
/// was read, and the jobs that were completed.
///
/// A job ends with an abort or with the stream, and either way nothing of it
/// is kept: the session itself adds no job to `jobs`.
#[derive(Debug)]
pub struct Log {
    pub c: Vec<LprCommand>,
    pub jobs: Vec<Job>,
}

impl View for Log {
    type V = LogModel;

    open spec fn view(&self) -> LogModel {
        LogModel {
            c: self.c@.map_values(|c: LprCommand| c@),
            jobs: self.jobs@.map_values(|j: Job| j@),
        }
    }
}

impl Default for Log {
    fn default() -> (r: Log)
        ensures
            r@ == initial().log,
    {
        let r = Log { c: Vec::new(), jobs: Vec::new() };
        assert(r@.c =~= initial().log.c);
        assert(r@.jobs =~= initial().log.jobs);
        r
    }
}

/// Where a session stands; see [`PhaseModel`].
#[derive(Debug)]
pub enum Phase {
    AwaitingCommand,
    AckJob,
    AwaitingSubcommand,
    ControlFile(usize),
    DataFile(usize),
    Terminator,
    AckFile,
    Finished,
    Failed(LpdError),
}

impl View for Phase {
    type V = PhaseModel;

    open spec fn view(&self) -> PhaseModel {
        match *self {
            Phase::AwaitingCommand => PhaseModel::AwaitingCommand,
            Phase::AckJob => PhaseModel::AckJob,
            Phase::AwaitingSubcommand => PhaseModel::AwaitingSubcommand,
            Phase::ControlFile(n) => PhaseModel::ControlFile(n),
            Phase::DataFile(n) => PhaseModel::DataFile(n),
            Phase::Terminator => PhaseModel::Terminator,
            Phase::AckFile => PhaseModel::AckFile,
            Phase::Finished => PhaseModel::Finished,
            Phase::Failed(e) => PhaseModel::Failed(e@),
        }
    }
}

/// What the transport hands back; see [`EventModel`].
#[derive(Debug)]
pub enum Event {
    Line(String),
    Bytes(Vec<u8>),
    Byte(u8),
    Written,
    Failed(std::io::Error),
}

impl View for Event {
    type V = EventModel;

    open spec fn view(&self) -> EventModel {
        match *self {
            Event::Line(l) => EventModel::Line(l@),
            Event::Bytes(b) => EventModel::Bytes(b@),
            Event::Byte(b) => EventModel::Byte(b),
            Event::Written => EventModel::Written,
            Event::Failed(_) => EventModel::Failed,
        }
    }
}

/// One session, from the first command to the end of the stream.
#[derive(Debug)]
pub struct Worker {
    log: Log,
    job: Job,
    file: ControlFile,
    phase: Phase,
}

impl View for Worker {
    type V = SessionModel;

    closed spec fn view(&self) -> SessionModel {
        SessionModel { phase: self.phase@, log: self.log@, job: self.job@, lines: self.file@ }
    }
}

impl Worker {
    /// A session of which nothing was read yet.
    pub fn new() -> (r: Worker)
        ensures
            r@ == initial(),
    {
        Worker {
            log: Log::default(),
            job: Job::default(),
            file: ControlFile::default(),
            phase: Phase::AwaitingCommand,
        }
    }

    /// What the session asks of the transport now.
    pub fn action(&self) -> (a: Action)
        ensures
            a == pending(self@.phase),
    {
        match &self.phase {
            Phase::AwaitingCommand => Action::ReadLine,
            Phase::AckJob => Action::WriteByte(POSITIVE_ACK),
            Phase::AwaitingSubcommand => Action::ReadLine,
            Phase::ControlFile(_) => Action::ReadLine,
            Phase::DataFile(n) => Action::ReadExact(*n),
            Phase::Terminator => Action::ReadByte,
            Phase::AckFile => Action::WriteByte(POSITIVE_ACK),
            Phase::Finished => Action::Finish,
            Phase::Failed(_) => Action::Fail,
        }
    }

    /// What was logged so far.
    pub fn log(&self) -> (r: &Log)
        ensures
            r@ == self@.log,
    {
        &self.log
    }

    /// The job that is being received.
    pub fn job(&self) -> (r: &Job)
        ensures
            r@ == self@.job,
    {
        &self.job
    }

    /// The end of the session: the log, or the error where it failed.
    pub fn into_result(self) -> (r: Result<Log, LpdError>)
        ensures
            match r {
                Ok(log) => !(self@.phase is Failed) && log@ == self@.log,
                Err(e) => self@.phase == PhaseModel::Failed(e@) && self.error() == Some(e),
            },
    {
        match self.phase {
            Phase::Failed(e) => Err(e),
            _ => Ok(self.log),
        }
    }

    /// Takes the command that the grammar made of a line; see [`on_command`].
    pub fn read_command(&mut self, parsed: Option<LprCommand>)
        ensures
            final(self)@ == on_command(old(self)@, model_of(parsed)),
    {
        if matches!(self.phase, Phase::AwaitingCommand) {
            match parsed {
                None => {
                    self.phase = Phase::Failed(LpdError::Parse(ParseError::Other));
                },
                Some(c) => {
                    let opens_job = matches!(c, LprCommand::ReceivePrinterJob(_));
                    let ghost before = self.log@.c;
                    self.log.c.push(c);
                    assert(self.log@.c =~= before.push(c@));
                    self.phase = if opens_job {
                        Phase::AckJob
                    } else {
                        Phase::AwaitingCommand
                    };
                },
            }
        }
    }

    /// Takes the subcommand that the grammar made of a line; see
    /// [`on_subcommand`].
    pub fn receive_job(&mut self, parsed: Option<ReceiveJobSubcommand>)
        ensures
            final(self)@ == on_subcommand(old(self)@, model_of(parsed)),
    {
        if matches!(self.phase, Phase::AwaitingSubcommand) {
            match parsed {
                None => {
                    self.phase = Phase::Failed(LpdError::Parse(ParseError::Other));
                },
                Some(ReceiveJobSubcommand::AbortJob) => {
                    self.job = Job::default();
                    self.phase = Phase::AwaitingCommand;
                },
                Some(ReceiveJobSubcommand::ReceiveControlFile(n, _)) => {
                    self.file = ControlFile::default();
                    if n == 0 {
                        self.job.cf = Some(ControlFile::default());
                        self.phase = Phase::Terminator;
                    } else {
                        self.phase = Phase::ControlFile(n);
                    }
                },
                Some(ReceiveJobSubcommand::ReceiveDataFile(n, _)) => {
                    self.phase = Phase::DataFile(n);
                },
            }
        }
    }

    /// Takes the control file line that the grammar made of a line of `len`
    /// bytes; see [`on_control_line`].
    pub fn read_control_file(&mut self, len: usize, parsed: Option<ControlFileLine>)
        ensures
            final(self)@ == on_control_line(old(self)@, len as nat, model_of(parsed)),
    {
        let remaining: usize = match &self.phase {
            Phase::ControlFile(n) => *n,
            _ => {
                return ;
            },
        };
        match parsed {
            None => {
                self.phase = Phase::Failed(LpdError::Parse(ParseError::Other));
            },
            Some(l) => {
                let ghost before = self.file@;
                self.file.lines.push(l);
                assert(self.file@ =~= before.push(l@));
                if len >= remaining {
                    let mut file = ControlFile::default();
                    std::mem::swap(&mut file, &mut self.file);
                    self.job.cf = Some(file);
                    self.phase = Phase::Terminator;
                } else {
                    self.phase = Phase::ControlFile(remaining - len);
                }
            },
        }
    }

    /// Takes the bytes that were read; see [`on_data`].
    pub fn read_data_file(&mut self, bytes: Vec<u8>)
        ensures
            final(self)@ == on_data(old(self)@, bytes@),
    {
        let declared: usize = match &self.phase {
            Phase::DataFile(n) => *n,
            _ => {
                return ;
            },
        };
        if bytes.len() == declared {
            self.job.df = Some(DataFile { data: bytes });
            self.phase = Phase::Terminator;
        }
    }

    /// Takes the byte behind a file; see [`on_terminator`].
    pub fn assert_ack(&mut self, byte: u8)
        ensures
            final(self)@ == on_terminator(old(self)@, byte),
    {
        if matches!(self.phase, Phase::Terminator) {
            if byte == 0 {
                self.phase = Phase::AckFile;
            } else {
                self.phase = Phase::Failed(LpdError::BadAck);
            }
        }
    }

    /// Takes the news that the acknowledgement was written; see [`on_written`].
    pub fn positive_ack(&mut self)
        ensures
            final(self)@ == on_written(old(self)@),
    {
        if matches!(self.phase, Phase::AckJob) {
            self.job = Job::default();
            self.phase = Phase::AwaitingSubcommand;
        } else if matches!(self.phase, Phase::AckFile) {
            self.phase = Phase::AwaitingSubcommand;
        }
    }

    /// Takes the end of the stream where a line was awaited; see
    /// [`on_stream_end`].
    pub fn stream_end(&mut self)
        ensures
            final(self)@ == on_stream_end(old(self)@),
    {
        if matches!(self.phase, Phase::AwaitingCommand) {
            self.phase = Phase::Finished;
        } else if matches!(self.phase, Phase::AwaitingSubcommand) {
            self.job = Job::default();
            self.phase = Phase::AwaitingCommand;
        } else if matches!(self.phase, Phase::ControlFile(_)) {
            self.phase = Phase::Failed(LpdError::Io(unexpected_eof()));
        }
    }

    /// Takes a failure of the transport: unless the session is over it fails,
    /// with this error.
    pub fn fail(&mut self, error: std::io::Error)
        ensures
            final(self)@ == on_failure(old(self)@),
            !model::over(old(self)@.phase) ==> final(self).error() == Some(LpdError::Io(error)),
    {
        if !matches!(self.phase, Phase::Finished) && !matches!(self.phase, Phase::Failed(_)) {
            self.phase = Phase::Failed(LpdError::Io(error));
        }
    }

    /// The error of a session that failed.
    pub closed spec fn error(&self) -> Option<LpdError> {
        match self.phase {
            Phase::Failed(e) => Some(e),
            _ => None,
        }
    }

    /// Takes what the transport hands back and says what to do next. A line
    /// is read by the grammar `P`; what `P` says of its own failure is dropped.
    pub fn step<P: Parse>(&mut self, event: Event) -> (a: Action)
        ensures
            may_follow::<P>(old(self)@, event@, final(self)@),
            a == pending(final(self)@.phase),
    {
        match event {
            Event::Line(line) => {
                let text = line.as_str();
                if text.is_empty() {
                    self.stream_end();
                } else if matches!(self.phase, Phase::AwaitingCommand) {
                    let parsed = match P::parse_lpr_command(text) {
                        Ok(c) => Some(c),
                        Err(_) => None,
                    };
                    self.read_command(parsed);
                } else if matches!(self.phase, Phase::AwaitingSubcommand) {
                    let parsed = match P::parse_receive_job_subcommand(text) {
                        Ok(c) => Some(c),
                        Err(_) => None,
                    };
                    self.receive_job(parsed);
                } else if matches!(self.phase, Phase::ControlFile(_)) {
                    let parsed = match P::parse_control_file_line(text) {
                        Ok(l) => Some(l),
                        Err(_) => None,
                    };
                    self.read_control_file(text.as_bytes().len(), parsed);
                }
            },
            Event::Bytes(bytes) => {
                self.read_data_file(bytes);
            },
            Event::Byte(byte) => {
                self.assert_ack(byte);
            },
            Event::Written => {
                self.positive_ack();
            },
            Event::Failed(error) => {
                self.fail(error);
            },
        }
        self.action()
    }
}

} // verus!
