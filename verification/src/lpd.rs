//! The protocol's values: commands, control file lines, files and jobs' parts.
//!
//! Each executable type comes with a model, the same value over `Seq`, that
//! the contracts of the grammar and of the session speak of.

use vstd::prelude::*;

verus! {

/// Names of a filter list, each by its characters.
pub open spec fn names(v: Seq<String>) -> Seq<Seq<char>> {
    v.map_values(|s: String| s@)
}

/// The model of a value that may be absent.
pub open spec fn model<T: View>(o: Option<T>) -> Option<T::V> {
    match o {
        Some(v) => Some(v@),
        None => None,
    }
}

/// A printer queue, by its raw token: no whitespace and no newline in it.
#[derive(Debug, PartialEq, Eq)]
pub struct QueueName(pub String);

impl View for QueueName {
    type V = Seq<char>;

    open spec fn view(&self) -> Seq<char> {
        self.0@
    }
}

/// A top-level command.
#[derive(Debug, PartialEq, Eq)]
pub enum LprCommand {
    PrintWaiting(QueueName),
    ReceivePrinterJob(QueueName),
    SendQueueStateShort(QueueName, Vec<String>),
    SendQueueStateLong(QueueName, Vec<String>),
    RemoveJobs(QueueName, String, Vec<String>),
}

/// Model of [`LprCommand`].
pub enum LprCommandModel {
    PrintWaiting(Seq<char>),
    ReceivePrinterJob(Seq<char>),
    SendQueueStateShort(Seq<char>, Seq<Seq<char>>),
    SendQueueStateLong(Seq<char>, Seq<Seq<char>>),
    RemoveJobs(Seq<char>, Seq<char>, Seq<Seq<char>>),
}

impl View for LprCommand {
    type V = LprCommandModel;

    open spec fn view(&self) -> LprCommandModel {
        match *self {
            LprCommand::PrintWaiting(q) => LprCommandModel::PrintWaiting(q@),
            LprCommand::ReceivePrinterJob(q) => LprCommandModel::ReceivePrinterJob(q@),
            LprCommand::SendQueueStateShort(q, l) => LprCommandModel::SendQueueStateShort(
                q@,
                names(l@),
            ),
            LprCommand::SendQueueStateLong(q, l) => LprCommandModel::SendQueueStateLong(
                q@,
                names(l@),
            ),
            LprCommand::RemoveJobs(q, a, l) => LprCommandModel::RemoveJobs(q@, a@, names(l@)),
        }
    }
}

/// A command of the job subprotocol.
#[derive(Debug, PartialEq, Eq)]
pub enum ReceiveJobSubcommand {
    AbortJob,
    ReceiveControlFile(usize, String),
    ReceiveDataFile(usize, String),
}

/// Model of [`ReceiveJobSubcommand`].
pub enum ReceiveJobSubcommandModel {
    AbortJob,
    ReceiveControlFile(usize, Seq<char>),
    ReceiveDataFile(usize, Seq<char>),
}

impl View for ReceiveJobSubcommand {
    type V = ReceiveJobSubcommandModel;

    open spec fn view(&self) -> ReceiveJobSubcommandModel {
        match *self {
            ReceiveJobSubcommand::AbortJob => ReceiveJobSubcommandModel::AbortJob,
            ReceiveJobSubcommand::ReceiveControlFile(n, f) => {
                ReceiveJobSubcommandModel::ReceiveControlFile(n, f@)
            },
            ReceiveJobSubcommand::ReceiveDataFile(n, f) => {
                ReceiveJobSubcommandModel::ReceiveDataFile(n, f@)
            },
        }
    }
}

#[derive(Debug, Clone, Copy, PartialEq, Eq, Structural)]
pub enum TroffFontKind {
    R,
    I,
    B,
    S,
}

#[derive(Debug, Clone, Copy, PartialEq, Eq, Structural)]
pub enum PrintKind {
    BannerPage,
    FormattedFile,
    FileLeavingControlCharacters,
    DitroffOutputFile,
    PostscriptOutputFile,
    FileWithPrFormat,
    FileWithFortranCarriageControl,
    TroffOutputFile,
    RasterFile,
}

#[derive(Debug, Clone, Copy, PartialEq, Eq, Structural)]
pub enum PlotKind {
    CifFile,
    DviFile,
    File,
}

/// One line of a control file.
#[derive(Debug, PartialEq, Eq)]
pub enum ControlFileLine {
    ClassForBannerPage(String),
    HostName(String),
    IndentPrinting(usize),
    JobNameForBannerPage(String),
    MailWhenPrinted(String),
    NameOfSourceFile(String),
    UserIdentification(String),
    SymbolicLinkData(usize, usize),
    TitleForPr(String),
    UnlinkDataFile(String),
    WidthOfOutput(usize),
    TroffFont(TroffFontKind, String),
    PrintFile(PrintKind, String),
    PlotFile(PlotKind, String),
    ReservedK,
    ReservedZ,
}

/// Model of [`ControlFileLine`].
pub enum ControlFileLineModel {
    ClassForBannerPage(Seq<char>),
    HostName(Seq<char>),
    IndentPrinting(usize),
    JobNameForBannerPage(Seq<char>),
    MailWhenPrinted(Seq<char>),
    NameOfSourceFile(Seq<char>),
    UserIdentification(Seq<char>),
    SymbolicLinkData(usize, usize),
    TitleForPr(Seq<char>),
    UnlinkDataFile(Seq<char>),
    WidthOfOutput(usize),
    TroffFont(TroffFontKind, Seq<char>),
    PrintFile(PrintKind, Seq<char>),
    PlotFile(PlotKind, Seq<char>),
    ReservedK,
    ReservedZ,
}

impl View for ControlFileLine {
    type V = ControlFileLineModel;

    open spec fn view(&self) -> ControlFileLineModel {
        match *self {
            ControlFileLine::ClassForBannerPage(s) => ControlFileLineModel::ClassForBannerPage(s@),
            ControlFileLine::HostName(s) => ControlFileLineModel::HostName(s@),
            ControlFileLine::IndentPrinting(n) => ControlFileLineModel::IndentPrinting(n),
            ControlFileLine::JobNameForBannerPage(s) => {
                ControlFileLineModel::JobNameForBannerPage(s@)
            },
            ControlFileLine::MailWhenPrinted(s) => ControlFileLineModel::MailWhenPrinted(s@),
            ControlFileLine::NameOfSourceFile(s) => ControlFileLineModel::NameOfSourceFile(s@),
            ControlFileLine::UserIdentification(s) => ControlFileLineModel::UserIdentification(s@),
            ControlFileLine::SymbolicLinkData(l, r) => ControlFileLineModel::SymbolicLinkData(l, r),
            ControlFileLine::TitleForPr(s) => ControlFileLineModel::TitleForPr(s@),
            ControlFileLine::UnlinkDataFile(s) => ControlFileLineModel::UnlinkDataFile(s@),
            ControlFileLine::WidthOfOutput(n) => ControlFileLineModel::WidthOfOutput(n),
            ControlFileLine::TroffFont(k, s) => ControlFileLineModel::TroffFont(k, s@),
            ControlFileLine::PrintFile(k, s) => ControlFileLineModel::PrintFile(k, s@),
            ControlFileLine::PlotFile(k, s) => ControlFileLineModel::PlotFile(k, s@),
            ControlFileLine::ReservedK => ControlFileLineModel::ReservedK,
            ControlFileLine::ReservedZ => ControlFileLineModel::ReservedZ,
        }
    }
}

/// The lines of a control file, in the order in which they were received.
#[derive(Debug, PartialEq, Eq)]
pub struct ControlFile {
    pub lines: Vec<ControlFileLine>,
}

impl View for ControlFile {
    type V = Seq<ControlFileLineModel>;

    open spec fn view(&self) -> Seq<ControlFileLineModel> {
        self.lines@.map_values(|l: ControlFileLine| l@)
    }
}

impl Default for ControlFile {
    fn default() -> (r: ControlFile)
        ensures
            r@ == Seq::<ControlFileLineModel>::empty(),
    {
        let r = ControlFile { lines: Vec::new() };
        assert(r@ =~= Seq::<ControlFileLineModel>::empty());
        r
    }
}

/// The bytes of a data file; nothing here reads them.
#[derive(Debug, PartialEq, Eq)]
pub struct DataFile {
    pub data: Vec<u8>,
}

impl View for DataFile {
    type V = Seq<u8>;

    open spec fn view(&self) -> Seq<u8> {
        self.data@
    }
}

impl Default for DataFile {
    fn default() -> (r: DataFile)
        ensures
            r@ == Seq::<u8>::empty(),
    {
        DataFile { data: Vec::new() }
    }
}

/// What has been received of one job. Each file may be absent; a file that
/// is received again takes the place of the earlier one.
#[derive(Debug, PartialEq, Eq)]
pub struct Job {
    pub df: Option<DataFile>,
    pub cf: Option<ControlFile>,
}

/// Model of [`Job`].
pub struct JobModel {
    pub df: Option<Seq<u8>>,
    pub cf: Option<Seq<ControlFileLineModel>>,
}

impl JobModel {
    /// The job of which nothing has been received.
    pub open spec fn empty() -> JobModel {
        JobModel { df: None, cf: None }
    }
}

impl View for Job {
    type V = JobModel;

    open spec fn view(&self) -> JobModel {
        JobModel { df: model(self.df), cf: model(self.cf) }
    }
}

impl Default for Job {
    fn default() -> (r: Job)
        ensures
            r@ == JobModel::empty(),
    {
        Job { df: None, cf: None }
    }
}

} // verus!
