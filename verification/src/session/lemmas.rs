//! What holds of every session: failures end it, a job leaves the log
//! alone, a file that is received again takes the earlier one's place.

use vstd::prelude::*;
use vstd::utf8::encode_utf8;
use crate::error::Failure;
use crate::lpd::{ControlFileLineModel, JobModel, ReceiveJobSubcommandModel};
use crate::parse::Parse;
use crate::session::model::{
    over, pending, run, step, Action, EventModel, LogModel, PhaseModel, SessionModel,
};

verus! {

/// A session that is over stays as it is.
pub proof fn lemma_over_stays<P: Parse>(s: SessionModel, es: Seq<EventModel>)
    requires
        over(s.phase),
    ensures
        run::<P>(s, es) == s,
    decreases es.len(),
{
    if es.len() > 0 {
        lemma_over_stays::<P>(s, es.drop_last());
    }
}

/// The events `a` and then the events `b`.
pub proof fn lemma_run_concat<P: Parse>(s: SessionModel, a: Seq<EventModel>, b: Seq<EventModel>)
    ensures
        run::<P>(s, a + b) == run::<P>(run::<P>(s, a), b),
    decreases b.len(),
{
    if b.len() == 0 {
        assert(a + b =~= a);
    } else {
        assert((a + b).drop_last() =~= a + b.drop_last());
        lemma_run_concat::<P>(s, a, b.drop_last());
    }
}

/// One event.
pub proof fn lemma_run_one<P: Parse>(s: SessionModel, e: EventModel)
    ensures
        run::<P>(s, seq![e]) == step::<P>(s, e),
{
    assert(seq![e].drop_last() =~= Seq::<EventModel>::empty());
    assert(run::<P>(s, Seq::<EventModel>::empty()) == s);
}

/// A byte other than 0 behind a file fails the session for good: the
/// session asks for nothing more, so no acknowledgement is written, whatever
/// comes after.
pub proof fn lemma_bad_terminator_fails<P: Parse>(s: SessionModel, byte: u8, es: Seq<EventModel>)
    requires
        s.phase is Terminator,
        byte != 0,
    ensures
        step::<P>(s, EventModel::Byte(byte)) == (SessionModel {
            phase: PhaseModel::Failed(Failure::Acknowledgement),
            ..s
        }),
        run::<P>(step::<P>(s, EventModel::Byte(byte)), es) == step::<P>(s, EventModel::Byte(byte)),
        pending(run::<P>(step::<P>(s, EventModel::Byte(byte)), es).phase) == Action::Fail,
{
    lemma_over_stays::<P>(step::<P>(s, EventModel::Byte(byte)), es);
}

/// Whether a job is open in phase `p`.
pub open spec fn in_job(p: PhaseModel) -> bool {
    !(p is AwaitingCommand) && !over(p)
}

/// Whether the session stays inside its job through all of `es`.
pub open spec fn stays_in_job<P: Parse>(s: SessionModel, es: Seq<EventModel>) -> bool {
    forall|k: int| 0 <= k <= es.len() ==> in_job(#[trigger] run::<P>(s, es.take(k)).phase)
}

/// Inside a job nothing is logged.
pub proof fn lemma_job_leaves_log<P: Parse>(s: SessionModel, es: Seq<EventModel>)
    requires
        stays_in_job::<P>(s, es),
    ensures
        run::<P>(s, es).log == s.log,
    decreases es.len(),
{
    if es.len() > 0 {
        let front = es.drop_last();
        assert forall|k: int| 0 <= k <= front.len() implies in_job(
            #[trigger] run::<P>(s, front.take(k)).phase,
        ) by {
            assert(front.take(k) =~= es.take(k));
        }
        lemma_job_leaves_log::<P>(s, front);
        assert(front =~= es.take(es.len() - 1));
        assert(in_job(run::<P>(s, es.take(es.len() - 1)).phase));
    }
}

/// The number of bytes in the lines `l`.
pub open spec fn bytes_of(l: Seq<Seq<char>>) -> nat
    decreases l.len(),
{
    if l.len() == 0 {
        0
    } else {
        bytes_of(l.drop_last()) + encode_utf8(l.last()).len()
    }
}

/// Whether each of `l` is a control file line of `P`.
pub open spec fn are_control_lines<P: Parse>(l: Seq<Seq<char>>) -> bool {
    forall|i: int|
        0 <= i < l.len() ==> (#[trigger] l[i]).len() > 0 && P::control_file_line(l[i]) is Some
}

/// What `P` reads in the lines `l`.
pub open spec fn content<P: Parse>(l: Seq<Seq<char>>) -> Seq<ControlFileLineModel> {
    l.map_values(|line: Seq<char>| P::control_file_line(line).unwrap())
}

/// The lines `l` as they come from the transport.
pub open spec fn line_events(l: Seq<Seq<char>>) -> Seq<EventModel> {
    l.map_values(|line: Seq<char>| EventModel::Line(line))
}

/// Whether the subcommand line `sub` declares a control file that the
/// lines `l` make up: they are control file lines, and the last of them is
/// the one with which the declared number of bytes is reached.
pub open spec fn is_control_file<P: Parse>(sub: Seq<char>, l: Seq<Seq<char>>) -> bool {
    &&& sub.len() > 0
    &&& are_control_lines::<P>(l)
    &&& match P::receive_job_subcommand(sub) {
        Some(ReceiveJobSubcommandModel::ReceiveControlFile(n, _)) => if l.len() == 0 {
            n == 0
        } else {
            bytes_of(l.drop_last()) < n <= bytes_of(l)
        },
        _ => false,
    }
}

/// What the transport hands over while a control file is received and
/// acknowledged.
pub open spec fn control_file_events(sub: Seq<char>, l: Seq<Seq<char>>) -> Seq<EventModel> {
    seq![EventModel::Line(sub)] + (line_events(l) + seq![
        EventModel::Byte(0),
        EventModel::Written,
    ])
}

/// Whether the subcommand line `sub` declares a data file of as many bytes as `data` has.
pub open spec fn is_data_file<P: Parse>(sub: Seq<char>, data: Seq<u8>) -> bool {
    &&& sub.len() > 0
    &&& match P::receive_job_subcommand(sub) {
        Some(ReceiveJobSubcommandModel::ReceiveDataFile(n, _)) => n == data.len(),
        _ => false,
    }
}

/// What the transport hands over while a data file is received and
/// acknowledged.
pub open spec fn data_file_events(sub: Seq<char>, data: Seq<u8>) -> Seq<EventModel> {
    seq![
        EventModel::Line(sub),
        EventModel::Bytes(data),
        EventModel::Byte(0),
        EventModel::Written,
    ]
}

/// Lines of a control file that do not yet reach the declared number of
/// bytes are collected.
proof fn lemma_control_lines_collected<P: Parse>(t: SessionModel, l: Seq<Seq<char>>)
    requires
        t.phase is ControlFile,
        are_control_lines::<P>(l),
        bytes_of(l) < t.phase->ControlFile_0,
    ensures
        run::<P>(t, line_events(l)) == (SessionModel {
            phase: PhaseModel::ControlFile((t.phase->ControlFile_0 - bytes_of(l)) as usize),
            lines: t.lines + content::<P>(l),
            ..t
        }),
    decreases l.len(),
{
    if l.len() == 0 {
        assert(t.lines + content::<P>(l) =~= t.lines);
        assert(line_events(l) =~= Seq::<EventModel>::empty());
    } else {
        let front = l.drop_last();
        assert(are_control_lines::<P>(front)) by {
            assert forall|i: int| 0 <= i < front.len() implies (#[trigger] front[i]).len() > 0
                && P::control_file_line(front[i]) is Some by {
                assert(front[i] == l[i]);
            }
        }
        lemma_control_lines_collected::<P>(t, front);
        assert(line_events(l).drop_last() =~= line_events(front));
        assert(line_events(l).last() == EventModel::Line(l.last()));
        assert(l.last() == l[l.len() - 1]);
        assert(content::<P>(l) =~= content::<P>(front).push(
            P::control_file_line(l.last()).unwrap(),
        ));
        assert((t.lines + content::<P>(front)).push(P::control_file_line(l.last()).unwrap())
            =~= t.lines + content::<P>(l));
    }
}

/// The line with which the declared number of bytes is reached completes
/// the control file: the job then holds the lines of this file, and what it
/// held of an earlier control file is gone.
proof fn lemma_control_lines_complete<P: Parse>(t: SessionModel, l: Seq<Seq<char>>)
    requires
        t.phase is ControlFile,
        are_control_lines::<P>(l),
        l.len() > 0,
        bytes_of(l.drop_last()) < t.phase->ControlFile_0 <= bytes_of(l),
    ensures
        run::<P>(t, line_events(l)) == (SessionModel {
            phase: PhaseModel::Terminator,
            job: JobModel { cf: Some(t.lines + content::<P>(l)), ..t.job },
            lines: Seq::empty(),
            ..t
        }),
{
    let front = l.drop_last();
    assert(are_control_lines::<P>(front)) by {
        assert forall|i: int| 0 <= i < front.len() implies (#[trigger] front[i]).len() > 0
            && P::control_file_line(front[i]) is Some by {
            assert(front[i] == l[i]);
        }
    }
    lemma_control_lines_collected::<P>(t, front);
    assert(line_events(l).drop_last() =~= line_events(front));
    assert(line_events(l).last() == EventModel::Line(l.last()));
    assert(l.last() == l[l.len() - 1]);
    assert(content::<P>(l) =~= content::<P>(front).push(P::control_file_line(l.last()).unwrap()));
    assert((t.lines + content::<P>(front)).push(P::control_file_line(l.last()).unwrap()) =~= t.lines
        + content::<P>(l));
}

/// A control file that is received takes the place of the job's control
/// file, whatever that was; nothing else of the session changes but that no
/// lines are pending.
pub proof fn lemma_control_file_received<P: Parse>(
    s: SessionModel,
    sub: Seq<char>,
    l: Seq<Seq<char>>,
)
    requires
        s.phase is AwaitingSubcommand,
        is_control_file::<P>(sub, l),
    ensures
        run::<P>(s, control_file_events(sub, l)) == (SessionModel {
            job: JobModel { cf: Some(content::<P>(l)), ..s.job },
            lines: Seq::empty(),
            ..s
        }),
{
    let first = seq![EventModel::Line(sub)];
    let last = seq![EventModel::Byte(0), EventModel::Written];
    lemma_run_concat::<P>(s, first, line_events(l) + last);
    lemma_run_one::<P>(s, EventModel::Line(sub));
    let s1 = step::<P>(s, EventModel::Line(sub));
    lemma_run_concat::<P>(s1, line_events(l), last);
    let s2 = run::<P>(s1, line_events(l));
    if l.len() == 0 {
        assert(line_events(l) =~= Seq::<EventModel>::empty());
        assert(content::<P>(l) =~= Seq::<ControlFileLineModel>::empty());
    } else {
        lemma_control_lines_complete::<P>(s1, l);
        assert(Seq::<ControlFileLineModel>::empty() + content::<P>(l) =~= content::<P>(l));
    }
    assert(s2 == (SessionModel {
        phase: PhaseModel::Terminator,
        job: JobModel { cf: Some(content::<P>(l)), ..s.job },
        lines: Seq::empty(),
        ..s
    }));
    assert(last.drop_last() =~= seq![EventModel::Byte(0)]);
    lemma_run_one::<P>(s2, EventModel::Byte(0));
}

/// A data file that is received takes the place of the job's data file,
/// whatever that was; nothing else of the session changes.
pub proof fn lemma_data_file_received<P: Parse>(s: SessionModel, sub: Seq<char>, data: Seq<u8>)
    requires
        s.phase is AwaitingSubcommand,
        is_data_file::<P>(sub, data),
    ensures
        run::<P>(s, data_file_events(sub, data)) == (SessionModel {
            job: JobModel { df: Some(data), ..s.job },
            ..s
        }),
{
    let a = seq![EventModel::Line(sub)];
    let b = seq![EventModel::Bytes(data)];
    let c = seq![EventModel::Byte(0)];
    let d = seq![EventModel::Written];
    assert(data_file_events(sub, data) =~= a + (b + (c + d)));
    lemma_run_concat::<P>(s, a, b + (c + d));
    lemma_run_one::<P>(s, EventModel::Line(sub));
    let s1 = step::<P>(s, EventModel::Line(sub));
    lemma_run_concat::<P>(s1, b, c + d);
    lemma_run_one::<P>(s1, EventModel::Bytes(data));
    let s2 = step::<P>(s1, EventModel::Bytes(data));
    lemma_run_concat::<P>(s2, c, d);
    lemma_run_one::<P>(s2, EventModel::Byte(0));
    lemma_run_one::<P>(step::<P>(s2, EventModel::Byte(0)), EventModel::Written);
}

/// Of two control files received in one job, the job holds the second.
pub proof fn lemma_second_control_file_wins<P: Parse>(
    s: SessionModel,
    sub1: Seq<char>,
    l1: Seq<Seq<char>>,
    sub2: Seq<char>,
    l2: Seq<Seq<char>>,
)
    requires
        s.phase is AwaitingSubcommand,
        is_control_file::<P>(sub1, l1),
        is_control_file::<P>(sub2, l2),
    ensures
        run::<P>(s, control_file_events(sub1, l1) + control_file_events(sub2, l2)) == (SessionModel {
            job: JobModel { cf: Some(content::<P>(l2)), ..s.job },
            lines: Seq::empty(),
            ..s
        }),
{
    lemma_run_concat::<P>(s, control_file_events(sub1, l1), control_file_events(sub2, l2));
    lemma_control_file_received::<P>(s, sub1, l1);
    lemma_control_file_received::<P>(run::<P>(s, control_file_events(sub1, l1)), sub2, l2);
}

/// Of two data files received in one job, the job holds the second.
pub proof fn lemma_second_data_file_wins<P: Parse>(
    s: SessionModel,
    sub1: Seq<char>,
    data1: Seq<u8>,
    sub2: Seq<char>,
    data2: Seq<u8>,
)
    requires
        s.phase is AwaitingSubcommand,
        is_data_file::<P>(sub1, data1),
        is_data_file::<P>(sub2, data2),
    ensures
        run::<P>(s, data_file_events(sub1, data1) + data_file_events(sub2, data2)) == (SessionModel {
            job: JobModel { df: Some(data2), ..s.job },
            ..s
        }),
{
    lemma_run_concat::<P>(s, data_file_events(sub1, data1), data_file_events(sub2, data2));
    lemma_data_file_received::<P>(s, sub1, data1);
    lemma_data_file_received::<P>(run::<P>(s, data_file_events(sub1, data1)), sub2, data2);
}

/// An abort drops the job, whatever was received of it: the command that
/// opened the job stays the last in the log, and no job is added to it.
pub proof fn lemma_abort_discards<P: Parse>(
    s: SessionModel,
    command: Seq<char>,
    es: Seq<EventModel>,
    abort: Seq<char>,
)
    requires
        s.phase is AwaitingCommand,
        command.len() > 0,
        P::lpr_command(command) matches Some(c) && c is ReceivePrinterJob,
        stays_in_job::<P>(step::<P>(s, EventModel::Line(command)), es),
        run::<P>(step::<P>(s, EventModel::Line(command)), es).phase is AwaitingSubcommand,
        abort.len() > 0,
        P::receive_job_subcommand(abort) == Some(ReceiveJobSubcommandModel::AbortJob),
    ensures
        run::<P>(s, seq![EventModel::Line(command)] + (es + seq![EventModel::Line(abort)])) == (
        SessionModel {
            phase: PhaseModel::AwaitingCommand,
            log: LogModel { c: s.log.c.push(P::lpr_command(command).unwrap()), jobs: s.log.jobs },
            job: JobModel::empty(),
            lines: run::<P>(step::<P>(s, EventModel::Line(command)), es).lines,
        }),
{
    let s1 = step::<P>(s, EventModel::Line(command));
    let last = seq![EventModel::Line(abort)];
    lemma_run_concat::<P>(s, seq![EventModel::Line(command)], es + last);
    lemma_run_one::<P>(s, EventModel::Line(command));
    lemma_run_concat::<P>(s1, es, last);
    lemma_job_leaves_log::<P>(s1, es);
    lemma_run_one::<P>(run::<P>(s1, es), EventModel::Line(abort));
}

/// An abort behind a control file: the file is dropped with the job.
pub proof fn lemma_abort_after_control_file<P: Parse>(
    s: SessionModel,
    command: Seq<char>,
    sub: Seq<char>,
    l: Seq<Seq<char>>,
    abort: Seq<char>,
)
    requires
        s.phase is AwaitingCommand,
        command.len() > 0,
        P::lpr_command(command) matches Some(c) && c is ReceivePrinterJob,
        is_control_file::<P>(sub, l),
        abort.len() > 0,
        P::receive_job_subcommand(abort) == Some(ReceiveJobSubcommandModel::AbortJob),
    ensures
        run::<P>(
            s,
            seq![EventModel::Line(command), EventModel::Written] + (control_file_events(sub, l)
                + seq![EventModel::Line(abort)]),
        ) == (SessionModel {
            phase: PhaseModel::AwaitingCommand,
            log: LogModel { c: s.log.c.push(P::lpr_command(command).unwrap()), jobs: s.log.jobs },
            job: JobModel::empty(),
            lines: Seq::empty(),
        }),
{
    let open = seq![EventModel::Line(command), EventModel::Written];
    let last = seq![EventModel::Line(abort)];
    lemma_run_concat::<P>(s, open, control_file_events(sub, l) + last);
    assert(open.drop_last() =~= seq![EventModel::Line(command)]);
    lemma_run_one::<P>(s, EventModel::Line(command));
    let s2 = run::<P>(s, open);
    lemma_run_concat::<P>(s2, control_file_events(sub, l), last);
    lemma_control_file_received::<P>(s2, sub, l);
    lemma_run_one::<P>(run::<P>(s2, control_file_events(sub, l)), EventModel::Line(abort));
}

} // verus!
