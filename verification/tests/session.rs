use rfc1179::lpd::{
    ControlFile, ControlFileLine, DataFile, Job, LprCommand, QueueName, ReceiveJobSubcommand,
};
use rfc1179::parse::{Parse, Parser};
use rfc1179::{Action, Event, Log, LpdError, Worker};
use std::io::{BufRead, Read};

/// Serves `input` as the transport would: what the session ended with, and
/// what it wrote.
fn serve<P: Parse>(mut input: &[u8]) -> (Result<Log, LpdError>, Vec<u8>) {
    let mut written = Vec::new();
    let mut worker = Worker::new();
    let mut action = worker.action();
    loop {
        let event = match action {
            Action::ReadLine => {
                let mut line = String::new();
                match input.read_line(&mut line) {
                    Ok(_) => Event::Line(line),
                    Err(e) => Event::Failed(e),
                }
            }
            Action::ReadExact(n) => {
                let mut bytes = vec![0; n];
                match input.read_exact(&mut bytes) {
                    Ok(()) => Event::Bytes(bytes),
                    Err(e) => Event::Failed(e),
                }
            }
            Action::ReadByte => {
                let mut byte = [1; 1];
                match input.read_exact(&mut byte) {
                    Ok(()) => Event::Byte(byte[0]),
                    Err(e) => Event::Failed(e),
                }
            }
            Action::WriteByte(b) => {
                written.push(b);
                Event::Written
            }
            Action::Finish | Action::Fail => return (worker.into_result(), written),
        };
        action = worker.step::<P>(event);
    }
}

fn line(text: &str) -> Event {
    Event::Line(text.to_string())
}

/// A worker that has read the command which opens a job and written its
/// acknowledgement.
fn in_job() -> Worker {
    let mut worker = Worker::new();
    assert_eq!(worker.step::<Parser>(line("\x02lp\n")), Action::WriteByte(0));
    assert_eq!(worker.step::<Parser>(Event::Written), Action::ReadLine);
    worker
}

fn host(name: &str) -> ControlFileLine {
    ControlFileLine::HostName(name.to_string())
}

#[test]
fn new_session_awaits_a_line() {
    let worker = Worker::new();
    assert_eq!(worker.action(), Action::ReadLine);
    assert!(worker.log().c.is_empty());
    assert!(worker.log().jobs.is_empty());
    assert_eq!(worker.job(), &Job { df: None, cf: None });
}

#[test]
fn empty_stream_ends_with_empty_log() {
    let (result, written) = serve::<Parser>(b"");
    let log = result.unwrap();
    assert!(log.c.is_empty());
    assert!(log.jobs.is_empty());
    assert!(written.is_empty());
}

#[test]
fn commands_are_logged_in_their_order() {
    let (result, written) = serve::<Parser>(b"\x01lp\n\x03lp a b\n\x05q root \n\x04q2 x\n\x01lp\n");
    let log = result.unwrap();
    assert_eq!(
        log.c,
        vec![
            LprCommand::PrintWaiting(QueueName("lp".to_string())),
            LprCommand::SendQueueStateShort(
                QueueName("lp".to_string()),
                vec!["a".to_string(), "b".to_string()]
            ),
            LprCommand::RemoveJobs(QueueName("q".to_string()), "root".to_string(), vec![]),
            LprCommand::SendQueueStateLong(QueueName("q2".to_string()), vec!["x".to_string()]),
            LprCommand::PrintWaiting(QueueName("lp".to_string())),
        ]
    );
    assert!(log.jobs.is_empty());
    assert!(written.is_empty());
}

#[test]
fn control_file_then_abort_leaves_no_job() {
    let input = b"\x01lp\n\x02lp\n\x025 cfA001host\nHabc\n\x00\x01\n";
    let (result, written) = serve::<Parser>(input);
    let log = result.unwrap();
    assert_eq!(
        log.c,
        vec![
            LprCommand::PrintWaiting(QueueName("lp".to_string())),
            LprCommand::ReceivePrinterJob(QueueName("lp".to_string())),
        ]
    );
    assert_eq!(log.jobs.len(), 0);
    assert_eq!(written, vec![0, 0]);
}

#[test]
fn control_file_then_abort_step_by_step() {
    let mut worker = Worker::new();
    assert_eq!(worker.step::<Parser>(line("\x01lp\n")), Action::ReadLine);
    assert_eq!(worker.step::<Parser>(line("\x02lp\n")), Action::WriteByte(0));
    assert_eq!(worker.log().c.len(), 2);
    assert_eq!(worker.step::<Parser>(Event::Written), Action::ReadLine);
    assert_eq!(worker.step::<Parser>(line("\x025 cfA001host\n")), Action::ReadLine);
    assert_eq!(worker.step::<Parser>(line("Habc\n")), Action::ReadByte);
    assert_eq!(worker.job().cf, Some(ControlFile { lines: vec![host("abc")] }));
    assert_eq!(worker.step::<Parser>(Event::Byte(0)), Action::WriteByte(0));
    assert_eq!(worker.step::<Parser>(Event::Written), Action::ReadLine);
    assert_eq!(worker.job().cf, Some(ControlFile { lines: vec![host("abc")] }));
    assert_eq!(worker.step::<Parser>(line("\x01\n")), Action::ReadLine);
    assert_eq!(worker.job(), &Job { df: None, cf: None });
    assert_eq!(worker.step::<Parser>(line("")), Action::Finish);
    let log = worker.into_result().unwrap();
    assert_eq!(log.c.len(), 2);
    assert!(log.jobs.is_empty());
}

#[test]
fn job_opens_with_one_acknowledgement() {
    let (result, written) = serve::<Parser>(b"\x02lp\n");
    let log = result.unwrap();
    assert_eq!(log.c, vec![LprCommand::ReceivePrinterJob(QueueName("lp".to_string()))]);
    assert!(log.jobs.is_empty());
    assert_eq!(written, vec![0]);
}

#[test]
fn stream_end_inside_a_job_ends_the_job_and_then_the_session() {
    let mut worker = in_job();
    assert_eq!(worker.step::<Parser>(line("\x033 dfA\n")), Action::ReadExact(3));
    assert_eq!(worker.step::<Parser>(Event::Bytes(vec![1, 2, 3])), Action::ReadByte);
    assert_eq!(worker.step::<Parser>(Event::Byte(0)), Action::WriteByte(0));
    assert_eq!(worker.step::<Parser>(Event::Written), Action::ReadLine);
    assert_eq!(worker.job().df, Some(DataFile { data: vec![1, 2, 3] }));
    assert_eq!(worker.step::<Parser>(line("")), Action::ReadLine);
    assert_eq!(worker.job(), &Job { df: None, cf: None });
    assert!(worker.log().jobs.is_empty());
    assert_eq!(worker.step::<Parser>(line("")), Action::Finish);
    let log = worker.into_result().unwrap();
    assert_eq!(log.c.len(), 1);
    assert!(log.jobs.is_empty());
}

#[test]
fn command_behind_an_aborted_job_is_read() {
    let (result, written) = serve::<Parser>(b"\x02lp\n\x01\n\x01lp\n\x02raw\n\x01\n");
    let log = result.unwrap();
    assert_eq!(
        log.c,
        vec![
            LprCommand::ReceivePrinterJob(QueueName("lp".to_string())),
            LprCommand::PrintWaiting(QueueName("lp".to_string())),
            LprCommand::ReceivePrinterJob(QueueName("raw".to_string())),
        ]
    );
    assert!(log.jobs.is_empty());
    assert_eq!(written, vec![0, 0]);
}

#[test]
fn second_control_file_takes_the_place_of_the_first() {
    let mut worker = in_job();
    for event in [line("\x025 cfA\n"), line("Hone\n"), Event::Byte(0), Event::Written] {
        worker.step::<Parser>(event);
    }
    assert_eq!(worker.job().cf, Some(ControlFile { lines: vec![host("one")] }));
    for event in
        [line("\x0210 cfB\n"), line("Htwo\n"), line("Proot\n"), Event::Byte(0), Event::Written]
    {
        worker.step::<Parser>(event);
    }
    assert_eq!(worker.action(), Action::ReadLine);
    assert_eq!(
        worker.job().cf,
        Some(ControlFile {
            lines: vec![host("two"), ControlFileLine::UserIdentification("root".to_string())]
        })
    );
    assert_eq!(worker.job().df, None);
}

#[test]
fn second_data_file_takes_the_place_of_the_first() {
    let mut worker = in_job();
    for event in
        [line("\x033 dfA\n"), Event::Bytes(vec![1, 2, 3]), Event::Byte(0), Event::Written]
    {
        worker.step::<Parser>(event);
    }
    assert_eq!(worker.job().df, Some(DataFile { data: vec![1, 2, 3] }));
    for event in [line("\x032 dfB\n"), Event::Bytes(vec![9, 8]), Event::Byte(0), Event::Written] {
        worker.step::<Parser>(event);
    }
    assert_eq!(worker.job().df, Some(DataFile { data: vec![9, 8] }));
    assert_eq!(worker.job().cf, None);
}

#[test]
fn job_holds_both_files() {
    let mut worker = in_job();
    for event in [
        line("\x025 cfA\n"),
        line("Habc\n"),
        Event::Byte(0),
        Event::Written,
        line("\x034 dfA\n"),
        Event::Bytes(vec![b'd', b'a', b't', b'a']),
        Event::Byte(0),
        Event::Written,
    ] {
        worker.step::<Parser>(event);
    }
    assert_eq!(
        worker.job(),
        &Job {
            df: Some(DataFile { data: vec![b'd', b'a', b't', b'a'] }),
            cf: Some(ControlFile { lines: vec![host("abc")] }),
        }
    );
}

#[test]
fn data_file_is_not_read_as_text() {
    let input = b"\x02lp\n\x036 dfA\n\x01\n\x00\xff\n\n\x00\x01\n";
    let mut worker = in_job();
    assert_eq!(worker.step::<Parser>(line("\x036 dfA\n")), Action::ReadExact(6));
    assert_eq!(
        worker.step::<Parser>(Event::Bytes(vec![1, b'\n', 0, 0xff, b'\n', b'\n'])),
        Action::ReadByte
    );
    assert_eq!(worker.job().df, Some(DataFile { data: vec![1, b'\n', 0, 0xff, b'\n', b'\n'] }));
    let (result, written) = serve::<Parser>(input);
    assert!(result.is_ok());
    assert_eq!(written, vec![0, 0]);
}

#[test]
fn bad_terminator_fails_without_acknowledgement() {
    let (result, written) = serve::<Parser>(b"\x02lp\n\x025 cfA\nHabc\n\x01\x01\n");
    assert!(matches!(result, Err(LpdError::BadAck)));
    assert_eq!(written, vec![0]);
    let (result, written) = serve::<Parser>(b"\x02lp\n\x032 dfA\nab\xff");
    assert!(matches!(result, Err(LpdError::BadAck)));
    assert_eq!(written, vec![0]);
}

#[test]
fn bad_terminator_ends_the_session_for_good() {
    let mut worker = in_job();
    worker.step::<Parser>(line("\x031 dfA\n"));
    worker.step::<Parser>(Event::Bytes(vec![7]));
    assert_eq!(worker.step::<Parser>(Event::Byte(1)), Action::Fail);
    assert_eq!(worker.step::<Parser>(Event::Written), Action::Fail);
    assert_eq!(worker.step::<Parser>(Event::Byte(0)), Action::Fail);
    assert_eq!(worker.step::<Parser>(line("\x01\n")), Action::Fail);
    assert_eq!(worker.log().c.len(), 1);
    assert_eq!(worker.job().df, Some(DataFile { data: vec![7] }));
    assert!(matches!(worker.into_result(), Err(LpdError::BadAck)));
}

#[test]
fn bad_command_fails_the_session() {
    let (result, written) = serve::<Parser>(b"\x01lp\n\x07lp\n\x01lp\n");
    assert!(matches!(result, Err(LpdError::Parse(_))));
    assert!(written.is_empty());
    let mut worker = Worker::new();
    worker.step::<Parser>(line("\x01lp\n"));
    assert_eq!(worker.step::<Parser>(line("\x01lp \n")), Action::Fail);
    assert_eq!(worker.log().c.len(), 1);
}

#[test]
fn bad_subcommand_fails_the_session() {
    let (result, written) = serve::<Parser>(b"\x02lp\n\x04oops\n");
    assert!(matches!(result, Err(LpdError::Parse(_))));
    assert_eq!(written, vec![0]);
}

#[test]
fn bad_control_file_line_fails_the_session() {
    let (result, written) = serve::<Parser>(b"\x02lp\n\x0220 cfA\nHabc\nXnope\n\x00");
    assert!(matches!(result, Err(LpdError::Parse(_))));
    assert_eq!(written, vec![0]);
}

#[test]
fn stream_end_inside_a_control_file_is_a_transport_failure() {
    let (result, written) = serve::<Parser>(b"\x02lp\n\x0220 cfA\nHabc\n");
    match result {
        Err(LpdError::Io(e)) => assert_eq!(e.kind(), std::io::ErrorKind::UnexpectedEof),
        other => panic!("{:?}", other),
    }
    assert_eq!(written, vec![0]);
}

#[test]
fn stream_end_inside_a_data_file_is_a_transport_failure() {
    let (result, written) = serve::<Parser>(b"\x02lp\n\x0320 dfA\nabc");
    match result {
        Err(LpdError::Io(e)) => assert_eq!(e.kind(), std::io::ErrorKind::UnexpectedEof),
        other => panic!("{:?}", other),
    }
    assert_eq!(written, vec![0]);
}

#[test]
fn stream_end_before_the_terminator_is_a_transport_failure() {
    let (result, written) = serve::<Parser>(b"\x02lp\n\x033 dfA\nabc");
    assert!(matches!(result, Err(LpdError::Io(_))));
    assert_eq!(written, vec![0]);
}

#[test]
fn transport_failure_fails_the_session_with_its_error() {
    let mut worker = Worker::new();
    worker.step::<Parser>(line("\x01lp\n"));
    let broken = std::io::Error::new(std::io::ErrorKind::BrokenPipe, "pipe");
    assert_eq!(worker.step::<Parser>(Event::Failed(broken)), Action::Fail);
    assert_eq!(worker.log().c.len(), 1);
    match worker.into_result() {
        Err(LpdError::Io(e)) => assert_eq!(e.kind(), std::io::ErrorKind::BrokenPipe),
        other => panic!("{:?}", other),
    }
}

#[test]
fn transport_failure_behind_the_end_does_not_fail_the_session() {
    let mut worker = Worker::new();
    assert_eq!(worker.step::<Parser>(line("")), Action::Finish);
    let late = std::io::Error::new(std::io::ErrorKind::Other, "late");
    assert_eq!(worker.step::<Parser>(Event::Failed(late)), Action::Finish);
    assert!(worker.into_result().is_ok());
}

#[test]
fn first_failure_stays() {
    let mut worker = in_job();
    worker.step::<Parser>(line("\x030 dfA\n"));
    worker.step::<Parser>(Event::Bytes(vec![]));
    assert_eq!(worker.step::<Parser>(Event::Byte(9)), Action::Fail);
    let late = std::io::Error::new(std::io::ErrorKind::Other, "late");
    assert_eq!(worker.step::<Parser>(Event::Failed(late)), Action::Fail);
    assert!(matches!(worker.into_result(), Err(LpdError::BadAck)));
}

#[test]
fn control_file_of_no_bytes_has_no_lines() {
    let mut worker = in_job();
    assert_eq!(worker.step::<Parser>(line("\x020 cfA\n")), Action::ReadByte);
    assert_eq!(worker.job().cf, Some(ControlFile { lines: vec![] }));
    assert_eq!(worker.step::<Parser>(Event::Byte(0)), Action::WriteByte(0));
    assert_eq!(worker.step::<Parser>(Event::Written), Action::ReadLine);
}

#[test]
fn data_file_of_no_bytes_is_empty() {
    let mut worker = in_job();
    assert_eq!(worker.step::<Parser>(line("\x030 dfA\n")), Action::ReadExact(0));
    assert_eq!(worker.step::<Parser>(Event::Bytes(vec![])), Action::ReadByte);
    assert_eq!(worker.job().df, Some(DataFile { data: vec![] }));
}

#[test]
fn control_file_ends_with_the_line_that_reaches_the_count() {
    let mut worker = in_job();
    assert_eq!(worker.step::<Parser>(line("\x0210 cfA\n")), Action::ReadLine);
    assert_eq!(worker.step::<Parser>(line("Habc\n")), Action::ReadLine);
    assert_eq!(worker.job().cf, None);
    assert_eq!(worker.step::<Parser>(line("Pme\n")), Action::ReadLine);
    assert_eq!(worker.step::<Parser>(line("k\n")), Action::ReadByte);
    assert_eq!(
        worker.job().cf,
        Some(ControlFile {
            lines: vec![
                host("abc"),
                ControlFileLine::UserIdentification("me".to_string()),
                ControlFileLine::ReservedK
            ]
        })
    );
}

#[test]
fn control_file_may_run_over_the_count() {
    let mut worker = in_job();
    worker.step::<Parser>(line("\x026 cfA\n"));
    assert_eq!(worker.step::<Parser>(line("Habc\n")), Action::ReadLine);
    assert_eq!(worker.step::<Parser>(line("Jlong-job-name\n")), Action::ReadByte);
    assert_eq!(
        worker.job().cf,
        Some(ControlFile {
            lines: vec![host("abc"), ControlFileLine::JobNameForBannerPage("long-job-name".to_string())]
        })
    );
}

#[test]
fn control_file_counts_bytes_not_characters() {
    let mut worker = in_job();
    worker.step::<Parser>(line("\x027 cfA\n"));
    assert_eq!(worker.step::<Parser>(line("H\u{20ac}\u{20ac}\n")), Action::ReadByte);
    let mut worker = in_job();
    worker.step::<Parser>(line("\x029 cfA\n"));
    assert_eq!(worker.step::<Parser>(line("H\u{20ac}\u{20ac}\n")), Action::ReadLine);
}

#[test]
fn event_that_was_not_asked_for_changes_nothing() {
    let mut worker = Worker::new();
    assert_eq!(worker.step::<Parser>(Event::Written), Action::ReadLine);
    assert_eq!(worker.step::<Parser>(Event::Byte(0)), Action::ReadLine);
    assert_eq!(worker.step::<Parser>(Event::Bytes(vec![1])), Action::ReadLine);
    assert!(worker.log().c.is_empty());
    let mut worker = in_job();
    assert_eq!(worker.step::<Parser>(line("\x033 dfA\n")), Action::ReadExact(3));
    assert_eq!(worker.step::<Parser>(Event::Bytes(vec![1, 2])), Action::ReadExact(3));
    assert_eq!(worker.step::<Parser>(line("\x01\n")), Action::ReadExact(3));
    assert_eq!(worker.step::<Parser>(Event::Byte(0)), Action::ReadExact(3));
    assert_eq!(worker.job().df, None);
    assert_eq!(worker.step::<Parser>(Event::Bytes(vec![1, 2, 3])), Action::ReadByte);
    assert_eq!(worker.step::<Parser>(line("\x01\n")), Action::ReadByte);
    assert_eq!(worker.step::<Parser>(Event::Written), Action::ReadByte);
}

#[test]
fn handlers_take_what_the_grammar_made() {
    let mut worker = Worker::new();
    worker.read_command(Some(LprCommand::ReceivePrinterJob(QueueName("lp".to_string()))));
    assert_eq!(worker.action(), Action::WriteByte(0));
    worker.positive_ack();
    assert_eq!(worker.action(), Action::ReadLine);
    worker.receive_job(Some(ReceiveJobSubcommand::ReceiveControlFile(4, "cfA".to_string())));
    assert_eq!(worker.action(), Action::ReadLine);
    worker.read_control_file(3, Some(ControlFileLine::ReservedZ));
    assert_eq!(worker.action(), Action::ReadLine);
    worker.read_control_file(1, Some(ControlFileLine::ReservedK));
    assert_eq!(worker.action(), Action::ReadByte);
    assert_eq!(
        worker.job().cf,
        Some(ControlFile { lines: vec![ControlFileLine::ReservedZ, ControlFileLine::ReservedK] })
    );
    worker.assert_ack(0);
    assert_eq!(worker.action(), Action::WriteByte(0));
    worker.positive_ack();
    worker.receive_job(Some(ReceiveJobSubcommand::ReceiveDataFile(2, "dfA".to_string())));
    assert_eq!(worker.action(), Action::ReadExact(2));
    worker.read_data_file(vec![5, 6]);
    assert_eq!(worker.action(), Action::ReadByte);
    worker.assert_ack(0);
    worker.positive_ack();
    worker.receive_job(Some(ReceiveJobSubcommand::AbortJob));
    assert_eq!(worker.action(), Action::ReadLine);
    assert_eq!(worker.job(), &Job { df: None, cf: None });
    worker.stream_end();
    assert_eq!(worker.action(), Action::Finish);
    assert_eq!(worker.log().c.len(), 1);
}

#[test]
fn handlers_fail_on_what_the_grammar_rejected() {
    let mut worker = Worker::new();
    worker.read_command(None);
    assert_eq!(worker.action(), Action::Fail);
    let mut worker = in_job();
    worker.receive_job(None);
    assert_eq!(worker.action(), Action::Fail);
    let mut worker = in_job();
    worker.receive_job(Some(ReceiveJobSubcommand::ReceiveControlFile(4, "cfA".to_string())));
    worker.read_control_file(4, None);
    assert_eq!(worker.action(), Action::Fail);
    assert!(matches!(worker.into_result(), Err(LpdError::Parse(_))));
}

#[test]
fn handlers_leave_a_session_in_another_phase_alone() {
    let mut worker = Worker::new();
    worker.receive_job(Some(ReceiveJobSubcommand::AbortJob));
    worker.read_control_file(1, None);
    worker.read_data_file(vec![1]);
    worker.assert_ack(1);
    worker.positive_ack();
    assert_eq!(worker.action(), Action::ReadLine);
    let mut worker = in_job();
    worker.read_command(None);
    assert_eq!(worker.action(), Action::ReadLine);
    worker.fail(std::io::Error::new(std::io::ErrorKind::Other, "x"));
    worker.stream_end();
    assert_eq!(worker.action(), Action::Fail);
}

#[test]
fn errors_convert_into_the_session_error() {
    let e: LpdError = rfc1179::parse::ParseError::Other.into();
    assert!(matches!(e, LpdError::Parse(rfc1179::parse::ParseError::Other)));
    let e: LpdError = std::io::Error::new(std::io::ErrorKind::TimedOut, "t").into();
    match e {
        LpdError::Io(e) => assert_eq!(e.kind(), std::io::ErrorKind::TimedOut),
        other => panic!("{:?}", other),
    }
}

/// A grammar of its own: every line is the queue of a job, a count and
/// a file or a host, by its length alone.
struct ByLength;

impl Parse for ByLength {
    type Error = String;

    fn parse_lpr_command(i: &str) -> Result<LprCommand, String> {
        if i.len() > 1 {
            Ok(LprCommand::ReceivePrinterJob(QueueName(i.to_string())))
        } else {
            Err("short".to_string())
        }
    }

    fn parse_receive_job_subcommand(i: &str) -> Result<ReceiveJobSubcommand, String> {
        if i.len() > 1 {
            Ok(ReceiveJobSubcommand::ReceiveControlFile(i.len(), i.to_string()))
        } else {
            Err("short".to_string())
        }
    }

    fn parse_control_file_line(i: &str) -> Result<ControlFileLine, String> {
        if i.len() > 1 {
            Ok(ControlFileLine::HostName(i.to_string()))
        } else {
            Err("short".to_string())
        }
    }
}

#[test]
fn session_runs_on_another_grammar() {
    let mut worker = Worker::new();
    assert_eq!(worker.step::<ByLength>(line("anything\n")), Action::WriteByte(0));
    assert_eq!(worker.step::<ByLength>(Event::Written), Action::ReadLine);
    assert_eq!(worker.step::<ByLength>(line("abcd")), Action::ReadLine);
    assert_eq!(worker.step::<ByLength>(line("xyz\n")), Action::ReadByte);
    assert_eq!(worker.job().cf, Some(ControlFile { lines: vec![host("xyz\n")] }));
    let (result, written) = serve::<ByLength>(b"ab\nx");
    assert!(matches!(result, Err(LpdError::Parse(_))));
    assert_eq!(written, vec![0]);
}
