use rfc1179::lpd::{
    ControlFileLine, LprCommand, PlotKind, PrintKind, QueueName, ReceiveJobSubcommand,
    TroffFontKind,
};
use rfc1179::parse::{Parse, ParseError, Parser};

fn queue(name: &str) -> QueueName {
    QueueName(name.to_string())
}

fn strings(names: &[&str]) -> Vec<String> {
    names.iter().map(|n| n.to_string()).collect()
}

fn line(text: &str) -> Result<ControlFileLine, ParseError> {
    Parser::parse_control_file_line(text)
}

#[test]
fn print_waiting_names_the_queue() {
    assert_eq!(Parser::parse_lpr_command("\x01lp\n"), Ok(LprCommand::PrintWaiting(queue("lp"))));
}

#[test]
fn receive_printer_job_names_the_queue() {
    assert_eq!(
        Parser::parse_lpr_command("\x02lp\n"),
        Ok(LprCommand::ReceivePrinterJob(queue("lp")))
    );
}

#[test]
fn send_queue_state_short_with_filters() {
    assert_eq!(
        Parser::parse_lpr_command("\x03lp alice 17 bob\n"),
        Ok(LprCommand::SendQueueStateShort(queue("lp"), strings(&["alice", "17", "bob"])))
    );
}

#[test]
fn send_queue_state_long_with_filters() {
    assert_eq!(
        Parser::parse_lpr_command("\x04raw root\n"),
        Ok(LprCommand::SendQueueStateLong(queue("raw"), strings(&["root"])))
    );
}

#[test]
fn send_queue_state_with_empty_filter_list() {
    assert_eq!(
        Parser::parse_lpr_command("\x03lp \n"),
        Ok(LprCommand::SendQueueStateShort(queue("lp"), vec![]))
    );
    assert_eq!(
        Parser::parse_lpr_command("\x04lp \t \n"),
        Ok(LprCommand::SendQueueStateLong(queue("lp"), vec![]))
    );
}

#[test]
fn send_queue_state_needs_whitespace_behind_the_queue() {
    assert_eq!(Parser::parse_lpr_command("\x03lp\n"), Err(ParseError::Other));
    assert_eq!(Parser::parse_lpr_command("\x04lp\n"), Err(ParseError::Other));
}

#[test]
fn filters_keep_their_order_and_their_duplicates() {
    assert_eq!(
        Parser::parse_lpr_command("\x03lp b a b a\n"),
        Ok(LprCommand::SendQueueStateShort(queue("lp"), strings(&["b", "a", "b", "a"])))
    );
}

#[test]
fn filters_are_separated_by_runs_of_any_whitespace() {
    assert_eq!(
        Parser::parse_lpr_command("\x03lp\t\x0Ba \x0C\x0C b\n"),
        Ok(LprCommand::SendQueueStateShort(queue("lp"), strings(&["a", "b"])))
    );
}

#[test]
fn whitespace_behind_the_last_filter_is_rejected() {
    assert_eq!(Parser::parse_lpr_command("\x03lp a b \n"), Err(ParseError::Other));
    assert_eq!(Parser::parse_lpr_command("\x05lp root a\t\n"), Err(ParseError::Other));
}

#[test]
fn remove_jobs_with_agent_and_filters() {
    assert_eq!(
        Parser::parse_lpr_command("\x05lp root 12 13\n"),
        Ok(LprCommand::RemoveJobs(queue("lp"), "root".to_string(), strings(&["12", "13"])))
    );
}

#[test]
fn remove_jobs_with_empty_filter_list() {
    assert_eq!(
        Parser::parse_lpr_command("\x05lp root \n"),
        Ok(LprCommand::RemoveJobs(queue("lp"), "root".to_string(), vec![]))
    );
}

#[test]
fn remove_jobs_needs_an_agent_and_whitespace_behind_it() {
    assert_eq!(Parser::parse_lpr_command("\x05lp\n"), Err(ParseError::Other));
    assert_eq!(Parser::parse_lpr_command("\x05lp \n"), Err(ParseError::Other));
    assert_eq!(Parser::parse_lpr_command("\x05lp root\n"), Err(ParseError::Other));
}

#[test]
fn command_without_newline_is_rejected() {
    assert_eq!(Parser::parse_lpr_command("\x01lp"), Err(ParseError::Other));
    assert_eq!(Parser::parse_lpr_command("\x03lp a"), Err(ParseError::Other));
}

#[test]
fn command_with_text_behind_the_newline_is_rejected() {
    assert_eq!(Parser::parse_lpr_command("\x01lp\nx"), Err(ParseError::Other));
    assert_eq!(Parser::parse_lpr_command("\x01lp\n\n"), Err(ParseError::Other));
    assert_eq!(Parser::parse_lpr_command("\x03lp a\n\x03lp a\n"), Err(ParseError::Other));
}

#[test]
fn command_with_unknown_tag_is_rejected() {
    assert_eq!(Parser::parse_lpr_command("\x06lp\n"), Err(ParseError::Other));
    assert_eq!(Parser::parse_lpr_command("lp\n"), Err(ParseError::Other));
    assert_eq!(Parser::parse_lpr_command("\x00lp\n"), Err(ParseError::Other));
}

#[test]
fn empty_command_is_rejected() {
    assert_eq!(Parser::parse_lpr_command(""), Err(ParseError::Other));
    assert_eq!(Parser::parse_lpr_command("\n"), Err(ParseError::Other));
    assert_eq!(Parser::parse_lpr_command("\x01\n"), Err(ParseError::Other));
}

#[test]
fn one_more_character_is_rejected_unless_it_goes_on_with_the_last_token() {
    assert_eq!(Parser::parse_lpr_command("\x01lp \n"), Err(ParseError::Other));
    assert_eq!(Parser::parse_lpr_command("\x01lp\t\n"), Err(ParseError::Other));
    assert_eq!(Parser::parse_lpr_command("\x01lpx\n"), Ok(LprCommand::PrintWaiting(queue("lpx"))));
    assert_eq!(
        Parser::parse_lpr_command("\x03lp  \n"),
        Ok(LprCommand::SendQueueStateShort(queue("lp"), vec![]))
    );
    assert_eq!(
        Parser::parse_lpr_command("\x03lp x\n"),
        Ok(LprCommand::SendQueueStateShort(queue("lp"), strings(&["x"])))
    );
    assert_eq!(Parser::parse_receive_job_subcommand("\x01x\n"), Err(ParseError::Other));
    assert_eq!(Parser::parse_receive_job_subcommand("\x01 \n"), Err(ParseError::Other));
    assert_eq!(Parser::parse_receive_job_subcommand("\x025 cfA \n"), Err(ParseError::Other));
    assert_eq!(
        Parser::parse_receive_job_subcommand("\x025 cfAx\n"),
        Ok(ReceiveJobSubcommand::ReceiveControlFile(5, "cfAx".to_string()))
    );
    assert_eq!(line("I12x\n"), Err(ParseError::Other));
    assert_eq!(line("I12 \n"), Err(ParseError::Other));
    assert_eq!(line("I123\n"), Ok(ControlFileLine::IndentPrinting(123)));
    assert_eq!(line("Hhost \n"), Err(ParseError::Other));
    assert_eq!(line("S1 2 \n"), Err(ParseError::Other));
    assert_eq!(line("S1 2x\n"), Err(ParseError::Other));
    assert_eq!(line("kx\n"), Err(ParseError::Other));
    assert_eq!(line("z \n"), Err(ParseError::Other));
}

#[test]
fn names_keep_every_byte() {
    assert_eq!(
        Parser::parse_lpr_command("\x01l\u{e9}\u{20ac}-p\x01\x7f\n"),
        Ok(LprCommand::PrintWaiting(queue("l\u{e9}\u{20ac}-p\x01\x7f")))
    );
    assert_eq!(line("Jr\u{e9}sum\u{e9}.txt\n"), Ok(ControlFileLine::JobNameForBannerPage(
        "r\u{e9}sum\u{e9}.txt".to_string()
    )));
}

#[test]
fn carriage_return_is_part_of_a_name() {
    assert_eq!(
        Parser::parse_lpr_command("\x01lp\r\n"),
        Ok(LprCommand::PrintWaiting(queue("lp\r")))
    );
}

#[test]
fn abort_job_is_the_tag_alone() {
    assert_eq!(Parser::parse_receive_job_subcommand("\x01\n"), Ok(ReceiveJobSubcommand::AbortJob));
    assert_eq!(Parser::parse_receive_job_subcommand("\x01"), Err(ParseError::Other));
}

#[test]
fn receive_control_file_gives_count_and_name() {
    assert_eq!(
        Parser::parse_receive_job_subcommand("\x025 cfA001host\n"),
        Ok(ReceiveJobSubcommand::ReceiveControlFile(5, "cfA001host".to_string()))
    );
}

#[test]
fn receive_data_file_gives_count_and_name() {
    assert_eq!(
        Parser::parse_receive_job_subcommand("\x03125899 dfA001host\n"),
        Ok(ReceiveJobSubcommand::ReceiveDataFile(125899, "dfA001host".to_string()))
    );
}

#[test]
fn receive_file_with_zero_count() {
    assert_eq!(
        Parser::parse_receive_job_subcommand("\x020 cfA\n"),
        Ok(ReceiveJobSubcommand::ReceiveControlFile(0, "cfA".to_string()))
    );
    assert_eq!(
        Parser::parse_receive_job_subcommand("\x03000 dfA\n"),
        Ok(ReceiveJobSubcommand::ReceiveDataFile(0, "dfA".to_string()))
    );
}

#[test]
fn receive_file_needs_count_whitespace_and_name() {
    assert_eq!(Parser::parse_receive_job_subcommand("\x02 cfA\n"), Err(ParseError::Other));
    assert_eq!(Parser::parse_receive_job_subcommand("\x025\n"), Err(ParseError::Other));
    assert_eq!(Parser::parse_receive_job_subcommand("\x025 \n"), Err(ParseError::Other));
    assert_eq!(Parser::parse_receive_job_subcommand("\x025cfA\n"), Err(ParseError::Other));
    assert_eq!(Parser::parse_receive_job_subcommand("\x02x cfA\n"), Err(ParseError::Other));
    assert_eq!(Parser::parse_receive_job_subcommand("\x02-5 cfA\n"), Err(ParseError::Other));
    assert_eq!(Parser::parse_receive_job_subcommand("\x02+5 cfA\n"), Err(ParseError::Other));
}

#[test]
fn subcommand_with_unknown_tag_is_rejected() {
    assert_eq!(Parser::parse_receive_job_subcommand("\x045 cfA\n"), Err(ParseError::Other));
    assert_eq!(Parser::parse_receive_job_subcommand(""), Err(ParseError::Other));
    assert_eq!(Parser::parse_receive_job_subcommand("\n"), Err(ParseError::Other));
}

#[test]
fn count_takes_the_largest_usize() {
    let largest = format!("\x02{} cfA\n", usize::MAX);
    assert_eq!(
        Parser::parse_receive_job_subcommand(&largest),
        Ok(ReceiveJobSubcommand::ReceiveControlFile(usize::MAX, "cfA".to_string()))
    );
    let leading = format!("W0000000000000000000000000000{}\n", usize::MAX);
    assert_eq!(line(&leading), Ok(ControlFileLine::WidthOfOutput(usize::MAX)));
}

#[test]
fn count_that_overflows_is_rejected() {
    let over = format!("\x02{}0 cfA\n", usize::MAX);
    assert_eq!(Parser::parse_receive_job_subcommand(&over), Err(ParseError::Other));
    assert_eq!(line("I340282366920938463463374607431768211456\n"), Err(ParseError::Other));
    let digits = format!("{}", usize::MAX);
    let (front, last) = digits.split_at(digits.len() - 1);
    let last: u32 = last.parse().unwrap();
    if last < 9 {
        let next = format!("I{}{}\n", front, last + 1);
        assert_eq!(line(&next), Err(ParseError::Other));
    }
}

#[test]
fn control_file_lines_with_a_name() {
    assert_eq!(line("Cclass\n"), Ok(ControlFileLine::ClassForBannerPage("class".to_string())));
    assert_eq!(line("Habc\n"), Ok(ControlFileLine::HostName("abc".to_string())));
    assert_eq!(line("Jjob\n"), Ok(ControlFileLine::JobNameForBannerPage("job".to_string())));
    assert_eq!(line("Muser\n"), Ok(ControlFileLine::MailWhenPrinted("user".to_string())));
    assert_eq!(line("Nfile.txt\n"), Ok(ControlFileLine::NameOfSourceFile("file.txt".to_string())));
    assert_eq!(line("Proot\n"), Ok(ControlFileLine::UserIdentification("root".to_string())));
    assert_eq!(line("Ttitle\n"), Ok(ControlFileLine::TitleForPr("title".to_string())));
    assert_eq!(line("UdfA001host\n"), Ok(ControlFileLine::UnlinkDataFile("dfA001host".to_string())));
}

#[test]
fn control_file_lines_with_a_number() {
    assert_eq!(line("I8\n"), Ok(ControlFileLine::IndentPrinting(8)));
    assert_eq!(line("W132\n"), Ok(ControlFileLine::WidthOfOutput(132)));
    assert_eq!(line("I007\n"), Ok(ControlFileLine::IndentPrinting(7)));
    assert_eq!(line("I\n"), Err(ParseError::Other));
    assert_eq!(line("Wx\n"), Err(ParseError::Other));
}

#[test]
fn symbolic_link_data_has_two_numbers() {
    assert_eq!(line("S2049 131074\n"), Ok(ControlFileLine::SymbolicLinkData(2049, 131074)));
    assert_eq!(line("S1\t \t2\n"), Ok(ControlFileLine::SymbolicLinkData(1, 2)));
    assert_eq!(line("S1\n"), Err(ParseError::Other));
    assert_eq!(line("S1 \n"), Err(ParseError::Other));
    assert_eq!(line("S 1 2\n"), Err(ParseError::Other));
}

#[test]
fn troff_fonts_by_their_digit() {
    assert_eq!(line("1roman\n"), Ok(ControlFileLine::TroffFont(TroffFontKind::R, "roman".to_string())));
    assert_eq!(line("2italic\n"), Ok(ControlFileLine::TroffFont(TroffFontKind::I, "italic".to_string())));
    assert_eq!(line("3bold\n"), Ok(ControlFileLine::TroffFont(TroffFontKind::B, "bold".to_string())));
    assert_eq!(line("4special\n"), Ok(ControlFileLine::TroffFont(TroffFontKind::S, "special".to_string())));
    assert_eq!(line("5other\n"), Err(ParseError::Other));
}

#[test]
fn print_files_by_their_letter() {
    let f = "dfA".to_string();
    assert_eq!(line("LdfA\n"), Ok(ControlFileLine::PrintFile(PrintKind::BannerPage, f.clone())));
    assert_eq!(line("fdfA\n"), Ok(ControlFileLine::PrintFile(PrintKind::FormattedFile, f.clone())));
    assert_eq!(
        line("ldfA\n"),
        Ok(ControlFileLine::PrintFile(PrintKind::FileLeavingControlCharacters, f.clone()))
    );
    assert_eq!(line("ndfA\n"), Ok(ControlFileLine::PrintFile(PrintKind::DitroffOutputFile, f.clone())));
    assert_eq!(
        line("odfA\n"),
        Ok(ControlFileLine::PrintFile(PrintKind::PostscriptOutputFile, f.clone()))
    );
    assert_eq!(line("pdfA\n"), Ok(ControlFileLine::PrintFile(PrintKind::FileWithPrFormat, f.clone())));
    assert_eq!(
        line("rdfA\n"),
        Ok(ControlFileLine::PrintFile(PrintKind::FileWithFortranCarriageControl, f.clone()))
    );
    assert_eq!(line("tdfA\n"), Ok(ControlFileLine::PrintFile(PrintKind::TroffOutputFile, f.clone())));
    assert_eq!(line("vdfA\n"), Ok(ControlFileLine::PrintFile(PrintKind::RasterFile, f.clone())));
}

#[test]
fn plot_files_by_their_letter() {
    let f = "dfA".to_string();
    assert_eq!(line("cdfA\n"), Ok(ControlFileLine::PlotFile(PlotKind::CifFile, f.clone())));
    assert_eq!(line("ddfA\n"), Ok(ControlFileLine::PlotFile(PlotKind::DviFile, f.clone())));
}

#[test]
fn letter_g_plots_a_cif_file() {
    assert_eq!(line("gdfA\n"), Ok(ControlFileLine::PlotFile(PlotKind::CifFile, "dfA".to_string())));
}

#[test]
fn reserved_letters_stand_alone_before_the_newline() {
    assert_eq!(line("k\n"), Ok(ControlFileLine::ReservedK));
    assert_eq!(line("z\n"), Ok(ControlFileLine::ReservedZ));
    assert_eq!(line("k"), Err(ParseError::Other));
    assert_eq!(line("z"), Err(ParseError::Other));
    assert_eq!(line("kk\n"), Err(ParseError::Other));
    assert_eq!(line("k\nz\n"), Err(ParseError::Other));
}

#[test]
fn control_file_line_without_payload_is_rejected() {
    assert_eq!(line("C\n"), Err(ParseError::Other));
    assert_eq!(line("H\n"), Err(ParseError::Other));
    assert_eq!(line("1\n"), Err(ParseError::Other));
    assert_eq!(line("f\n"), Err(ParseError::Other));
    assert_eq!(line("c\n"), Err(ParseError::Other));
}

#[test]
fn control_file_line_with_unknown_letter_is_rejected() {
    assert_eq!(line("Xabc\n"), Err(ParseError::Other));
    assert_eq!(line("habc\n"), Err(ParseError::Other));
    assert_eq!(line(" Habc\n"), Err(ParseError::Other));
    assert_eq!(line(""), Err(ParseError::Other));
    assert_eq!(line("\n"), Err(ParseError::Other));
}

#[test]
fn control_file_line_with_text_behind_the_newline_is_rejected() {
    assert_eq!(line("Habc\nHdef\n"), Err(ParseError::Other));
    assert_eq!(line("Habc\n "), Err(ParseError::Other));
    assert_eq!(line("I1\n2"), Err(ParseError::Other));
}

#[test]
fn name_with_whitespace_inside_is_rejected() {
    assert_eq!(line("Hab c\n"), Err(ParseError::Other));
    assert_eq!(line("Jmy job\n"), Err(ParseError::Other));
    assert_eq!(Parser::parse_lpr_command("\x01l p\n"), Err(ParseError::Other));
}

#[test]
fn each_wire_form_is_read_back() {
    let commands = vec![
        LprCommand::PrintWaiting(queue("lp")),
        LprCommand::ReceivePrinterJob(queue("lp")),
        LprCommand::SendQueueStateShort(queue("q"), strings(&["a", "b"])),
        LprCommand::SendQueueStateLong(queue("q"), vec![]),
        LprCommand::RemoveJobs(queue("q"), "agent".to_string(), strings(&["1"])),
    ];
    for c in commands {
        let text = match &c {
            LprCommand::PrintWaiting(q) => format!("\x01{}\n", q.0),
            LprCommand::ReceivePrinterJob(q) => format!("\x02{}\n", q.0),
            LprCommand::SendQueueStateShort(q, l) => format!("\x03{} {}\n", q.0, l.join(" ")),
            LprCommand::SendQueueStateLong(q, l) => format!("\x04{} {}\n", q.0, l.join(" ")),
            LprCommand::RemoveJobs(q, a, l) => format!("\x05{} {} {}\n", q.0, a, l.join(" ")),
        };
        assert_eq!(Parser::parse_lpr_command(&text), Ok(c));
    }
    let subcommands = vec![
        ReceiveJobSubcommand::AbortJob,
        ReceiveJobSubcommand::ReceiveControlFile(74, "cfA001host".to_string()),
        ReceiveJobSubcommand::ReceiveDataFile(0, "dfA001host".to_string()),
    ];
    for c in subcommands {
        let text = match &c {
            ReceiveJobSubcommand::AbortJob => "\x01\n".to_string(),
            ReceiveJobSubcommand::ReceiveControlFile(n, f) => format!("\x02{} {}\n", n, f),
            ReceiveJobSubcommand::ReceiveDataFile(n, f) => format!("\x03{} {}\n", n, f),
        };
        assert_eq!(Parser::parse_receive_job_subcommand(&text), Ok(c));
    }
}
