//! The productions, over the lexical tokens.

mod lexer;
pub mod util;

use vstd::prelude::*;
use crate::lpd::{
    names, ControlFileLine, LprCommand, PlotKind, PrintKind, QueueName, ReceiveJobSubcommand,
    TroffFontKind,
};
use crate::parse::grammar;
use crate::parse::grammar::yields;
use crate::parse::raw::util::{
    at_line_end, count_line_parser, count_parser, filters_line_parser, name_line_parser,
    mini_parser, octet_seq_parser, simple_count_line_parser, simple_line_parser, tagged,
    whitespace_parser,
};

verus! {

fn print_waiting_parser(i: &str) -> (r: Option<LprCommand>)
    ensures
        yields(r, grammar::print_waiting(i@)),
{
    proof {
        reveal_strlit("\x01");
        assert("\x01"@ =~= seq!['\x01']);
    }
    match simple_line_parser("\x01", i) {
        Some(s) => Some(LprCommand::PrintWaiting(QueueName(s.to_owned()))),
        None => None,
    }
}

fn receive_printer_job_parser(i: &str) -> (r: Option<LprCommand>)
    ensures
        yields(r, grammar::receive_printer_job(i@)),
{
    proof {
        reveal_strlit("\x02");
        assert("\x02"@ =~= seq!['\x02']);
    }
    match simple_line_parser("\x02", i) {
        Some(s) => Some(LprCommand::ReceivePrinterJob(QueueName(s.to_owned()))),
        None => None,
    }
}

/// The tag `tag_text`, a queue, whitespace, a filter list, the end of the
/// line: the queue and the names.
fn send_queue_state_parser(tag_text: &str, i: &str) -> (r: Option<(String, Vec<String>)>)
    ensures
        match r {
            Some((q, l)) => grammar::queue_state_line(tag_text@, i@) == Some((q@, names(l@))),
            None => grammar::queue_state_line(tag_text@, i@) is None,
        },
{
    match tagged(tag_text, i) {
        Some(rest) => match octet_seq_parser(rest) {
            Some((rest, s)) => match filters_line_parser(rest) {
                Some(list) => Some((s.to_owned(), list)),
                None => None,
            },
            None => None,
        },
        None => None,
    }
}

fn send_queue_state_short_parser(i: &str) -> (r: Option<LprCommand>)
    ensures
        yields(r, grammar::send_queue_state_short(i@)),
{
    proof {
        reveal_strlit("\x03");
        assert("\x03"@ =~= seq!['\x03']);
    }
    match send_queue_state_parser("\x03", i) {
        Some((s, l)) => Some(LprCommand::SendQueueStateShort(QueueName(s), l)),
        None => None,
    }
}

fn send_queue_state_long_parser(i: &str) -> (r: Option<LprCommand>)
    ensures
        yields(r, grammar::send_queue_state_long(i@)),
{
    proof {
        reveal_strlit("\x04");
        assert("\x04"@ =~= seq!['\x04']);
    }
    match send_queue_state_parser("\x04", i) {
        Some((s, l)) => Some(LprCommand::SendQueueStateLong(QueueName(s), l)),
        None => None,
    }
}

fn remove_jobs_parser(i: &str) -> (r: Option<LprCommand>)
    ensures
        yields(r, grammar::remove_jobs(i@)),
{
    proof {
        reveal_strlit("\x05");
        assert("\x05"@ =~= seq!['\x05']);
    }
    let rest = match tagged("\x05", i) {
        Some(rest) => rest,
        None => {
            return None;
        },
    };
    let (rest, s) = match octet_seq_parser(rest) {
        Some(found) => found,
        None => {
            return None;
        },
    };
    let rest = match whitespace_parser(rest) {
        Some((rest, _)) => rest,
        None => {
            return None;
        },
    };
    let (rest, a) = match octet_seq_parser(rest) {
        Some(found) => found,
        None => {
            return None;
        },
    };
    match filters_line_parser(rest) {
        Some(list) => Some(LprCommand::RemoveJobs(QueueName(s.to_owned()), a.to_owned(), list)),
        None => None,
    }
}

/// The tag `tag_text` and the end of the line.
fn bare_line_parser(tag_text: &str, i: &str) -> (b: bool)
    ensures
        b == grammar::bare_line(tag_text@, i@),
{
    match tagged(tag_text, i) {
        Some(rest) => at_line_end(rest),
        None => false,
    }
}

fn abort_job_parser(i: &str) -> (r: Option<ReceiveJobSubcommand>)
    ensures
        yields(r, grammar::abort_job(i@)),
{
    proof {
        reveal_strlit("\x01");
        assert("\x01"@ =~= seq!['\x01']);
    }
    if bare_line_parser("\x01", i) {
        Some(ReceiveJobSubcommand::AbortJob)
    } else {
        None
    }
}

/// The tag `tag_str`, a count, whitespace, a name, the end of the line: the
/// number and the name.
fn receive_file_parser<'a>(tag_str: &str, i: &'a str) -> (r: Option<(usize, &'a str)>)
    ensures
        match r {
            Some((c, n)) => grammar::receive_file_line(tag_str@, i@) == Some((c, n@)),
            None => grammar::receive_file_line(tag_str@, i@) is None,
        },
{
    let rest = match tagged(tag_str, i) {
        Some(rest) => rest,
        None => {
            return None;
        },
    };
    let (rest, c) = match count_parser(rest) {
        Some(found) => found,
        None => {
            return None;
        },
    };
    let rest = match whitespace_parser(rest) {
        Some((rest, _)) => rest,
        None => {
            return None;
        },
    };
    match name_line_parser(rest) {
        Some(n) => Some((c, n)),
        None => None,
    }
}

fn receive_control_file_parser(i: &str) -> (r: Option<ReceiveJobSubcommand>)
    ensures
        yields(r, grammar::receive_control_file(i@)),
{
    proof {
        reveal_strlit("\x02");
        assert("\x02"@ =~= seq!['\x02']);
    }
    match receive_file_parser("\x02", i) {
        Some((c, n)) => Some(ReceiveJobSubcommand::ReceiveControlFile(c, n.to_owned())),
        None => None,
    }
}

fn receive_data_file_parser(i: &str) -> (r: Option<ReceiveJobSubcommand>)
    ensures
        yields(r, grammar::receive_data_file(i@)),
{
    proof {
        reveal_strlit("\x03");
        assert("\x03"@ =~= seq!['\x03']);
    }
    match receive_file_parser("\x03", i) {
        Some((c, n)) => Some(ReceiveJobSubcommand::ReceiveDataFile(c, n.to_owned())),
        None => None,
    }
}

/// A line of the job subprotocol: the first alternative that takes all of `i`.
pub fn receive_job_subcommand_parser(i: &str) -> (r: Option<ReceiveJobSubcommand>)
    ensures
        yields(r, grammar::receive_job_subcommand(i@)),
{
    let r = abort_job_parser(i);
    if r.is_some() {
        return r;
    }
    let r = receive_control_file_parser(i);
    if r.is_some() {
        return r;
    }
    receive_data_file_parser(i)
}

/// A top-level line: the first alternative that takes all of `i`.
pub fn lpr_command_parser(i: &str) -> (r: Option<LprCommand>)
    ensures
        yields(r, grammar::lpr_command(i@)),
{
    let r = print_waiting_parser(i);
    if r.is_some() {
        return r;
    }
    let r = receive_printer_job_parser(i);
    if r.is_some() {
        return r;
    }
    let r = send_queue_state_short_parser(i);
    if r.is_some() {
        return r;
    }
    let r = send_queue_state_long_parser(i);
    if r.is_some() {
        return r;
    }
    remove_jobs_parser(i)
}

fn class_for_banner_page_parser(i: &str) -> (r: Option<ControlFileLine>)
    ensures
        yields(r, grammar::class_for_banner_page(i@)),
{
    proof {
        reveal_strlit("C");
        assert("C"@ =~= seq!['C']);
    }
    match simple_line_parser("C", i) {
        Some(s) => Some(ControlFileLine::ClassForBannerPage(s.to_owned())),
        None => None,
    }
}

fn host_name_parser(i: &str) -> (r: Option<ControlFileLine>)
    ensures
        yields(r, grammar::host_name(i@)),
{
    proof {
        reveal_strlit("H");
        assert("H"@ =~= seq!['H']);
    }
    match simple_line_parser("H", i) {
        Some(s) => Some(ControlFileLine::HostName(s.to_owned())),
        None => None,
    }
}

fn indent_printing_parser(i: &str) -> (r: Option<ControlFileLine>)
    ensures
        yields(r, grammar::indent_printing(i@)),
{
    proof {
        reveal_strlit("I");
        assert("I"@ =~= seq!['I']);
    }
    match simple_count_line_parser("I", i) {
        Some(c) => Some(ControlFileLine::IndentPrinting(c)),
        None => None,
    }
}

fn job_name_for_banner_page_parser(i: &str) -> (r: Option<ControlFileLine>)
    ensures
        yields(r, grammar::job_name_for_banner_page(i@)),
{
    proof {
        reveal_strlit("J");
        assert("J"@ =~= seq!['J']);
    }
    match simple_line_parser("J", i) {
        Some(s) => Some(ControlFileLine::JobNameForBannerPage(s.to_owned())),
        None => None,
    }
}

fn mail_when_printed_parser(i: &str) -> (r: Option<ControlFileLine>)
    ensures
        yields(r, grammar::mail_when_printed(i@)),
{
    proof {
        reveal_strlit("M");
        assert("M"@ =~= seq!['M']);
    }
    match simple_line_parser("M", i) {
        Some(s) => Some(ControlFileLine::MailWhenPrinted(s.to_owned())),
        None => None,
    }
}

fn name_of_source_file_parser(i: &str) -> (r: Option<ControlFileLine>)
    ensures
        yields(r, grammar::name_of_source_file(i@)),
{
    proof {
        reveal_strlit("N");
        assert("N"@ =~= seq!['N']);
    }
    match simple_line_parser("N", i) {
        Some(s) => Some(ControlFileLine::NameOfSourceFile(s.to_owned())),
        None => None,
    }
}

fn user_identification_parser(i: &str) -> (r: Option<ControlFileLine>)
    ensures
        yields(r, grammar::user_identification(i@)),
{
    proof {
        reveal_strlit("P");
        assert("P"@ =~= seq!['P']);
    }
    match simple_line_parser("P", i) {
        Some(s) => Some(ControlFileLine::UserIdentification(s.to_owned())),
        None => None,
    }
}

fn symbolic_link_data_parser(i: &str) -> (r: Option<ControlFileLine>)
    ensures
        yields(r, grammar::symbolic_link_data(i@)),
{
    proof {
        reveal_strlit("S");
        assert("S"@ =~= seq!['S']);
    }
    let rest = match tagged("S", i) {
        Some(rest) => rest,
        None => {
            return None;
        },
    };
    let (rest, l) = match count_parser(rest) {
        Some(found) => found,
        None => {
            return None;
        },
    };
    let rest = match whitespace_parser(rest) {
        Some((rest, _)) => rest,
        None => {
            return None;
        },
    };
    match count_line_parser(rest) {
        Some(r) => Some(ControlFileLine::SymbolicLinkData(l, r)),
        None => None,
    }
}

fn title_for_pr_parser(i: &str) -> (r: Option<ControlFileLine>)
    ensures
        yields(r, grammar::title_for_pr(i@)),
{
    proof {
        reveal_strlit("T");
        assert("T"@ =~= seq!['T']);
    }
    match simple_line_parser("T", i) {
        Some(s) => Some(ControlFileLine::TitleForPr(s.to_owned())),
        None => None,
    }
}

fn unlink_data_file_parser(i: &str) -> (r: Option<ControlFileLine>)
    ensures
        yields(r, grammar::unlink_data_file(i@)),
{
    proof {
        reveal_strlit("U");
        assert("U"@ =~= seq!['U']);
    }
    match simple_line_parser("U", i) {
        Some(s) => Some(ControlFileLine::UnlinkDataFile(s.to_owned())),
        None => None,
    }
}

fn width_of_output_parser(i: &str) -> (r: Option<ControlFileLine>)
    ensures
        yields(r, grammar::width_of_output(i@)),
{
    proof {
        reveal_strlit("W");
        assert("W"@ =~= seq!['W']);
    }
    match simple_count_line_parser("W", i) {
        Some(c) => Some(ControlFileLine::WidthOfOutput(c)),
        None => None,
    }
}

fn troff_font_kind_parser(i: &str) -> (r: Option<(&str, TroffFontKind)>)
    ensures
        match r {
            Some((rest, k)) => grammar::troff_font_kind(i@) == Some((k, rest@)),
            None => grammar::troff_font_kind(i@) is None,
        },
{
    proof {
        reveal_strlit("1");
        assert("1"@ =~= seq!['1']);
        reveal_strlit("2");
        assert("2"@ =~= seq!['2']);
        reveal_strlit("3");
        assert("3"@ =~= seq!['3']);
        reveal_strlit("4");
        assert("4"@ =~= seq!['4']);
    }
    let r = mini_parser("1", TroffFontKind::R, i);
    if r.is_some() {
        return r;
    }
    let r = mini_parser("2", TroffFontKind::I, i);
    if r.is_some() {
        return r;
    }
    let r = mini_parser("3", TroffFontKind::B, i);
    if r.is_some() {
        return r;
    }
    let r = mini_parser("4", TroffFontKind::S, i);
    if r.is_some() {
        return r;
    }
    None
}

fn print_kind_parser(i: &str) -> (r: Option<(&str, PrintKind)>)
    ensures
        match r {
            Some((rest, k)) => grammar::print_kind(i@) == Some((k, rest@)),
            None => grammar::print_kind(i@) is None,
        },
{
    proof {
        reveal_strlit("L");
        assert("L"@ =~= seq!['L']);
        reveal_strlit("f");
        assert("f"@ =~= seq!['f']);
        reveal_strlit("l");
        assert("l"@ =~= seq!['l']);
        reveal_strlit("n");
        assert("n"@ =~= seq!['n']);
        reveal_strlit("o");
        assert("o"@ =~= seq!['o']);
        reveal_strlit("p");
        assert("p"@ =~= seq!['p']);
        reveal_strlit("r");
        assert("r"@ =~= seq!['r']);
        reveal_strlit("t");
        assert("t"@ =~= seq!['t']);
        reveal_strlit("v");
        assert("v"@ =~= seq!['v']);
    }
    let r = mini_parser("L", PrintKind::BannerPage, i);
    if r.is_some() {
        return r;
    }
    let r = mini_parser("f", PrintKind::FormattedFile, i);
    if r.is_some() {
        return r;
    }
    let r = mini_parser("l", PrintKind::FileLeavingControlCharacters, i);
    if r.is_some() {
        return r;
    }
    let r = mini_parser("n", PrintKind::DitroffOutputFile, i);
    if r.is_some() {
        return r;
    }
    let r = mini_parser("o", PrintKind::PostscriptOutputFile, i);
    if r.is_some() {
        return r;
    }
    let r = mini_parser("p", PrintKind::FileWithPrFormat, i);
    if r.is_some() {
        return r;
    }
    let r = mini_parser("r", PrintKind::FileWithFortranCarriageControl, i);
    if r.is_some() {
        return r;
    }
    let r = mini_parser("t", PrintKind::TroffOutputFile, i);
    if r.is_some() {
        return r;
    }
    let r = mini_parser("v", PrintKind::RasterFile, i);
    if r.is_some() {
        return r;
    }
    None
}

fn plot_kind_parser(i: &str) -> (r: Option<(&str, PlotKind)>)
    ensures
        match r {
            Some((rest, k)) => grammar::plot_kind(i@) == Some((k, rest@)),
            None => grammar::plot_kind(i@) is None,
        },
{
    proof {
        reveal_strlit("c");
        assert("c"@ =~= seq!['c']);
        reveal_strlit("d");
        assert("d"@ =~= seq!['d']);
        reveal_strlit("g");
        assert("g"@ =~= seq!['g']);
    }
    let r = mini_parser("c", PlotKind::CifFile, i);
    if r.is_some() {
        return r;
    }
    let r = mini_parser("d", PlotKind::DviFile, i);
    if r.is_some() {
        return r;
    }
    let r = mini_parser("g", PlotKind::CifFile, i);
    if r.is_some() {
        return r;
    }
    None
}

/// After a kind, found by its own parser: a name and the end of the line.
fn kinded_simple_line<'a, K>(kind: Option<(&'a str, K)>) -> (r: Option<(K, &'a str)>)
    ensures
        match kind {
            Some((rest, k)) => match r {
                Some((found, s)) => grammar::kinded_line(Some((k, rest@))) == Some((found, s@)),
                None => grammar::kinded_line(Some((k, rest@))) is None,
            },
            None => r is None,
        },
{
    match kind {
        Some((rest, k)) => match name_line_parser(rest) {
            Some(s) => Some((k, s)),
            None => None,
        },
        None => None,
    }
}

fn troff_font_parser(i: &str) -> (r: Option<ControlFileLine>)
    ensures
        yields(r, grammar::troff_font(i@)),
{
    match kinded_simple_line(troff_font_kind_parser(i)) {
        Some((k, s)) => Some(ControlFileLine::TroffFont(k, s.to_owned())),
        None => None,
    }
}

fn print_file_parser(i: &str) -> (r: Option<ControlFileLine>)
    ensures
        yields(r, grammar::print_file(i@)),
{
    match kinded_simple_line(print_kind_parser(i)) {
        Some((k, s)) => Some(ControlFileLine::PrintFile(k, s.to_owned())),
        None => None,
    }
}

fn plot_file_parser(i: &str) -> (r: Option<ControlFileLine>)
    ensures
        yields(r, grammar::plot_file(i@)),
{
    match kinded_simple_line(plot_kind_parser(i)) {
        Some((k, s)) => Some(ControlFileLine::PlotFile(k, s.to_owned())),
        None => None,
    }
}

fn reserved_k_parser(i: &str) -> (r: Option<ControlFileLine>)
    ensures
        yields(r, grammar::reserved_k(i@)),
{
    proof {
        reveal_strlit("k");
        assert("k"@ =~= seq!['k']);
    }
    if bare_line_parser("k", i) {
        Some(ControlFileLine::ReservedK)
    } else {
        None
    }
}

fn reserved_z_parser(i: &str) -> (r: Option<ControlFileLine>)
    ensures
        yields(r, grammar::reserved_z(i@)),
{
    proof {
        reveal_strlit("z");
        assert("z"@ =~= seq!['z']);
    }
    if bare_line_parser("z", i) {
        Some(ControlFileLine::ReservedZ)
    } else {
        None
    }
}

/// A line of a control file: the first alternative that takes all of `i`.
pub fn control_file_line_parser(i: &str) -> (r: Option<ControlFileLine>)
    ensures
        yields(r, grammar::control_file_line(i@)),
{
    let r = class_for_banner_page_parser(i);
    if r.is_some() {
        return r;
    }
    let r = host_name_parser(i);
    if r.is_some() {
        return r;
    }
    let r = indent_printing_parser(i);
    if r.is_some() {
        return r;
    }
    let r = job_name_for_banner_page_parser(i);
    if r.is_some() {
        return r;
    }
    let r = mail_when_printed_parser(i);
    if r.is_some() {
        return r;
    }
    let r = name_of_source_file_parser(i);
    if r.is_some() {
        return r;
    }
    let r = user_identification_parser(i);
    if r.is_some() {
        return r;
    }
    let r = symbolic_link_data_parser(i);
    if r.is_some() {
        return r;
    }
    let r = title_for_pr_parser(i);
    if r.is_some() {
        return r;
    }
    let r = unlink_data_file_parser(i);
    if r.is_some() {
        return r;
    }
    let r = width_of_output_parser(i);
    if r.is_some() {
        return r;
    }
    let r = troff_font_parser(i);
    if r.is_some() {
        return r;
    }
    let r = print_file_parser(i);
    if r.is_some() {
        return r;
    }
    let r = plot_file_parser(i);
    if r.is_some() {
        return r;
    }
    let r = reserved_k_parser(i);
    if r.is_some() {
        return r;
    }
    reserved_z_parser(i)
}

} // verus!
