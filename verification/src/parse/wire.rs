//! The text that writes a value, and that the grammar reads back as that
//! value.

use vstd::prelude::*;
use crate::lpd::{
    ControlFileLineModel, LprCommandModel, PlotKind, PrintKind, ReceiveJobSubcommandModel,
    TroffFontKind,
};
use crate::parse::grammar::{
    after_tag, class_for_banner_page, control_file_line, count, decimal_value, digit_value,
    filter_list, filters_line, host_name, is_digit, job_name_for_banner_page, lpr_command,
    mail_when_printed, more_names, name_line, name_of_source_file, octet_seq, plot_file,
    plot_kind, print_file, print_kind, print_waiting, receive_control_file,
    receive_job_subcommand, receive_printer_job, send_queue_state_long, send_queue_state_short,
    title_for_pr, troff_font, troff_font_kind, unlink_data_file, user_identification, whitespace,
};
use crate::parse::tokens::{
    is_digits, is_name, lemma_count_line, lemma_count_of, lemma_decimal_value_push,
    lemma_name_line, lemma_octet_seq_of, lemma_octet_seq_split, lemma_whitespace_of,
    lemma_whitespace_split,
};
use crate::parse::trailing::lemma_tags;

verus! {

/// The digit that counts for `d`, which is under ten.
pub open spec fn digit_char(d: nat) -> char {
    if d == 0 {
        '0'
    } else if d == 1 {
        '1'
    } else if d == 2 {
        '2'
    } else if d == 3 {
        '3'
    } else if d == 4 {
        '4'
    } else if d == 5 {
        '5'
    } else if d == 6 {
        '6'
    } else if d == 7 {
        '7'
    } else if d == 8 {
        '8'
    } else {
        '9'
    }
}

/// The digits that write `n`, without a leading zero.
pub open spec fn decimal(n: nat) -> Seq<char>
    decreases n,
{
    if n < 10 {
        seq![digit_char(n)]
    } else {
        decimal(n / 10).push(digit_char(n % 10))
    }
}

/// The digits of `n` write `n`.
pub proof fn lemma_decimal(n: nat)
    ensures
        is_digits(decimal(n)),
        decimal_value(decimal(n)) == n,
    decreases n,
{
    if n < 10 {
        let c = digit_char(n);
        assert(seq![c] =~= Seq::<char>::empty().push(c));
        lemma_decimal_value_push(Seq::empty(), c);
        assert(decimal_value(Seq::<char>::empty()) == 0);
        assert(digit_value(c) == n);
    } else {
        lemma_decimal(n / 10);
        let front = decimal(n / 10);
        let c = digit_char(n % 10);
        lemma_decimal_value_push(front, c);
        assert(digit_value(c) == n % 10);
        assert forall|k: int| 0 <= k < front.push(c).len() implies is_digit(
            #[trigger] front.push(c)[k],
        ) by {
            if k < front.len() {
                assert(front.push(c)[k] == front[k]);
            }
        }
    }
}

/// Whether each of `l` is a name.
pub open spec fn are_names(l: Seq<Seq<char>>) -> bool {
    forall|i: int| 0 <= i < l.len() ==> is_name(#[trigger] l[i])
}

/// Each name of `l` behind one space.
pub open spec fn spaced(l: Seq<Seq<char>>) -> Seq<char>
    decreases l.len(),
{
    if l.len() == 0 {
        Seq::empty()
    } else {
        seq![' '] + (l[0] + spaced(l.skip(1)))
    }
}

/// The names of `l` with one space between two of them.
pub open spec fn list_wire(l: Seq<Seq<char>>) -> Seq<char> {
    if l.len() == 0 {
        Seq::empty()
    } else {
        l[0] + spaced(l.skip(1))
    }
}

proof fn lemma_spaced_front(l: Seq<Seq<char>>, rest: Seq<char>)
    requires
        rest.len() > 0,
        rest[0] == '\n',
    ensures
        (spaced(l) + rest).len() > 0,
        (spaced(l) + rest)[0] == ' ' || (spaced(l) + rest)[0] == '\n',
{
    if l.len() == 0 {
        assert(spaced(l) + rest =~= rest);
    }
}

proof fn lemma_more_names_of(l: Seq<Seq<char>>, rest: Seq<char>)
    requires
        are_names(l),
        rest.len() > 0,
        rest[0] == '\n',
    ensures
        more_names(spaced(l) + rest) == (l, rest),
    decreases l.len(),
{
    let s = spaced(l) + rest;
    if l.len() == 0 {
        assert(s =~= rest);
        lemma_whitespace_split(s);
        assert(l =~= Seq::<Seq<char>>::empty());
    } else {
        let tail = l.skip(1);
        let r2 = spaced(tail) + rest;
        let r1 = l[0] + r2;
        assert(s =~= seq![' '] + r1);
        assert(r1[0] == l[0][0]);
        lemma_whitespace_of(seq![' '], r1);
        lemma_spaced_front(tail, rest);
        lemma_octet_seq_of(l[0], r2);
        assert(are_names(tail)) by {
            assert forall|i: int| 0 <= i < tail.len() implies is_name(#[trigger] tail[i]) by {
                assert(tail[i] == l[i + 1]);
            }
        }
        lemma_more_names_of(tail, rest);
        assert(seq![l[0]] + tail =~= l);
    }
}

proof fn lemma_filter_list_of(l: Seq<Seq<char>>, rest: Seq<char>)
    requires
        are_names(l),
        rest.len() > 0,
        rest[0] == '\n',
    ensures
        filter_list(list_wire(l) + rest) == (l, rest),
{
    let s = list_wire(l) + rest;
    if l.len() == 0 {
        assert(s =~= rest);
        lemma_octet_seq_split(s);
        assert(l =~= Seq::<Seq<char>>::empty());
    } else {
        let tail = l.skip(1);
        let r = spaced(tail) + rest;
        assert(s =~= l[0] + r);
        lemma_spaced_front(tail, rest);
        lemma_octet_seq_of(l[0], r);
        assert(are_names(tail)) by {
            assert forall|i: int| 0 <= i < tail.len() implies is_name(#[trigger] tail[i]) by {
                assert(tail[i] == l[i + 1]);
            }
        }
        lemma_more_names_of(tail, rest);
        assert(seq![l[0]] + tail =~= l);
    }
}

/// One space, the names and the newline are read as the names.
proof fn lemma_filters_line_of(l: Seq<Seq<char>>)
    requires
        are_names(l),
    ensures
        filters_line(seq![' '] + (list_wire(l) + seq!['\n'])) == Some(l),
{
    let end = seq!['\n'];
    let r = list_wire(l) + end;
    if l.len() == 0 {
        assert(r =~= end);
    } else {
        assert(r[0] == l[0][0]);
    }
    lemma_whitespace_of(seq![' '], r);
    lemma_filter_list_of(l, end);
}

impl LprCommandModel {
    /// Whether the queue, the agent and the filters are names.
    pub open spec fn valid(self) -> bool {
        match self {
            LprCommandModel::PrintWaiting(q) => is_name(q),
            LprCommandModel::ReceivePrinterJob(q) => is_name(q),
            LprCommandModel::SendQueueStateShort(q, l) => is_name(q) && are_names(l),
            LprCommandModel::SendQueueStateLong(q, l) => is_name(q) && are_names(l),
            LprCommandModel::RemoveJobs(q, a, l) => is_name(q) && is_name(a) && are_names(l),
        }
    }

    /// The line that writes the command, with one space wherever whitespace
    /// is due.
    pub open spec fn wire(self) -> Seq<char> {
        match self {
            LprCommandModel::PrintWaiting(q) => seq!['\x01'] + q.push('\n'),
            LprCommandModel::ReceivePrinterJob(q) => seq!['\x02'] + q.push('\n'),
            LprCommandModel::SendQueueStateShort(q, l) => seq!['\x03'] + (q + (seq![' '] + (
            list_wire(l) + seq!['\n']))),
            LprCommandModel::SendQueueStateLong(q, l) => seq!['\x04'] + (q + (seq![' '] + (
            list_wire(l) + seq!['\n']))),
            LprCommandModel::RemoveJobs(q, a, l) => seq!['\x05'] + (q + (seq![' '] + (a + (seq![
                ' ',
            ] + (list_wire(l) + seq!['\n']))))),
        }
    }
}

/// The line that writes a command is read as that command.
pub proof fn lemma_lpr_command_round_trip(c: LprCommandModel)
    requires
        c.valid(),
    ensures
        lpr_command(c.wire()) == Some(c),
{
    let s = c.wire();
    lemma_tags(s);
    match c {
        LprCommandModel::PrintWaiting(q) => {
            assert(s.skip(1) =~= q.push('\n'));
            lemma_name_line(q);
        },
        LprCommandModel::ReceivePrinterJob(q) => {
            assert(s.skip(1) =~= q.push('\n'));
            lemma_name_line(q);
        },
        LprCommandModel::SendQueueStateShort(q, l) => {
            let r1 = seq![' '] + (list_wire(l) + seq!['\n']);
            assert(s.skip(1) =~= q + r1);
            lemma_octet_seq_of(q, r1);
            lemma_filters_line_of(l);
        },
        LprCommandModel::SendQueueStateLong(q, l) => {
            let r1 = seq![' '] + (list_wire(l) + seq!['\n']);
            assert(s.skip(1) =~= q + r1);
            lemma_octet_seq_of(q, r1);
            lemma_filters_line_of(l);
        },
        LprCommandModel::RemoveJobs(q, a, l) => {
            let r3 = seq![' '] + (list_wire(l) + seq!['\n']);
            let r2 = a + r3;
            let r1 = seq![' '] + r2;
            assert(s.skip(1) =~= q + r1);
            lemma_octet_seq_of(q, r1);
            assert(r2[0] == a[0]);
            lemma_whitespace_of(seq![' '], r2);
            lemma_octet_seq_of(a, r3);
            lemma_filters_line_of(l);
        },
    }
}

impl ReceiveJobSubcommandModel {
    /// Whether the file's name is a name.
    pub open spec fn valid(self) -> bool {
        match self {
            ReceiveJobSubcommandModel::AbortJob => true,
            ReceiveJobSubcommandModel::ReceiveControlFile(_, name) => is_name(name),
            ReceiveJobSubcommandModel::ReceiveDataFile(_, name) => is_name(name),
        }
    }

    /// The line that writes the subcommand, with one space between the count
    /// and the name.
    pub open spec fn wire(self) -> Seq<char> {
        match self {
            ReceiveJobSubcommandModel::AbortJob => seq!['\x01', '\n'],
            ReceiveJobSubcommandModel::ReceiveControlFile(n, name) => seq!['\x02'] + (decimal(
                n as nat,
            ) + (seq![' '] + name.push('\n'))),
            ReceiveJobSubcommandModel::ReceiveDataFile(n, name) => seq!['\x03'] + (decimal(
                n as nat,
            ) + (seq![' '] + name.push('\n'))),
        }
    }
}

proof fn lemma_receive_file_of(n: usize, name: Seq<char>, r: Seq<char>)
    requires
        is_name(name),
        r == decimal(n as nat) + (seq![' '] + name.push('\n')),
    ensures
        count(r) == Some((n, seq![' '] + name.push('\n'))),
        whitespace(seq![' '] + name.push('\n')) == Some(name.push('\n')),
        name_line(name.push('\n')) == Some(name),
{
    let r2 = name.push('\n');
    let r1 = seq![' '] + r2;
    lemma_decimal(n as nat);
    lemma_count_of(decimal(n as nat), r1);
    assert(r2[0] == name[0]);
    lemma_whitespace_of(seq![' '], r2);
    lemma_name_line(name);
}

/// The line that writes a subcommand is read as that subcommand.
pub proof fn lemma_receive_job_subcommand_round_trip(c: ReceiveJobSubcommandModel)
    requires
        c.valid(),
    ensures
        receive_job_subcommand(c.wire()) == Some(c),
{
    let s = c.wire();
    lemma_tags(s);
    match c {
        ReceiveJobSubcommandModel::AbortJob => {
            assert(s.skip(1) =~= seq!['\n']);
        },
        ReceiveJobSubcommandModel::ReceiveControlFile(n, name) => {
            let r = decimal(n as nat) + (seq![' '] + name.push('\n'));
            assert(s.skip(1) =~= r);
            lemma_receive_file_of(n, name, r);
        },
        ReceiveJobSubcommandModel::ReceiveDataFile(n, name) => {
            let r = decimal(n as nat) + (seq![' '] + name.push('\n'));
            assert(s.skip(1) =~= r);
            lemma_receive_file_of(n, name, r);
        },
    }
}

/// The character that writes a font.
pub open spec fn troff_font_char(k: TroffFontKind) -> char {
    match k {
        TroffFontKind::R => '1',
        TroffFontKind::I => '2',
        TroffFontKind::B => '3',
        TroffFontKind::S => '4',
    }
}

/// The character that writes a kind of file to print.
pub open spec fn print_char(k: PrintKind) -> char {
    match k {
        PrintKind::BannerPage => 'L',
        PrintKind::FormattedFile => 'f',
        PrintKind::FileLeavingControlCharacters => 'l',
        PrintKind::DitroffOutputFile => 'n',
        PrintKind::PostscriptOutputFile => 'o',
        PrintKind::FileWithPrFormat => 'p',
        PrintKind::FileWithFortranCarriageControl => 'r',
        PrintKind::TroffOutputFile => 't',
        PrintKind::RasterFile => 'v',
    }
}

/// The character that writes a kind of plot: `c` for a CIF file, which `g`
/// is read as too. No character writes `PlotKind::File`.
pub open spec fn plot_char(k: PlotKind) -> Option<char> {
    match k {
        PlotKind::CifFile => Some('c'),
        PlotKind::DviFile => Some('d'),
        PlotKind::File => None,
    }
}

impl ControlFileLineModel {
    /// Whether a line writes the value: its text is a name, and its kind of
    /// plot has a character.
    pub open spec fn valid(self) -> bool {
        match self {
            ControlFileLineModel::ClassForBannerPage(s) => is_name(s),
            ControlFileLineModel::HostName(s) => is_name(s),
            ControlFileLineModel::IndentPrinting(_) => true,
            ControlFileLineModel::JobNameForBannerPage(s) => is_name(s),
            ControlFileLineModel::MailWhenPrinted(s) => is_name(s),
            ControlFileLineModel::NameOfSourceFile(s) => is_name(s),
            ControlFileLineModel::UserIdentification(s) => is_name(s),
            ControlFileLineModel::SymbolicLinkData(_, _) => true,
            ControlFileLineModel::TitleForPr(s) => is_name(s),
            ControlFileLineModel::UnlinkDataFile(s) => is_name(s),
            ControlFileLineModel::WidthOfOutput(_) => true,
            ControlFileLineModel::TroffFont(_, s) => is_name(s),
            ControlFileLineModel::PrintFile(_, s) => is_name(s),
            ControlFileLineModel::PlotFile(k, s) => is_name(s) && plot_char(k) is Some,
            ControlFileLineModel::ReservedK => true,
            ControlFileLineModel::ReservedZ => true,
        }
    }

    /// The line that writes the value.
    pub open spec fn wire(self) -> Seq<char> {
        match self {
            ControlFileLineModel::ClassForBannerPage(s) => seq!['C'] + s.push('\n'),
            ControlFileLineModel::HostName(s) => seq!['H'] + s.push('\n'),
            ControlFileLineModel::IndentPrinting(n) => seq!['I'] + decimal(n as nat).push('\n'),
            ControlFileLineModel::JobNameForBannerPage(s) => seq!['J'] + s.push('\n'),
            ControlFileLineModel::MailWhenPrinted(s) => seq!['M'] + s.push('\n'),
            ControlFileLineModel::NameOfSourceFile(s) => seq!['N'] + s.push('\n'),
            ControlFileLineModel::UserIdentification(s) => seq!['P'] + s.push('\n'),
            ControlFileLineModel::SymbolicLinkData(l, r) => seq!['S'] + (decimal(l as nat) + (seq![
                ' ',
            ] + decimal(r as nat).push('\n'))),
            ControlFileLineModel::TitleForPr(s) => seq!['T'] + s.push('\n'),
            ControlFileLineModel::UnlinkDataFile(s) => seq!['U'] + s.push('\n'),
            ControlFileLineModel::WidthOfOutput(n) => seq!['W'] + decimal(n as nat).push('\n'),
            ControlFileLineModel::TroffFont(k, s) => seq![troff_font_char(k)] + s.push('\n'),
            ControlFileLineModel::PrintFile(k, s) => seq![print_char(k)] + s.push('\n'),
            ControlFileLineModel::PlotFile(k, s) => seq![plot_char(k).unwrap()] + s.push('\n'),
            ControlFileLineModel::ReservedK => seq!['k', '\n'],
            ControlFileLineModel::ReservedZ => seq!['z', '\n'],
        }
    }
}

/// The line that writes a control file line is read as that line.
pub proof fn lemma_control_file_line_round_trip(c: ControlFileLineModel)
    requires
        c.valid(),
    ensures
        control_file_line(c.wire()) == Some(c),
{
    let s = c.wire();
    lemma_tags(s);
    match c {
        ControlFileLineModel::ClassForBannerPage(t) => {
            assert(s.skip(1) =~= t.push('\n'));
            lemma_name_line(t);
        },
        ControlFileLineModel::HostName(t) => {
            assert(s.skip(1) =~= t.push('\n'));
            lemma_name_line(t);
        },
        ControlFileLineModel::IndentPrinting(n) => {
            assert(s.skip(1) =~= decimal(n as nat).push('\n'));
            lemma_decimal(n as nat);
            lemma_count_line(decimal(n as nat));
        },
        ControlFileLineModel::JobNameForBannerPage(t) => {
            assert(s.skip(1) =~= t.push('\n'));
            lemma_name_line(t);
        },
        ControlFileLineModel::MailWhenPrinted(t) => {
            assert(s.skip(1) =~= t.push('\n'));
            lemma_name_line(t);
        },
        ControlFileLineModel::NameOfSourceFile(t) => {
            assert(s.skip(1) =~= t.push('\n'));
            lemma_name_line(t);
        },
        ControlFileLineModel::UserIdentification(t) => {
            assert(s.skip(1) =~= t.push('\n'));
            lemma_name_line(t);
        },
        ControlFileLineModel::SymbolicLinkData(l, r) => {
            let r2 = decimal(r as nat).push('\n');
            let r1 = seq![' '] + r2;
            assert(s.skip(1) =~= decimal(l as nat) + r1);
            lemma_decimal(l as nat);
            lemma_decimal(r as nat);
            lemma_count_of(decimal(l as nat), r1);
            assert(r2[0] == decimal(r as nat)[0]);
            lemma_whitespace_of(seq![' '], r2);
            lemma_count_line(decimal(r as nat));
        },
        ControlFileLineModel::TitleForPr(t) => {
            assert(s.skip(1) =~= t.push('\n'));
            lemma_name_line(t);
        },
        ControlFileLineModel::UnlinkDataFile(t) => {
            assert(s.skip(1) =~= t.push('\n'));
            lemma_name_line(t);
        },
        ControlFileLineModel::WidthOfOutput(n) => {
            assert(s.skip(1) =~= decimal(n as nat).push('\n'));
            lemma_decimal(n as nat);
            lemma_count_line(decimal(n as nat));
        },
        ControlFileLineModel::TroffFont(k, t) => {
            assert(s.skip(1) =~= t.push('\n'));
            lemma_name_line(t);
        },
        ControlFileLineModel::PrintFile(k, t) => {
            assert(s.skip(1) =~= t.push('\n'));
            lemma_name_line(t);
        },
        ControlFileLineModel::PlotFile(k, t) => {
            assert(s.skip(1) =~= t.push('\n'));
            lemma_name_line(t);
        },
        ControlFileLineModel::ReservedK => {
            assert(s.skip(1) =~= seq!['\n']);
        },
        ControlFileLineModel::ReservedZ => {
            assert(s.skip(1) =~= seq!['\n']);
        },
    }
}

/// The letter `g` too writes a plot of a CIF file.
pub proof fn lemma_plot_file_g(name: Seq<char>)
    requires
        is_name(name),
    ensures
        control_file_line(seq!['g'] + name.push('\n')) == Some(
            ControlFileLineModel::PlotFile(PlotKind::CifFile, name),
        ),
{
    let s = seq!['g'] + name.push('\n');
    lemma_tags(s);
    assert(s.skip(1) =~= name.push('\n'));
    lemma_name_line(name);
}

proof fn lemma_more_names_are_names(s: Seq<char>)
    ensures
        are_names(more_names(s).0),
    decreases s.len(),
{
    lemma_whitespace_split(s);
    if let Some(r) = whitespace(s) {
        lemma_octet_seq_split(r);
        if let Some((t, r2)) = octet_seq(r) {
            lemma_more_names_are_names(r2);
            let l = seq![t] + more_names(r2).0;
            assert forall|i: int| 0 <= i < l.len() implies is_name(#[trigger] l[i]) by {
                if i > 0 {
                    assert(l[i] == more_names(r2).0[i - 1]);
                }
            }
        }
    }
}

/// What is read as a filter list is a list of names.
pub proof fn lemma_filter_list_are_names(s: Seq<char>)
    ensures
        are_names(filter_list(s).0),
{
    lemma_octet_seq_split(s);
    if let Some((t, r)) = octet_seq(s) {
        lemma_more_names_are_names(r);
        let l = seq![t] + more_names(r).0;
        assert forall|i: int| 0 <= i < l.len() implies is_name(#[trigger] l[i]) by {
            if i > 0 {
                assert(l[i] == more_names(r).0[i - 1]);
            }
        }
    }
}

proof fn lemma_name_line_is_name(s: Seq<char>)
    ensures
        name_line(s) matches Some(n) ==> is_name(n),
{
    lemma_octet_seq_split(s);
}

/// The queue, the agent and the filters of a command that was read are
/// names: nothing in them is whitespace or a newline.
pub proof fn lemma_lpr_command_valid(line: Seq<char>)
    requires
        lpr_command(line) is Some,
    ensures
        lpr_command(line).unwrap().valid(),
{
    if print_waiting(line) is Some {
        lemma_name_line_is_name(after_tag(seq!['\x01'], line).unwrap());
    } else if receive_printer_job(line) is Some {
        lemma_name_line_is_name(after_tag(seq!['\x02'], line).unwrap());
    } else if send_queue_state_short(line) is Some {
        let r = after_tag(seq!['\x03'], line).unwrap();
        lemma_octet_seq_split(r);
        lemma_filter_list_are_names(whitespace(octet_seq(r).unwrap().1).unwrap());
    } else if send_queue_state_long(line) is Some {
        let r = after_tag(seq!['\x04'], line).unwrap();
        lemma_octet_seq_split(r);
        lemma_filter_list_are_names(whitespace(octet_seq(r).unwrap().1).unwrap());
    } else {
        let r = after_tag(seq!['\x05'], line).unwrap();
        lemma_octet_seq_split(r);
        let r2 = whitespace(octet_seq(r).unwrap().1).unwrap();
        lemma_octet_seq_split(r2);
        lemma_filter_list_are_names(whitespace(octet_seq(r2).unwrap().1).unwrap());
    }
}

/// The file's name of a subcommand that was read is a name.
pub proof fn lemma_receive_job_subcommand_valid(line: Seq<char>)
    requires
        receive_job_subcommand(line) is Some,
    ensures
        receive_job_subcommand(line).unwrap().valid(),
{
    let tag = if receive_control_file(line) is Some {
        '\x02'
    } else {
        '\x03'
    };
    if let Some(r) = after_tag(seq![tag], line) {
        if let Some((n, r1)) = count(r) {
            if let Some(r2) = whitespace(r1) {
                lemma_name_line_is_name(r2);
            }
        }
    }
}

/// The text of a control file line that was read is a name, and its kind of
/// plot is one that a letter writes.
pub proof fn lemma_control_file_line_valid(line: Seq<char>)
    requires
        control_file_line(line) is Some,
    ensures
        control_file_line(line).unwrap().valid(),
{
    lemma_tags(line);
    let r = line.skip(1);
    lemma_name_line_is_name(r);
    if class_for_banner_page(line) is Some {
    } else if host_name(line) is Some {
    } else if job_name_for_banner_page(line) is Some {
    } else if mail_when_printed(line) is Some {
    } else if name_of_source_file(line) is Some {
    } else if user_identification(line) is Some {
    } else if title_for_pr(line) is Some {
    } else if unlink_data_file(line) is Some {
    } else if troff_font(line) is Some {
        assert(troff_font_kind(line).unwrap().1 == r);
    } else if print_file(line) is Some {
        assert(print_kind(line).unwrap().1 == r);
    } else if plot_file(line) is Some {
        assert(plot_kind(line).unwrap().1 == r);
    }
}

} // verus!
