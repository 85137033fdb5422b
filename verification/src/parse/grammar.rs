//! What each production accepts, as functions on sequences of characters.

use vstd::prelude::*;
use crate::lpd::{
    ControlFileLineModel, LprCommandModel, PlotKind, PrintKind, ReceiveJobSubcommandModel,
    TroffFontKind,
};

verus! {

pub open spec fn is_whitespace(c: char) -> bool {
    c == ' ' || c == '\x0B' || c == '\t' || c == '\x0C'
}

/// A character of a name: anything but whitespace and the newline.
pub open spec fn is_octet(c: char) -> bool {
    !is_whitespace(c) && c != '\n'
}

pub open spec fn is_digit(c: char) -> bool {
    '0' <= c <= '9'
}

/// How many characters at the front of `s` satisfy `p`.
pub open spec fn run_len(s: Seq<char>, p: spec_fn(char) -> bool) -> nat
    decreases s.len(),
{
    if s.len() > 0 && p(s[0]) {
        1 + run_len(s.skip(1), p)
    } else {
        0
    }
}

/// `run_len(s, p)` is the only `n` with `p` on all of `s[..n]` and not on `s[n]`.
pub proof fn lemma_run_len_is(s: Seq<char>, p: spec_fn(char) -> bool, n: int)
    requires
        0 <= n <= s.len(),
        forall|k: int| 0 <= k < n ==> p(#[trigger] s[k]),
        n < s.len() ==> !p(s[n]),
    ensures
        run_len(s, p) == n,
    decreases n,
{
    if n > 0 {
        let t = s.skip(1);
        assert forall|k: int| 0 <= k < n - 1 implies p(#[trigger] t[k]) by {
            assert(t[k] == s[k + 1]);
        }
        lemma_run_len_is(t, p, n - 1);
    }
}

/// The converse of [`lemma_run_len_is`].
pub proof fn lemma_run_len_props(s: Seq<char>, p: spec_fn(char) -> bool)
    ensures
        run_len(s, p) <= s.len(),
        forall|k: int| 0 <= k < run_len(s, p) ==> p(#[trigger] s[k]),
        run_len(s, p) < s.len() ==> !p(s[run_len(s, p) as int]),
    decreases s.len(),
{
    if s.len() > 0 && p(s[0]) {
        let t = s.skip(1);
        lemma_run_len_props(t, p);
        assert forall|k: int| 0 <= k < run_len(s, p) implies p(#[trigger] s[k]) by {
            if k > 0 {
                assert(s[k] == t[k - 1]);
            }
        }
        if run_len(s, p) < s.len() {
            assert(s[run_len(s, p) as int] == t[run_len(t, p) as int]);
        }
    }
}

/// A run of whitespace at the front of `s`: what follows it, if there is one.
pub open spec fn whitespace(s: Seq<char>) -> Option<Seq<char>> {
    let n = run_len(s, |c: char| is_whitespace(c));
    if n == 0 {
        None
    } else {
        Some(s.skip(n as int))
    }
}

/// A name at the front of `s`: the name and what follows it.
pub open spec fn octet_seq(s: Seq<char>) -> Option<(Seq<char>, Seq<char>)> {
    let n = run_len(s, |c: char| is_octet(c));
    if n == 0 {
        None
    } else {
        Some((s.take(n as int), s.skip(n as int)))
    }
}

/// What a digit counts for; 0 for any other character.
pub open spec fn digit_value(c: char) -> nat {
    if is_digit(c) {
        (c as u32 - '0' as u32) as nat
    } else {
        0
    }
}

/// The number that the decimal digits `s` write; 0 for no digits.
pub open spec fn decimal_value(s: Seq<char>) -> nat
    decreases s.len(),
{
    if s.len() == 0 {
        0
    } else {
        10 * decimal_value(s.drop_last()) + digit_value(s.last())
    }
}

/// A count at the front of `s`: digits whose number fits a `usize`, and what follows.
pub open spec fn count(s: Seq<char>) -> Option<(usize, Seq<char>)> {
    let n = run_len(s, |c: char| is_digit(c));
    if n == 0 || decimal_value(s.take(n as int)) > usize::MAX {
        None
    } else {
        Some((decimal_value(s.take(n as int)) as usize, s.skip(n as int)))
    }
}

/// The names after the first of a filter list, each behind a run of whitespace,
/// and what follows the last. Whitespace that no name follows is left.
pub open spec fn more_names(s: Seq<char>) -> (Seq<Seq<char>>, Seq<char>)
    decreases s.len(),
    via more_names_decreases
{
    match whitespace(s) {
        None => (Seq::empty(), s),
        Some(r) => match octet_seq(r) {
            None => (Seq::empty(), s),
            Some((t, r2)) => {
                let (ts, r3) = more_names(r2);
                (seq![t] + ts, r3)
            },
        },
    }
}

#[via_fn]
proof fn more_names_decreases(s: Seq<char>) {
    lemma_run_len_props(s, |c: char| is_whitespace(c));
    match whitespace(s) {
        None => {},
        Some(r) => {
            lemma_run_len_props(r, |c: char| is_octet(c));
        },
    }
}

/// Digits write at least what any front of them writes.
pub proof fn lemma_decimal_value_grows(s: Seq<char>, k: int)
    requires
        0 <= k <= s.len(),
    ensures
        decimal_value(s.take(k)) <= decimal_value(s),
    decreases s.len(),
{
    if k < s.len() {
        lemma_decimal_value_grows(s.drop_last(), k);
        assert(s.drop_last().take(k) =~= s.take(k));
    } else {
        assert(s.take(k) =~= s);
    }
}

/// A filter list at the front of `s`, maybe empty, and what follows it.
pub open spec fn filter_list(s: Seq<char>) -> (Seq<Seq<char>>, Seq<char>) {
    match octet_seq(s) {
        None => (Seq::empty(), s),
        Some((t, r)) => {
            let (ts, r2) = more_names(r);
            (seq![t] + ts, r2)
        },
    }
}

/// The newline that ends a line, and nothing behind it.
pub open spec fn line_end(s: Seq<char>) -> bool {
    s == seq!['\n']
}

/// Whether the parser's result `r` is what the production `m` gives.
pub open spec fn yields<T: View>(r: Option<T>, m: Option<T::V>) -> bool {
    match r {
        Some(v) => m == Some(v@),
        None => m is None,
    }
}

/// What follows `t` at the front of `s`, when `s` begins with it.
pub open spec fn after_tag(t: Seq<char>, s: Seq<char>) -> Option<Seq<char>> {
    if t.is_prefix_of(s) {
        Some(s.skip(t.len() as int))
    } else {
        None
    }
}

/// The first of two alternatives that matches.
pub open spec fn or<T>(a: Option<T>, b: Option<T>) -> Option<T> {
    if a is Some {
        a
    } else {
        b
    }
}

/// A name and the end of the line.
pub open spec fn name_line(s: Seq<char>) -> Option<Seq<char>> {
    match octet_seq(s) {
        Some((name, r)) if line_end(r) => Some(name),
        _ => None,
    }
}

/// A count and the end of the line.
pub open spec fn count_line(s: Seq<char>) -> Option<usize> {
    match count(s) {
        Some((n, r)) if line_end(r) => Some(n),
        _ => None,
    }
}

/// The tag `t`, a name, the end of the line.
pub open spec fn simple_line(t: Seq<char>, s: Seq<char>) -> Option<Seq<char>> {
    match after_tag(t, s) {
        Some(r) => name_line(r),
        None => None,
    }
}

/// The tag `t`, a count, the end of the line.
pub open spec fn simple_count_line(t: Seq<char>, s: Seq<char>) -> Option<usize> {
    match after_tag(t, s) {
        Some(r) => count_line(r),
        None => None,
    }
}

/// The tag `t` and the end of the line.
pub open spec fn bare_line(t: Seq<char>, s: Seq<char>) -> bool {
    match after_tag(t, s) {
        Some(r) => line_end(r),
        None => false,
    }
}

/// Whitespace, a filter list, the end of the line.
pub open spec fn filters_line(s: Seq<char>) -> Option<Seq<Seq<char>>> {
    match whitespace(s) {
        Some(r) if line_end(filter_list(r).1) => Some(filter_list(r).0),
        _ => None,
    }
}

/// The tag `t`, a queue, whitespace, a filter list, the end of the line.
pub open spec fn queue_state_line(t: Seq<char>, s: Seq<char>) -> Option<
    (Seq<char>, Seq<Seq<char>>),
> {
    match after_tag(t, s) {
        Some(r) => match octet_seq(r) {
            Some((queue, r1)) => match filters_line(r1) {
                Some(list) => Some((queue, list)),
                None => None,
            },
            None => None,
        },
        None => None,
    }
}

/// The tag `t`, a count, whitespace, a name, the end of the line.
pub open spec fn receive_file_line(t: Seq<char>, s: Seq<char>) -> Option<(usize, Seq<char>)> {
    match after_tag(t, s) {
        Some(r) => match count(r) {
            Some((n, r1)) => match whitespace(r1) {
                Some(r2) => match name_line(r2) {
                    Some(name) => Some((n, name)),
                    None => None,
                },
                None => None,
            },
            None => None,
        },
        None => None,
    }
}

pub open spec fn print_waiting(i: Seq<char>) -> Option<LprCommandModel> {
    match simple_line(seq!['\x01'], i) {
        Some(q) => Some(LprCommandModel::PrintWaiting(q)),
        None => None,
    }
}

pub open spec fn receive_printer_job(i: Seq<char>) -> Option<LprCommandModel> {
    match simple_line(seq!['\x02'], i) {
        Some(q) => Some(LprCommandModel::ReceivePrinterJob(q)),
        None => None,
    }
}

pub open spec fn send_queue_state_short(i: Seq<char>) -> Option<LprCommandModel> {
    match queue_state_line(seq!['\x03'], i) {
        Some((q, l)) => Some(LprCommandModel::SendQueueStateShort(q, l)),
        None => None,
    }
}

pub open spec fn send_queue_state_long(i: Seq<char>) -> Option<LprCommandModel> {
    match queue_state_line(seq!['\x04'], i) {
        Some((q, l)) => Some(LprCommandModel::SendQueueStateLong(q, l)),
        None => None,
    }
}

/// The tag, a queue, whitespace, an agent, whitespace, a filter list, the end
/// of the line.
pub open spec fn remove_jobs(i: Seq<char>) -> Option<LprCommandModel> {
    match after_tag(seq!['\x05'], i) {
        Some(r) => match octet_seq(r) {
            Some((queue, r1)) => match whitespace(r1) {
                Some(r2) => match octet_seq(r2) {
                    Some((agent, r3)) => match filters_line(r3) {
                        Some(list) => Some(LprCommandModel::RemoveJobs(queue, agent, list)),
                        None => None,
                    },
                    None => None,
                },
                None => None,
            },
            None => None,
        },
        None => None,
    }
}

/// The command that the line `i` writes: the alternatives in their order.
pub open spec fn lpr_command(i: Seq<char>) -> Option<LprCommandModel> {
    or(
        print_waiting(i),
        or(
            receive_printer_job(i),
            or(send_queue_state_short(i), or(send_queue_state_long(i), remove_jobs(i))),
        ),
    )
}

pub open spec fn abort_job(i: Seq<char>) -> Option<ReceiveJobSubcommandModel> {
    if bare_line(seq!['\x01'], i) {
        Some(ReceiveJobSubcommandModel::AbortJob)
    } else {
        None
    }
}

pub open spec fn receive_control_file(i: Seq<char>) -> Option<ReceiveJobSubcommandModel> {
    match receive_file_line(seq!['\x02'], i) {
        Some((n, name)) => Some(ReceiveJobSubcommandModel::ReceiveControlFile(n, name)),
        None => None,
    }
}

pub open spec fn receive_data_file(i: Seq<char>) -> Option<ReceiveJobSubcommandModel> {
    match receive_file_line(seq!['\x03'], i) {
        Some((n, name)) => Some(ReceiveJobSubcommandModel::ReceiveDataFile(n, name)),
        None => None,
    }
}

/// The subcommand that the line `i` writes.
pub open spec fn receive_job_subcommand(i: Seq<char>) -> Option<ReceiveJobSubcommandModel> {
    or(abort_job(i), or(receive_control_file(i), receive_data_file(i)))
}

/// The kind `k` when `s` begins with `t`, and what follows.
pub open spec fn kind_tag<K>(t: Seq<char>, k: K, s: Seq<char>) -> Option<(K, Seq<char>)> {
    match after_tag(t, s) {
        Some(r) => Some((k, r)),
        None => None,
    }
}

pub open spec fn troff_font_kind(s: Seq<char>) -> Option<(TroffFontKind, Seq<char>)> {
    or(
        kind_tag(seq!['1'], TroffFontKind::R, s),
        or(
            kind_tag(seq!['2'], TroffFontKind::I, s),
            or(kind_tag(seq!['3'], TroffFontKind::B, s), kind_tag(seq!['4'], TroffFontKind::S, s)),
        ),
    )
}

pub open spec fn print_kind(s: Seq<char>) -> Option<(PrintKind, Seq<char>)> {
    or(
        kind_tag(seq!['L'], PrintKind::BannerPage, s),
        or(
            kind_tag(seq!['f'], PrintKind::FormattedFile, s),
            or(
                kind_tag(seq!['l'], PrintKind::FileLeavingControlCharacters, s),
                or(
                    kind_tag(seq!['n'], PrintKind::DitroffOutputFile, s),
                    or(
                        kind_tag(seq!['o'], PrintKind::PostscriptOutputFile, s),
                        or(
                            kind_tag(seq!['p'], PrintKind::FileWithPrFormat, s),
                            or(
                                kind_tag(seq!['r'], PrintKind::FileWithFortranCarriageControl, s),
                                or(
                                    kind_tag(seq!['t'], PrintKind::TroffOutputFile, s),
                                    kind_tag(seq!['v'], PrintKind::RasterFile, s),
                                ),
                            ),
                        ),
                    ),
                ),
            ),
        ),
    )
}

/// Both `c` and `g` stand for a CIF file; no letter gives `PlotKind::File`.
pub open spec fn plot_kind(s: Seq<char>) -> Option<(PlotKind, Seq<char>)> {
    or(
        kind_tag(seq!['c'], PlotKind::CifFile, s),
        or(kind_tag(seq!['d'], PlotKind::DviFile, s), kind_tag(seq!['g'], PlotKind::CifFile, s)),
    )
}

/// After a kind: a name and the end of the line.
pub open spec fn kinded_line<K>(kind: Option<(K, Seq<char>)>) -> Option<(K, Seq<char>)> {
    match kind {
        Some((k, r)) => match name_line(r) {
            Some(name) => Some((k, name)),
            None => None,
        },
        None => None,
    }
}

pub open spec fn class_for_banner_page(i: Seq<char>) -> Option<ControlFileLineModel> {
    match simple_line(seq!['C'], i) {
        Some(s) => Some(ControlFileLineModel::ClassForBannerPage(s)),
        None => None,
    }
}

pub open spec fn host_name(i: Seq<char>) -> Option<ControlFileLineModel> {
    match simple_line(seq!['H'], i) {
        Some(s) => Some(ControlFileLineModel::HostName(s)),
        None => None,
    }
}

pub open spec fn indent_printing(i: Seq<char>) -> Option<ControlFileLineModel> {
    match simple_count_line(seq!['I'], i) {
        Some(n) => Some(ControlFileLineModel::IndentPrinting(n)),
        None => None,
    }
}

pub open spec fn job_name_for_banner_page(i: Seq<char>) -> Option<ControlFileLineModel> {
    match simple_line(seq!['J'], i) {
        Some(s) => Some(ControlFileLineModel::JobNameForBannerPage(s)),
        None => None,
    }
}

pub open spec fn mail_when_printed(i: Seq<char>) -> Option<ControlFileLineModel> {
    match simple_line(seq!['M'], i) {
        Some(s) => Some(ControlFileLineModel::MailWhenPrinted(s)),
        None => None,
    }
}

pub open spec fn name_of_source_file(i: Seq<char>) -> Option<ControlFileLineModel> {
    match simple_line(seq!['N'], i) {
        Some(s) => Some(ControlFileLineModel::NameOfSourceFile(s)),
        None => None,
    }
}

pub open spec fn user_identification(i: Seq<char>) -> Option<ControlFileLineModel> {
    match simple_line(seq!['P'], i) {
        Some(s) => Some(ControlFileLineModel::UserIdentification(s)),
        None => None,
    }
}

/// The tag, a count, whitespace, a count, the end of the line.
pub open spec fn symbolic_link_data(i: Seq<char>) -> Option<ControlFileLineModel> {
    match after_tag(seq!['S'], i) {
        Some(r) => match count(r) {
            Some((device, r1)) => match whitespace(r1) {
                Some(r2) => match count_line(r2) {
                    Some(inode) => Some(ControlFileLineModel::SymbolicLinkData(device, inode)),
                    None => None,
                },
                None => None,
            },
            None => None,
        },
        None => None,
    }
}

pub open spec fn title_for_pr(i: Seq<char>) -> Option<ControlFileLineModel> {
    match simple_line(seq!['T'], i) {
        Some(s) => Some(ControlFileLineModel::TitleForPr(s)),
        None => None,
    }
}

pub open spec fn unlink_data_file(i: Seq<char>) -> Option<ControlFileLineModel> {
    match simple_line(seq!['U'], i) {
        Some(s) => Some(ControlFileLineModel::UnlinkDataFile(s)),
        None => None,
    }
}

pub open spec fn width_of_output(i: Seq<char>) -> Option<ControlFileLineModel> {
    match simple_count_line(seq!['W'], i) {
        Some(n) => Some(ControlFileLineModel::WidthOfOutput(n)),
        None => None,
    }
}

pub open spec fn troff_font(i: Seq<char>) -> Option<ControlFileLineModel> {
    match kinded_line(troff_font_kind(i)) {
        Some((k, s)) => Some(ControlFileLineModel::TroffFont(k, s)),
        None => None,
    }
}

pub open spec fn print_file(i: Seq<char>) -> Option<ControlFileLineModel> {
    match kinded_line(print_kind(i)) {
        Some((k, s)) => Some(ControlFileLineModel::PrintFile(k, s)),
        None => None,
    }
}

pub open spec fn plot_file(i: Seq<char>) -> Option<ControlFileLineModel> {
    match kinded_line(plot_kind(i)) {
        Some((k, s)) => Some(ControlFileLineModel::PlotFile(k, s)),
        None => None,
    }
}

/// The reserved marker `k`. Like every other line it ends with the newline,
/// and nothing may stand between the letter and the newline.
pub open spec fn reserved_k(i: Seq<char>) -> Option<ControlFileLineModel> {
    if bare_line(seq!['k'], i) {
        Some(ControlFileLineModel::ReservedK)
    } else {
        None
    }
}

/// The reserved marker `z`, under the rule of [`reserved_k`].
pub open spec fn reserved_z(i: Seq<char>) -> Option<ControlFileLineModel> {
    if bare_line(seq!['z'], i) {
        Some(ControlFileLineModel::ReservedZ)
    } else {
        None
    }
}

/// The control file line that `i` writes: the alternatives in their order.
pub open spec fn control_file_line(i: Seq<char>) -> Option<ControlFileLineModel> {
    or(
        class_for_banner_page(i),
        or(
            host_name(i),
            or(
                indent_printing(i),
                or(
                    job_name_for_banner_page(i),
                    or(
                        mail_when_printed(i),
                        or(
                            name_of_source_file(i),
                            or(
                                user_identification(i),
                                or(
                                    symbolic_link_data(i),
                                    or(
                                        title_for_pr(i),
                                        or(
                                            unlink_data_file(i),
                                            or(
                                                width_of_output(i),
                                                or(
                                                    troff_font(i),
                                                    or(
                                                        print_file(i),
                                                        or(
                                                            plot_file(i),
                                                            or(reserved_k(i), reserved_z(i)),
                                                        ),
                                                    ),
                                                ),
                                            ),
                                        ),
                                    ),
                                ),
                            ),
                        ),
                    ),
                ),
            ),
        ),
    )
}

} // verus!
