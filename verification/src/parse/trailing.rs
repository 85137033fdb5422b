//! Full consumption: what one more character before the newline does to a
//! line that the grammar accepts. It is rejected, unless the character goes
//! on with the last token of the line.

use vstd::prelude::*;
use crate::lpd::{ControlFileLineModel, LprCommandModel};
use crate::parse::grammar::{
    abort_job, after_tag, bare_line, class_for_banner_page, control_file_line, count, count_line,
    digit_value, filters_line, host_name, indent_printing, is_digit, is_octet, is_whitespace,
    job_name_for_banner_page, kinded_line, lpr_command, mail_when_printed, name_line,
    name_of_source_file, octet_seq, plot_file, plot_kind, print_file, print_kind, print_waiting,
    queue_state_line, receive_control_file, receive_file_line, receive_job_subcommand,
    receive_printer_job, remove_jobs, reserved_k, send_queue_state_long, send_queue_state_short,
    simple_count_line, simple_line, symbolic_link_data, title_for_pr, troff_font, troff_font_kind,
    unlink_data_file, user_identification, whitespace, width_of_output,
};
use crate::parse::lists::{lemma_filters_line, lemma_filters_line_newline};
use crate::parse::tokens::{
    is_blank, lemma_after_tag, lemma_count_line, lemma_count_of, lemma_count_split,
    lemma_decimal_value_push, lemma_name_line, lemma_octet_seq_of, lemma_octet_seq_split,
    lemma_whitespace_of, lemma_whitespace_split, no_newline,
};

verus! {

/// The line with `b` put before its last character.
pub open spec fn with_byte(line: Seq<char>, b: char) -> Seq<char> {
    line.drop_last().push(b).push(line.last())
}

/// Every tag of one character is read off the first character.
pub proof fn lemma_tags(s: Seq<char>)
    ensures
        forall|c: char| #[trigger]
            after_tag(seq![c], s) == if s.len() > 0 && s[0] == c {
                Some(s.skip(1))
            } else {
                None
            },
{
    assert forall|c: char| #[trigger]
        after_tag(seq![c], s) == if s.len() > 0 && s[0] == c {
            Some(s.skip(1))
        } else {
            None
        } by {
        lemma_after_tag(c, s);
    }
}

proof fn lemma_after_tag_before(c: char, s: Seq<char>, b: char)
    requires
        s.len() >= 2,
    ensures
        after_tag(seq![c], with_byte(s, b)) == match after_tag(seq![c], s) {
            Some(r) => Some(with_byte(r, b)),
            None => None,
        },
{
    lemma_after_tag(c, s);
    lemma_after_tag(c, with_byte(s, b));
    assert(with_byte(s, b).skip(1) =~= with_byte(s.skip(1), b));
}

proof fn lemma_octet_seq_before(s: Seq<char>, b: char)
    requires
        octet_seq(s) is Some,
        octet_seq(s).unwrap().1.len() >= 2,
    ensures
        octet_seq(with_byte(s, b)) == Some((octet_seq(s).unwrap().0, with_byte(octet_seq(s).unwrap().1, b))),
{
    lemma_octet_seq_split(s);
    let (n, r) = octet_seq(s)->0;
    let r2 = with_byte(r, b);
    assert(with_byte(s, b) =~= n + r2);
    assert(r2[0] == r[0]);
    lemma_octet_seq_of(n, r2);
}

proof fn lemma_whitespace_before(s: Seq<char>, b: char)
    requires
        whitespace(s) is Some,
        whitespace(s)->0.len() >= 2,
    ensures
        whitespace(with_byte(s, b)) == Some(with_byte(whitespace(s)->0, b)),
{
    lemma_whitespace_split(s);
    let r = whitespace(s)->0;
    let blank = s.take(s.len() - r.len());
    let r2 = with_byte(r, b);
    assert(with_byte(s, b) =~= blank + r2);
    assert(r2[0] == r[0]);
    lemma_whitespace_of(blank, r2);
}

proof fn lemma_count_before(s: Seq<char>, b: char)
    requires
        count(s) is Some,
        count(s).unwrap().1.len() >= 2,
    ensures
        count(with_byte(s, b)) == Some((count(s).unwrap().0, with_byte(count(s).unwrap().1, b))),
{
    lemma_count_split(s);
    let (n, r) = count(s)->0;
    let digits = s.take(s.len() - r.len());
    let r2 = with_byte(r, b);
    assert(with_byte(s, b) =~= digits + r2);
    assert(r2[0] == r[0]);
    lemma_count_of(digits, r2);
}

proof fn lemma_name_line_with_byte(s: Seq<char>, b: char)
    requires
        name_line(s) is Some,
    ensures
        s.len() >= 2,
        name_line(with_byte(s, b)) is Some <==> is_octet(b),
{
    lemma_octet_seq_split(s);
    let (n, r) = octet_seq(s)->0;
    assert(s =~= n.push('\n'));
    assert(with_byte(s, b) =~= n.push(b).push('\n'));
    lemma_name_line(n.push(b));
    if is_octet(b) {
        assert forall|k: int| 0 <= k < n.push(b).len() implies is_octet(
            #[trigger] n.push(b)[k],
        ) by {
            if k < n.len() {
                assert(n.push(b)[k] == n[k]);
            }
        }
    } else {
        assert(n.push(b)[n.len() as int] == b);
    }
}

proof fn lemma_count_line_with_byte(s: Seq<char>, b: char)
    requires
        count_line(s) is Some,
    ensures
        s.len() >= 2,
        count_line(with_byte(s, b)) is Some <==> is_digit(b) && 10 * count_line(s)->0
            + digit_value(b) <= usize::MAX,
{
    lemma_count_split(s);
    let (v, r) = count(s)->0;
    let digits = s.take(s.len() - r.len());
    assert(s =~= digits.push('\n'));
    assert(with_byte(s, b) =~= digits.push(b).push('\n'));
    lemma_count_line(digits.push(b));
    lemma_decimal_value_push(digits, b);
    if is_digit(b) {
        assert forall|k: int| 0 <= k < digits.push(b).len() implies is_digit(
            #[trigger] digits.push(b)[k],
        ) by {
            if k < digits.len() {
                assert(digits.push(b)[k] == digits[k]);
            }
        }
    } else {
        assert(digits.push(b)[digits.len() as int] == b);
    }
}

proof fn lemma_filters_line_with_byte(s: Seq<char>, b: char)
    requires
        filters_line(s) is Some,
    ensures
        s.len() >= 2,
        filters_line(with_byte(s, b)) is Some <==> is_octet(b) || (is_whitespace(b)
            && filters_line(s)->0.len() == 0),
{
    lemma_filters_line_newline(s);
    let h = s.drop_last();
    assert(s =~= h.push('\n'));
    lemma_filters_line(h);
    let w = with_byte(s, b);
    assert(w =~= h.push(b).push('\n'));
    if b == '\n' {
        if filters_line(w) is Some {
            lemma_filters_line_newline(w);
            assert(w.drop_last()[h.len() as int] == '\n');
        }
    } else {
        let h2 = h.push(b);
        assert forall|k: int| 0 <= k < h2.len() implies #[trigger] h2[k] != '\n' by {
            if k < h.len() {
                assert(h2[k] == h[k]);
            }
        }
        lemma_filters_line(h2);
        assert(h2[0] == h[0]);
        assert(h2.last() == b);
        if is_blank(h2) {
            assert forall|k: int| 0 <= k < h.len() implies is_whitespace(#[trigger] h[k]) by {
                assert(h2[k] == h[k]);
            }
        }
        if is_blank(h) && is_whitespace(b) {
            assert forall|k: int| 0 <= k < h2.len() implies is_whitespace(#[trigger] h2[k]) by {
                if k < h.len() {
                    assert(h2[k] == h[k]);
                }
            }
        }
    }
}

proof fn lemma_simple_line_with_byte(c: char, s: Seq<char>, b: char)
    requires
        simple_line(seq![c], s) is Some,
    ensures
        s.len() >= 2,
        simple_line(seq![c], with_byte(s, b)) is Some <==> is_octet(b),
{
    lemma_after_tag(c, s);
    lemma_name_line_with_byte(s.skip(1), b);
    lemma_after_tag_before(c, s, b);
}

proof fn lemma_simple_count_line_with_byte(c: char, s: Seq<char>, b: char)
    requires
        simple_count_line(seq![c], s) is Some,
    ensures
        s.len() >= 2,
        simple_count_line(seq![c], with_byte(s, b)) is Some <==> is_digit(b) && 10
            * simple_count_line(seq![c], s)->0 + digit_value(b) <= usize::MAX,
{
    lemma_after_tag(c, s);
    lemma_count_line_with_byte(s.skip(1), b);
    lemma_after_tag_before(c, s, b);
}

proof fn lemma_bare_line_with_byte(c: char, s: Seq<char>, b: char)
    requires
        bare_line(seq![c], s),
    ensures
        s.len() >= 2,
        !bare_line(seq![c], with_byte(s, b)),
{
    lemma_after_tag(c, s);
    lemma_after_tag_before(c, s, b);
    assert(s.skip(1).len() == 1);
}

proof fn lemma_queue_state_line_with_byte(c: char, s: Seq<char>, b: char)
    requires
        queue_state_line(seq![c], s) is Some,
    ensures
        s.len() >= 2,
        queue_state_line(seq![c], with_byte(s, b)) is Some <==> is_octet(b) || (is_whitespace(b)
            && queue_state_line(seq![c], s).unwrap().1.len() == 0),
{
    lemma_after_tag(c, s);
    let r = s.skip(1);
    lemma_octet_seq_split(r);
    let (q, r1) = octet_seq(r)->0;
    lemma_filters_line_with_byte(r1, b);
    lemma_octet_seq_before(r, b);
    lemma_after_tag_before(c, s, b);
}

proof fn lemma_receive_file_line_with_byte(c: char, s: Seq<char>, b: char)
    requires
        receive_file_line(seq![c], s) is Some,
    ensures
        s.len() >= 2,
        receive_file_line(seq![c], with_byte(s, b)) is Some <==> is_octet(b),
{
    lemma_after_tag(c, s);
    let r = s.skip(1);
    lemma_count_split(r);
    let (n, r1) = count(r)->0;
    lemma_whitespace_split(r1);
    let r2 = whitespace(r1)->0;
    lemma_name_line_with_byte(r2, b);
    lemma_whitespace_before(r1, b);
    lemma_count_before(r, b);
    lemma_after_tag_before(c, s, b);
}

proof fn lemma_remove_jobs_with_byte(s: Seq<char>, b: char)
    requires
        remove_jobs(s) matches Some(LprCommandModel::RemoveJobs(_, _, l)),
    ensures
        s.len() >= 2,
        remove_jobs(with_byte(s, b)) is Some <==> is_octet(b) || (is_whitespace(b) && (
        remove_jobs(s) matches Some(LprCommandModel::RemoveJobs(_, _, l)) && l.len() == 0)),
{
    lemma_after_tag('\x05', s);
    let r = s.skip(1);
    lemma_octet_seq_split(r);
    let (q, r1) = octet_seq(r)->0;
    lemma_whitespace_split(r1);
    let r2 = whitespace(r1)->0;
    lemma_octet_seq_split(r2);
    let (a, r3) = octet_seq(r2)->0;
    lemma_filters_line_with_byte(r3, b);
    lemma_octet_seq_before(r2, b);
    lemma_whitespace_before(r1, b);
    lemma_octet_seq_before(r, b);
    lemma_after_tag_before('\x05', s, b);
}

impl LprCommandModel {
    /// Whether the command has a filter list and the list is empty.
    pub open spec fn ends_in_empty_list(self) -> bool {
        match self {
            LprCommandModel::SendQueueStateShort(_, l) => l.len() == 0,
            LprCommandModel::SendQueueStateLong(_, l) => l.len() == 0,
            LprCommandModel::RemoveJobs(_, _, l) => l.len() == 0,
            _ => false,
        }
    }
}

/// A command line with one more character `b` before its newline is a
/// command line only where `b` goes on with its last token: `b` is a
/// character of a name, or it is whitespace behind an empty filter list.
pub proof fn lemma_lpr_command_with_byte(line: Seq<char>, b: char)
    requires
        lpr_command(line) is Some,
    ensures
        lpr_command(with_byte(line, b)) is Some <==> is_octet(b) || (is_whitespace(b)
            && lpr_command(line)->0.ends_in_empty_list()),
{
    let w = with_byte(line, b);
    lemma_tags(line);
    if print_waiting(line) is Some {
        lemma_simple_line_with_byte('\x01', line, b);
    } else if receive_printer_job(line) is Some {
        lemma_simple_line_with_byte('\x02', line, b);
    } else if send_queue_state_short(line) is Some {
        lemma_queue_state_line_with_byte('\x03', line, b);
    } else if send_queue_state_long(line) is Some {
        lemma_queue_state_line_with_byte('\x04', line, b);
    } else {
        lemma_remove_jobs_with_byte(line, b);
    }
    assert(w[0] == line[0]);
    lemma_tags(w);
}

/// A subcommand line with one more character `b` before its newline is a
/// subcommand line only where `b` goes on with the file's name.
pub proof fn lemma_receive_job_subcommand_with_byte(line: Seq<char>, b: char)
    requires
        receive_job_subcommand(line) is Some,
    ensures
        receive_job_subcommand(with_byte(line, b)) is Some <==> is_octet(b) && !(
        receive_job_subcommand(line)->0 is AbortJob),
{
    let w = with_byte(line, b);
    lemma_tags(line);
    if abort_job(line) is Some {
        lemma_bare_line_with_byte('\x01', line, b);
    } else if receive_control_file(line) is Some {
        lemma_receive_file_line_with_byte('\x02', line, b);
    } else {
        lemma_receive_file_line_with_byte('\x03', line, b);
    }
    assert(w[0] == line[0]);
    lemma_tags(w);
}

proof fn lemma_symbolic_link_data_with_byte(s: Seq<char>, b: char)
    requires
        symbolic_link_data(s) matches Some(ControlFileLineModel::SymbolicLinkData(_, n)),
    ensures
        s.len() >= 2,
        symbolic_link_data(with_byte(s, b)) is Some <==> symbolic_link_data(s).unwrap().continued_by(
            b,
        ),
{
    lemma_after_tag('S', s);
    let r = s.skip(1);
    lemma_count_split(r);
    let (n, r1) = count(r)->0;
    lemma_whitespace_split(r1);
    let r2 = whitespace(r1)->0;
    lemma_count_line_with_byte(r2, b);
    lemma_whitespace_before(r1, b);
    lemma_count_before(r, b);
    lemma_after_tag_before('S', s, b);
}

/// Behind a kind that is read off the first character, as each of the three
/// kinds is: a name and the end of the line.
proof fn lemma_kinded_line_with_byte<K>(
    kind: Option<(K, Seq<char>)>,
    after: Option<(K, Seq<char>)>,
    s: Seq<char>,
    b: char,
)
    requires
        kinded_line(kind) is Some,
        kind matches Some((k, r)) && r == s.skip(1) && after == Some((k, with_byte(s, b).skip(1))),
        s.len() >= 1,
    ensures
        s.len() >= 2,
        kinded_line(after) is Some <==> is_octet(b),
{
    let r = s.skip(1);
    lemma_name_line_with_byte(r, b);
    assert(with_byte(s, b).skip(1) =~= with_byte(r, b));
}

impl ControlFileLineModel {
    /// Whether `b` goes on with the last token of the line: a character of a
    /// name behind a name, a digit behind a number that stays in range with
    /// it, and nothing behind a reserved letter.
    pub open spec fn continued_by(self, b: char) -> bool {
        match self {
            ControlFileLineModel::IndentPrinting(n) => is_digit(b) && 10 * n + digit_value(b)
                <= usize::MAX,
            ControlFileLineModel::WidthOfOutput(n) => is_digit(b) && 10 * n + digit_value(b)
                <= usize::MAX,
            ControlFileLineModel::SymbolicLinkData(_, n) => is_digit(b) && 10 * n + digit_value(b)
                <= usize::MAX,
            ControlFileLineModel::ReservedK => false,
            ControlFileLineModel::ReservedZ => false,
            _ => is_octet(b),
        }
    }
}

/// A control file line with one more character `b` before its newline is a
/// control file line only where `b` goes on with its last token.
pub proof fn lemma_control_file_line_with_byte(line: Seq<char>, b: char)
    requires
        control_file_line(line) is Some,
    ensures
        control_file_line(with_byte(line, b)) is Some <==> control_file_line(
            line,
        ).unwrap().continued_by(b),
{
    let w = with_byte(line, b);
    lemma_tags(line);
    if class_for_banner_page(line) is Some {
        lemma_simple_line_with_byte('C', line, b);
    } else if host_name(line) is Some {
        lemma_simple_line_with_byte('H', line, b);
    } else if indent_printing(line) is Some {
        lemma_simple_count_line_with_byte('I', line, b);
    } else if job_name_for_banner_page(line) is Some {
        lemma_simple_line_with_byte('J', line, b);
    } else if mail_when_printed(line) is Some {
        lemma_simple_line_with_byte('M', line, b);
    } else if name_of_source_file(line) is Some {
        lemma_simple_line_with_byte('N', line, b);
    } else if user_identification(line) is Some {
        lemma_simple_line_with_byte('P', line, b);
    } else if symbolic_link_data(line) is Some {
        lemma_symbolic_link_data_with_byte(line, b);
    } else if title_for_pr(line) is Some {
        lemma_simple_line_with_byte('T', line, b);
    } else if unlink_data_file(line) is Some {
        lemma_simple_line_with_byte('U', line, b);
    } else if width_of_output(line) is Some {
        lemma_simple_count_line_with_byte('W', line, b);
    } else if troff_font(line) is Some {
        assert(w[0] == line[0]);
        lemma_tags(w);
        lemma_kinded_line_with_byte(troff_font_kind(line), troff_font_kind(w), line, b);
    } else if print_file(line) is Some {
        assert(w[0] == line[0]);
        lemma_tags(w);
        lemma_kinded_line_with_byte(print_kind(line), print_kind(w), line, b);
    } else if plot_file(line) is Some {
        assert(w[0] == line[0]);
        lemma_tags(w);
        lemma_kinded_line_with_byte(plot_kind(line), plot_kind(w), line, b);
    } else if reserved_k(line) is Some {
        lemma_bare_line_with_byte('k', line, b);
    } else {
        lemma_bare_line_with_byte('z', line, b);
    }
    assert(w[0] == line[0]);
    lemma_tags(w);
}

/// A line: it ends with a newline and holds no other.
pub open spec fn one_line(s: Seq<char>) -> bool {
    s.len() >= 1 && s.last() == '\n' && no_newline(s.drop_last())
}

proof fn lemma_one_line_behind(front: Seq<char>, r: Seq<char>)
    requires
        no_newline(front),
        one_line(r),
    ensures
        one_line(front + r),
{
    let s = front + r;
    let body = s.drop_last();
    assert forall|k: int| 0 <= k < body.len() implies #[trigger] body[k] != '\n' by {
        if k < front.len() {
            assert(body[k] == front[k]);
        } else {
            assert(body[k] == r.drop_last()[k - front.len()]);
        }
    }
}

proof fn lemma_behind_tag(c: char, s: Seq<char>)
    requires
        c != '\n',
        after_tag(seq![c], s) is Some,
        one_line(after_tag(seq![c], s).unwrap()),
    ensures
        one_line(s),
{
    lemma_after_tag(c, s);
    assert(s =~= seq![c] + s.skip(1));
    lemma_one_line_behind(seq![c], s.skip(1));
}

proof fn lemma_behind_name(s: Seq<char>)
    requires
        octet_seq(s) is Some,
        one_line(octet_seq(s).unwrap().1),
    ensures
        one_line(s),
{
    lemma_octet_seq_split(s);
    let (n, r) = octet_seq(s)->0;
    lemma_one_line_behind(n, r);
}

proof fn lemma_behind_whitespace(s: Seq<char>)
    requires
        whitespace(s) is Some,
        one_line(whitespace(s).unwrap()),
    ensures
        one_line(s),
{
    lemma_whitespace_split(s);
    let r = whitespace(s)->0;
    lemma_one_line_behind(s.take(s.len() - r.len()), r);
}

proof fn lemma_behind_count(s: Seq<char>)
    requires
        count(s) is Some,
        one_line(count(s).unwrap().1),
    ensures
        one_line(s),
{
    lemma_count_split(s);
    let (n, r) = count(s)->0;
    lemma_one_line_behind(s.take(s.len() - r.len()), r);
}

proof fn lemma_name_line_one_line(s: Seq<char>)
    requires
        name_line(s) is Some,
    ensures
        one_line(s),
{
    assert(one_line(seq!['\n']));
    lemma_behind_name(s);
}

proof fn lemma_count_line_one_line(s: Seq<char>)
    requires
        count_line(s) is Some,
    ensures
        one_line(s),
{
    assert(one_line(seq!['\n']));
    lemma_behind_count(s);
}

proof fn lemma_simple_line_one_line(c: char, s: Seq<char>)
    requires
        c != '\n',
        simple_line(seq![c], s) is Some || simple_count_line(seq![c], s) is Some || bare_line(
            seq![c],
            s,
        ),
    ensures
        one_line(s),
{
    lemma_after_tag(c, s);
    let r = s.skip(1);
    if simple_line(seq![c], s) is Some {
        lemma_name_line_one_line(r);
    } else if simple_count_line(seq![c], s) is Some {
        lemma_count_line_one_line(r);
    } else {
        assert(one_line(seq!['\n']));
    }
    lemma_behind_tag(c, s);
}

proof fn lemma_queue_state_line_one_line(c: char, s: Seq<char>)
    requires
        c != '\n',
        queue_state_line(seq![c], s) is Some,
    ensures
        one_line(s),
{
    lemma_after_tag(c, s);
    let r = s.skip(1);
    let (q, r1) = octet_seq(r)->0;
    lemma_filters_line_newline(r1);
    lemma_behind_name(r);
    lemma_behind_tag(c, s);
}

proof fn lemma_receive_file_line_one_line(c: char, s: Seq<char>)
    requires
        c != '\n',
        receive_file_line(seq![c], s) is Some,
    ensures
        one_line(s),
{
    lemma_after_tag(c, s);
    let r = s.skip(1);
    let (n, r1) = count(r)->0;
    let r2 = whitespace(r1)->0;
    lemma_name_line_one_line(r2);
    lemma_behind_whitespace(r1);
    lemma_behind_count(r);
    lemma_behind_tag(c, s);
}

proof fn lemma_remove_jobs_one_line(s: Seq<char>)
    requires
        remove_jobs(s) is Some,
    ensures
        one_line(s),
{
    lemma_after_tag('\x05', s);
    let r = s.skip(1);
    let (q, r1) = octet_seq(r)->0;
    let r2 = whitespace(r1)->0;
    let (a, r3) = octet_seq(r2)->0;
    lemma_filters_line_newline(r3);
    lemma_behind_name(r2);
    lemma_behind_whitespace(r1);
    lemma_behind_name(r);
    lemma_behind_tag('\x05', s);
}

proof fn lemma_symbolic_link_data_one_line(s: Seq<char>)
    requires
        symbolic_link_data(s) is Some,
    ensures
        one_line(s),
{
    lemma_after_tag('S', s);
    let r = s.skip(1);
    let (n, r1) = count(r)->0;
    let r2 = whitespace(r1)->0;
    lemma_count_line_one_line(r2);
    lemma_behind_whitespace(r1);
    lemma_behind_count(r);
    lemma_behind_tag('S', s);
}

proof fn lemma_kinded_line_one_line<K>(kind: Option<(K, Seq<char>)>, s: Seq<char>)
    requires
        kinded_line(kind) is Some,
        kind matches Some((_, r)) && r == s.skip(1),
        s.len() >= 1,
        s[0] != '\n',
    ensures
        one_line(s),
{
    lemma_name_line_one_line(s.skip(1));
    assert(s =~= seq![s[0]] + s.skip(1));
    lemma_one_line_behind(seq![s[0]], s.skip(1));
}

/// A command line ends with the only newline in it.
pub proof fn lemma_lpr_command_one_line(line: Seq<char>)
    requires
        lpr_command(line) is Some,
    ensures
        one_line(line),
{
    if print_waiting(line) is Some {
        lemma_simple_line_one_line('\x01', line);
    } else if receive_printer_job(line) is Some {
        lemma_simple_line_one_line('\x02', line);
    } else if send_queue_state_short(line) is Some {
        lemma_queue_state_line_one_line('\x03', line);
    } else if send_queue_state_long(line) is Some {
        lemma_queue_state_line_one_line('\x04', line);
    } else {
        lemma_remove_jobs_one_line(line);
    }
}

/// A subcommand line ends with the only newline in it.
pub proof fn lemma_receive_job_subcommand_one_line(line: Seq<char>)
    requires
        receive_job_subcommand(line) is Some,
    ensures
        one_line(line),
{
    if abort_job(line) is Some {
        lemma_simple_line_one_line('\x01', line);
    } else if receive_control_file(line) is Some {
        lemma_receive_file_line_one_line('\x02', line);
    } else {
        lemma_receive_file_line_one_line('\x03', line);
    }
}

/// A control file line ends with the only newline in it.
pub proof fn lemma_control_file_line_one_line(line: Seq<char>)
    requires
        control_file_line(line) is Some,
    ensures
        one_line(line),
{
    lemma_tags(line);
    if class_for_banner_page(line) is Some {
        lemma_simple_line_one_line('C', line);
    } else if host_name(line) is Some {
        lemma_simple_line_one_line('H', line);
    } else if indent_printing(line) is Some {
        lemma_simple_line_one_line('I', line);
    } else if job_name_for_banner_page(line) is Some {
        lemma_simple_line_one_line('J', line);
    } else if mail_when_printed(line) is Some {
        lemma_simple_line_one_line('M', line);
    } else if name_of_source_file(line) is Some {
        lemma_simple_line_one_line('N', line);
    } else if user_identification(line) is Some {
        lemma_simple_line_one_line('P', line);
    } else if symbolic_link_data(line) is Some {
        lemma_symbolic_link_data_one_line(line);
    } else if title_for_pr(line) is Some {
        lemma_simple_line_one_line('T', line);
    } else if unlink_data_file(line) is Some {
        lemma_simple_line_one_line('U', line);
    } else if width_of_output(line) is Some {
        lemma_simple_line_one_line('W', line);
    } else if troff_font(line) is Some {
        lemma_kinded_line_one_line(troff_font_kind(line), line);
    } else if print_file(line) is Some {
        lemma_kinded_line_one_line(print_kind(line), line);
    } else if plot_file(line) is Some {
        lemma_kinded_line_one_line(plot_kind(line), line);
    } else if reserved_k(line) is Some {
        lemma_simple_line_one_line('k', line);
    } else {
        lemma_simple_line_one_line('z', line);
    }
}

/// Nothing stands behind the newline of a line: with anything behind it,
/// the text is no line.
pub proof fn lemma_nothing_behind_newline(line: Seq<char>, behind: Seq<char>)
    requires
        one_line(line),
        behind.len() > 0,
    ensures
        !one_line(line + behind),
{
    let s = line + behind;
    assert(s.drop_last()[line.len() - 1] == line.last());
}

/// Nothing stands behind the newline of a command line.
pub proof fn lemma_lpr_command_rejects_behind(line: Seq<char>, behind: Seq<char>)
    requires
        lpr_command(line) is Some,
        behind.len() > 0,
    ensures
        lpr_command(line + behind) is None,
{
    lemma_lpr_command_one_line(line);
    lemma_nothing_behind_newline(line, behind);
    if lpr_command(line + behind) is Some {
        lemma_lpr_command_one_line(line + behind);
    }
}

/// Nothing stands behind the newline of a subcommand line.
pub proof fn lemma_receive_job_subcommand_rejects_behind(line: Seq<char>, behind: Seq<char>)
    requires
        receive_job_subcommand(line) is Some,
        behind.len() > 0,
    ensures
        receive_job_subcommand(line + behind) is None,
{
    lemma_receive_job_subcommand_one_line(line);
    lemma_nothing_behind_newline(line, behind);
    if receive_job_subcommand(line + behind) is Some {
        lemma_receive_job_subcommand_one_line(line + behind);
    }
}

/// Nothing stands behind the newline of a control file line.
pub proof fn lemma_control_file_line_rejects_behind(line: Seq<char>, behind: Seq<char>)
    requires
        control_file_line(line) is Some,
        behind.len() > 0,
    ensures
        control_file_line(line + behind) is None,
{
    lemma_control_file_line_one_line(line);
    lemma_nothing_behind_newline(line, behind);
    if control_file_line(line + behind) is Some {
        lemma_control_file_line_one_line(line + behind);
    }
}

} // verus!
