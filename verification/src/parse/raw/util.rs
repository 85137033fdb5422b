//! The lexical tokens.

use vstd::prelude::*;
use crate::lpd::names;
use crate::parse::grammar::{
    after_tag, count, kind_tag, count_line, filters_line, line_end, name_line, simple_count_line, simple_line, decimal_value, digit_value, filter_list, is_digit, is_octet, is_whitespace,
    lemma_decimal_value_grows, lemma_run_len_is, more_names, octet_seq, whitespace,
};
use crate::parse::raw::lexer;

verus! {

/// A run of whitespace at the front of `i`: what follows it and the run.
pub fn whitespace_parser(i: &str) -> (r: Option<(&str, &str)>)
    ensures
        match r {
            Some((rest, found)) => whitespace(i@) == Some(rest@) && i@ == found@ + rest@,
            None => whitespace(i@) is None,
        },
{
    let r = lexer::is_a(" \x0B\t\x0C", i);
    proof {
        reveal_strlit(" \x0B\t\x0C");
        let set = " \x0B\t\x0C"@;
        assert(set =~= seq![' ', '\x0B', '\t', '\x0C']);
        assert forall|c: char| set.contains(c) <==> is_whitespace(c) by {
            if is_whitespace(c) {
                assert(set[0] == ' ' && set[1] == '\x0B' && set[2] == '\t' && set[3] == '\x0C');
            }
        }
        let p = |c: char| is_whitespace(c);
        match r {
            Some((rest, found)) => {
                let n = found@.len() as int;
                assert forall|k: int| 0 <= k < n implies p(#[trigger] i@[k]) by {
                    assert(i@[k] == found@[k]);
                }
                if n < i@.len() {
                    assert(i@[n] == rest@[0]);
                }
                lemma_run_len_is(i@, p, n);
                assert(i@.skip(n) =~= rest@);
            },
            None => {
                lemma_run_len_is(i@, p, 0);
            },
        }
    }
    r
}

/// A name at the front of `i`: what follows it and the name.
pub fn octet_seq_parser(i: &str) -> (r: Option<(&str, &str)>)
    ensures
        match r {
            Some((rest, found)) => octet_seq(i@) == Some((found@, rest@)) && i@ == found@ + rest@,
            None => octet_seq(i@) is None,
        },
{
    let r = lexer::is_not(" \x0B\t\x0C\n", i);
    proof {
        reveal_strlit(" \x0B\t\x0C\n");
        let set = " \x0B\t\x0C\n"@;
        assert(set =~= seq![' ', '\x0B', '\t', '\x0C', '\n']);
        assert forall|c: char| set.contains(c) <==> !is_octet(c) by {
            if !is_octet(c) {
                assert(set[0] == ' ' && set[1] == '\x0B' && set[2] == '\t' && set[3] == '\x0C'
                    && set[4] == '\n');
            }
        }
        let p = |c: char| is_octet(c);
        match r {
            Some((rest, found)) => {
                let n = found@.len() as int;
                assert forall|k: int| 0 <= k < n implies p(#[trigger] i@[k]) by {
                    assert(i@[k] == found@[k]);
                }
                if n < i@.len() {
                    assert(i@[n] == rest@[0]);
                }
                lemma_run_len_is(i@, p, n);
                assert(i@.skip(n) =~= rest@);
                assert(i@.take(n) =~= found@);
            },
            None => {
                lemma_run_len_is(i@, p, 0);
            },
        }
    }
    r
}

/// The number that `digits` write, unless it is too large for a `usize`.
fn decimal(digits: &str) -> (r: Option<usize>)
    requires
        forall|k: int| 0 <= k < digits@.len() ==> is_digit(#[trigger] digits@[k]),
    ensures
        match r {
            Some(n) => n == decimal_value(digits@),
            None => decimal_value(digits@) > usize::MAX,
        },
{
    let bytes = digits.as_bytes();
    proof {
        assert(vstd::string::is_ascii(digits));
        vstd::string::is_ascii_spec_bytes(digits);
    }
    let mut acc: usize = 0;
    let mut k: usize = 0;
    while k < bytes.len()
        invariant
            k <= bytes@.len(),
            bytes@.len() == digits@.len(),
            forall|j: int| 0 <= j < digits@.len() ==> is_digit(#[trigger] digits@[j]),
            forall|j: int| 0 <= j < digits@.len() ==> bytes@[j] == #[trigger] digits@[j] as u8,
            acc == decimal_value(digits@.take(k as int)),
        decreases bytes@.len() - k,
    {
        let b: u8 = bytes[k];
        proof {
            let front = digits@.take(k + 1);
            assert(front.drop_last() =~= digits@.take(k as int));
            assert(front.last() == digits@[k as int]);
            assert(is_digit(digits@[k as int]));
            assert(digit_value(digits@[k as int]) == b - 48);
            lemma_decimal_value_grows(digits@, k + 1);
        }
        let d: usize = (b - 48) as usize;
        match acc.checked_mul(10) {
            None => {
                return None;
            },
            Some(tens) => match tens.checked_add(d) {
                None => {
                    return None;
                },
                Some(next) => {
                    acc = next;
                },
            },
        }
        k += 1;
    }
    assert(digits@.take(k as int) =~= digits@);
    Some(acc)
}

/// A count at the front of `i`: what follows it and the number.
pub fn count_parser(i: &str) -> (r: Option<(&str, usize)>)
    ensures
        match r {
            Some((rest, n)) => count(i@) == Some((n, rest@)),
            None => count(i@) is None,
        },
{
    let p = Ghost(|c: char| is_digit(c));
    match lexer::digit1(i) {
        None => {
            proof {
                lemma_run_len_is(i@, p@, 0);
            }
            None
        },
        Some((rest, digits)) => {
            proof {
                let n = digits@.len() as int;
                assert forall|k: int| 0 <= k < n implies (p@)(#[trigger] i@[k]) by {
                    assert(i@[k] == digits@[k]);
                }
                if n < i@.len() {
                    assert(i@[n] == rest@[0]);
                }
                lemma_run_len_is(i@, p@, n);
                assert(i@.skip(n) =~= rest@);
                assert(i@.take(n) =~= digits@);
            }
            match decimal(digits) {
                Some(n) => Some((rest, n)),
                None => None,
            }
        },
    }
}

/// A filter list at the front of `i`, maybe empty: what follows it and its names.
pub fn list_parser(i: &str) -> (r: (&str, Vec<String>))
    ensures
        filter_list(i@) == (names(r.1@), r.0@),
{
    let mut list: Vec<String> = Vec::new();
    let mut cur: &str = i;
    match octet_seq_parser(i) {
        None => {
            assert(names(list@) =~= Seq::<Seq<char>>::empty());
            return (i, list);
        },
        Some((rest, name)) => {
            list.push(name.to_owned());
            cur = rest;
            assert(names(list@) =~= seq![name@]);
        },
    }
    loop
        invariant
            filter_list(i@) == (names(list@) + more_names(cur@).0, more_names(cur@).1),
        decreases cur@.len(),
    {
        match whitespace_parser(cur) {
            None => {
                assert(names(list@) + Seq::<Seq<char>>::empty() =~= names(list@));
                return (cur, list);
            },
            Some((after, _)) => match octet_seq_parser(after) {
                None => {
                    assert(names(list@) + Seq::<Seq<char>>::empty() =~= names(list@));
                    return (cur, list);
                },
                Some((rest, name)) => {
                    proof {
                        let ghost before = names(list@);
                        assert((before + seq![name@]) + more_names(rest@).0 =~= before + (seq![
                            name@,
                        ] + more_names(rest@).0));
                    }
                    let ghost before = names(list@);
                    list.push(name.to_owned());
                    assert(names(list@) =~= before + seq![name@]);
                    cur = rest;
                },
            },
        }
    }
}

/// What follows `t` at the front of `i`, when `i` begins with it.
pub fn tagged<'a>(t: &str, i: &'a str) -> (r: Option<&'a str>)
    ensures
        match r {
            Some(rest) => after_tag(t@, i@) == Some(rest@),
            None => after_tag(t@, i@) is None,
        },
{
    let r = lexer::tag(t, i);
    proof {
        if let Some(rest) = r {
            assert(i@.subrange(0, t@.len() as int) =~= t@);
            assert(i@.skip(t@.len() as int) =~= rest@);
        }
    }
    r
}

/// The tag `tag_text` at the front of `i`, which stands for `kind`: what
/// follows it and the kind.
pub fn mini_parser<'a, K>(tag_text: &str, kind: K, i: &'a str) -> (r: Option<(&'a str, K)>)
    ensures
        match r {
            Some((rest, k)) => kind_tag(tag_text@, kind, i@) == Some((k, rest@)),
            None => kind_tag(tag_text@, kind, i@) is None,
        },
{
    match tagged(tag_text, i) {
        Some(rest) => Some((rest, kind)),
        None => None,
    }
}

/// Whether `i` is the newline that ends a line, with nothing behind it.
pub fn at_line_end(i: &str) -> (b: bool)
    ensures
        b == line_end(i@),
{
    match lexer::char('\n', i) {
        Some(rest) => {
            let b = rest.is_empty();
            assert(b ==> i@ =~= seq!['\n']);
            assert(!b ==> i@.len() > 1);
            b
        },
        None => false,
    }
}

/// A name and the end of the line: the name.
pub fn name_line_parser(i: &str) -> (r: Option<&str>)
    ensures
        match r {
            Some(name) => name_line(i@) == Some(name@),
            None => name_line(i@) is None,
        },
{
    match octet_seq_parser(i) {
        Some((rest, name)) => {
            if at_line_end(rest) {
                Some(name)
            } else {
                None
            }
        },
        None => None,
    }
}

/// A count and the end of the line: the number.
pub fn count_line_parser(i: &str) -> (r: Option<usize>)
    ensures
        r == count_line(i@),
{
    match count_parser(i) {
        Some((rest, n)) => {
            if at_line_end(rest) {
                Some(n)
            } else {
                None
            }
        },
        None => None,
    }
}

/// Whitespace, a filter list and the end of the line: the names.
pub fn filters_line_parser(i: &str) -> (r: Option<Vec<String>>)
    ensures
        match r {
            Some(list) => filters_line(i@) == Some(names(list@)),
            None => filters_line(i@) is None,
        },
{
    match whitespace_parser(i) {
        Some((rest, _)) => {
            let (end, list) = list_parser(rest);
            if at_line_end(end) {
                Some(list)
            } else {
                None
            }
        },
        None => None,
    }
}

/// The tag `tag_text`, a name, the end of the line: the name.
pub fn simple_line_parser<'a>(tag_text: &str, i: &'a str) -> (r: Option<&'a str>)
    ensures
        match r {
            Some(name) => simple_line(tag_text@, i@) == Some(name@),
            None => simple_line(tag_text@, i@) is None,
        },
{
    match tagged(tag_text, i) {
        Some(rest) => name_line_parser(rest),
        None => None,
    }
}

/// The tag `tag_text`, a count, the end of the line: the number.
pub fn simple_count_line_parser(tag_text: &str, i: &str) -> (r: Option<usize>)
    ensures
        r == simple_count_line(tag_text@, i@),
{
    match tagged(tag_text, i) {
        Some(rest) => count_line_parser(rest),
        None => None,
    }
}

} // verus!
