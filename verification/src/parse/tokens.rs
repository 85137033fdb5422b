//! What the lexical tokens of the grammar are, said without the parser:
//! a name, a run of whitespace and a number as sequences of characters, and
//! the lemmas that tie them to the functions of [`grammar`].

use vstd::prelude::*;
use crate::parse::grammar::{
    after_tag, count, count_line, decimal_value, digit_value, is_digit, is_octet, is_whitespace,
    lemma_run_len_is, lemma_run_len_props, line_end, name_line, octet_seq, run_len, whitespace,
};

verus! {

/// A name: one character or more, none of them whitespace or the newline.
pub open spec fn is_name(s: Seq<char>) -> bool {
    s.len() > 0 && forall|k: int| 0 <= k < s.len() ==> is_octet(#[trigger] s[k])
}

/// A run of whitespace: one character or more.
pub open spec fn is_blank(s: Seq<char>) -> bool {
    s.len() > 0 && forall|k: int| 0 <= k < s.len() ==> is_whitespace(#[trigger] s[k])
}

/// The digits of a number: one or more.
pub open spec fn is_digits(s: Seq<char>) -> bool {
    s.len() > 0 && forall|k: int| 0 <= k < s.len() ==> is_digit(#[trigger] s[k])
}

/// No newline in `s`.
pub open spec fn no_newline(s: Seq<char>) -> bool {
    forall|k: int| 0 <= k < s.len() ==> #[trigger] s[k] != '\n'
}

/// A tag of one character is read off the first character.
pub proof fn lemma_after_tag(c: char, s: Seq<char>)
    ensures
        after_tag(seq![c], s) == if s.len() > 0 && s[0] == c {
            Some(s.skip(1))
        } else {
            None
        },
{
    let t = seq![c];
    if s.len() > 0 && s[0] == c {
        assert(t =~= s.subrange(0, 1));
    } else if s.len() > 0 {
        assert(t[0] == c);
        if t.is_prefix_of(s) {
            assert(s.subrange(0, 1)[0] == s[0]);
        }
    }
}

/// A name in front of what cannot continue it is read as that name.
pub proof fn lemma_octet_seq_of(name: Seq<char>, rest: Seq<char>)
    requires
        is_name(name),
        rest.len() == 0 || !is_octet(rest[0]),
    ensures
        octet_seq(name + rest) == Some((name, rest)),
{
    let s = name + rest;
    let n = name.len() as int;
    let p = |c: char| is_octet(c);
    assert forall|k: int| 0 <= k < n implies p(#[trigger] s[k]) by {
        assert(s[k] == name[k]);
    }
    if n < s.len() {
        assert(s[n] == rest[0]);
    }
    lemma_run_len_is(s, p, n);
    assert(s.take(n) =~= name);
    assert(s.skip(n) =~= rest);
}

/// What `octet_seq` reads is a name, and what it leaves cannot continue it.
pub proof fn lemma_octet_seq_split(s: Seq<char>)
    ensures
        match octet_seq(s) {
            Some((name, rest)) => {
                &&& s == name + rest
                &&& name == s.take(name.len() as int)
                &&& rest == s.skip(name.len() as int)
                &&& is_name(name)
                &&& rest.len() == 0 || !is_octet(rest[0])
            },
            None => s.len() == 0 || !is_octet(s[0]),
        },
{
    let p = |c: char| is_octet(c);
    lemma_run_len_props(s, p);
    let n = run_len(s, p) as int;
    if n > 0 {
        let name = s.take(n);
        let rest = s.skip(n);
        assert(s =~= name + rest);
        assert forall|k: int| 0 <= k < name.len() implies is_octet(#[trigger] name[k]) by {
            assert(p(s[k]));
        }
        if rest.len() > 0 {
            assert(rest[0] == s[n]);
        }
    }
}

/// Whitespace in front of what cannot continue it is read as that run.
pub proof fn lemma_whitespace_of(blank: Seq<char>, rest: Seq<char>)
    requires
        is_blank(blank),
        rest.len() == 0 || !is_whitespace(rest[0]),
    ensures
        whitespace(blank + rest) == Some(rest),
{
    let s = blank + rest;
    let n = blank.len() as int;
    let p = |c: char| is_whitespace(c);
    assert forall|k: int| 0 <= k < n implies p(#[trigger] s[k]) by {
        assert(s[k] == blank[k]);
    }
    if n < s.len() {
        assert(s[n] == rest[0]);
    }
    lemma_run_len_is(s, p, n);
    assert(s.skip(n) =~= rest);
}

/// What `whitespace` skips is a run of whitespace, and what it leaves cannot
/// continue it.
pub proof fn lemma_whitespace_split(s: Seq<char>)
    ensures
        match whitespace(s) {
            Some(rest) => {
                &&& rest.len() < s.len()
                &&& s == s.take(s.len() - rest.len()) + rest
                &&& rest == s.skip(s.len() - rest.len())
                &&& is_blank(s.take(s.len() - rest.len()))
                &&& rest.len() == 0 || !is_whitespace(rest[0])
            },
            None => s.len() == 0 || !is_whitespace(s[0]),
        },
{
    let p = |c: char| is_whitespace(c);
    lemma_run_len_props(s, p);
    let n = run_len(s, p) as int;
    if n > 0 {
        let blank = s.take(n);
        let rest = s.skip(n);
        assert(s =~= blank + rest);
        assert forall|k: int| 0 <= k < blank.len() implies is_whitespace(#[trigger] blank[k]) by {
            assert(p(s[k]));
        }
        if rest.len() > 0 {
            assert(rest[0] == s[n]);
        }
    }
}

/// Digits in front of what cannot continue them are read as their number,
/// if it fits.
pub proof fn lemma_count_of(digits: Seq<char>, rest: Seq<char>)
    requires
        is_digits(digits),
        rest.len() == 0 || !is_digit(rest[0]),
    ensures
        count(digits + rest) == if decimal_value(digits) <= usize::MAX {
            Some((decimal_value(digits) as usize, rest))
        } else {
            None
        },
{
    let s = digits + rest;
    let n = digits.len() as int;
    let p = |c: char| is_digit(c);
    assert forall|k: int| 0 <= k < n implies p(#[trigger] s[k]) by {
        assert(s[k] == digits[k]);
    }
    if n < s.len() {
        assert(s[n] == rest[0]);
    }
    lemma_run_len_is(s, p, n);
    assert(s.take(n) =~= digits);
    assert(s.skip(n) =~= rest);
}

/// What `count` reads are digits, and what it leaves cannot continue them.
pub proof fn lemma_count_split(s: Seq<char>)
    ensures
        match count(s) {
            Some((n, rest)) => {
                &&& rest.len() < s.len()
                &&& s == s.take(s.len() - rest.len()) + rest
                &&& rest == s.skip(s.len() - rest.len())
                &&& is_digits(s.take(s.len() - rest.len()))
                &&& decimal_value(s.take(s.len() - rest.len())) == n
                &&& rest.len() == 0 || !is_digit(rest[0])
            },
            None => true,
        },
{
    let p = |c: char| is_digit(c);
    lemma_run_len_props(s, p);
    let n = run_len(s, p) as int;
    if n > 0 {
        let digits = s.take(n);
        let rest = s.skip(n);
        assert(s =~= digits + rest);
        assert forall|k: int| 0 <= k < digits.len() implies is_digit(#[trigger] digits[k]) by {
            assert(p(s[k]));
        }
        if rest.len() > 0 {
            assert(rest[0] == s[n]);
        }
    }
}

/// A line that is a name and the newline, by its text before the newline.
pub proof fn lemma_name_line(body: Seq<char>)
    ensures
        name_line(body.push('\n')) == if is_name(body) {
            Some(body)
        } else {
            None::<Seq<char>>
        },
{
    let s = body.push('\n');
    let end = seq!['\n'];
    assert(s =~= body + end);
    if is_name(body) {
        lemma_octet_seq_of(body, end);
    } else {
        lemma_octet_seq_split(s);
        if let Some((name, rest)) = octet_seq(s) {
            if line_end(rest) {
                assert(name =~= s.take(s.len() - 1));
                assert(name =~= body);
            }
        }
    }
}

/// A line that is a count and the newline, by its text before the newline.
pub proof fn lemma_count_line(body: Seq<char>)
    ensures
        count_line(body.push('\n')) == if is_digits(body) && decimal_value(body) <= usize::MAX {
            Some(decimal_value(body) as usize)
        } else {
            None::<usize>
        },
{
    let s = body.push('\n');
    let end = seq!['\n'];
    assert(s =~= body + end);
    if is_digits(body) {
        lemma_count_of(body, end);
    } else {
        lemma_count_split(s);
        if let Some((n, rest)) = count(s) {
            if line_end(rest) {
                assert(s.take(s.len() - rest.len()) =~= body);
            }
        }
    }
}

/// One more digit: ten times the number, and the digit.
pub proof fn lemma_decimal_value_push(s: Seq<char>, c: char)
    ensures
        decimal_value(s.push(c)) == 10 * decimal_value(s) + digit_value(c),
{
    assert(s.push(c).drop_last() =~= s);
}

} // verus!
