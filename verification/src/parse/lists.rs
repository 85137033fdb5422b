//! Filter lists: which texts the grammar reads as one, up to the newline.

use vstd::prelude::*;
use crate::parse::grammar::{
    filter_list, filters_line, is_octet, is_whitespace, line_end, more_names, octet_seq, whitespace,
};
use crate::parse::tokens::{is_blank, lemma_octet_seq_split, lemma_whitespace_split, no_newline};

verus! {

/// What `more_names` leaves is the end of its input, and what it has read
/// holds no newline.
pub proof fn lemma_more_names_reads(s: Seq<char>)
    ensures
        more_names(s).1.len() <= s.len(),
        more_names(s).1 == s.skip(s.len() - more_names(s).1.len()),
        no_newline(s.take(s.len() - more_names(s).1.len())),
    decreases s.len(),
{
    lemma_whitespace_split(s);
    match whitespace(s) {
        None => {
            assert(s.skip(0) =~= s);
        },
        Some(r) => {
            lemma_octet_seq_split(r);
            match octet_seq(r) {
                None => {
                    assert(s.skip(0) =~= s);
                },
                Some((t, r2)) => {
                    lemma_more_names_reads(r2);
                    let rest = more_names(r2).1;
                    assert(more_names(s).1 == rest);
                    let a = s.len() - r.len();
                    let b = r.len() - r2.len();
                    let c = r2.len() - rest.len();
                    assert(r == s.skip(a)) by {
                        assert(s.skip(a) =~= r);
                    }
                    assert(r2 =~= r.skip(b));
                    assert(rest =~= s.skip(a + b + c));
                    let read = s.take(a + b + c);
                    assert forall|k: int| 0 <= k < read.len() implies #[trigger] read[k]
                        != '\n' by {
                        if k < a {
                            assert(s.take(a)[k] == s[k]);
                        } else if k < a + b {
                            assert(s[k] == r[k - a]);
                            assert(r[k - a] == t[k - a]);
                        } else {
                            assert(s[k] == r2[k - a - b]);
                            assert(r2.take(c)[k - a - b] == r2[k - a - b]);
                        }
                    }
                },
            }
        },
    }
}

/// Behind a name, up to the newline: `more_names` reads all of a text that
/// holds no newline when it is empty, or begins with whitespace and ends with
/// a name. It then finds no name only in the empty text.
pub proof fn lemma_more_names_to_end(g: Seq<char>)
    requires
        no_newline(g),
    ensures
        line_end(more_names(g.push('\n')).1) <==> (g.len() == 0 || (is_whitespace(g[0])
            && is_octet(g.last()))),
        line_end(more_names(g.push('\n')).1) ==> (more_names(g.push('\n')).0.len() == 0 <==> g.len()
            == 0),
    decreases g.len(),
{
    let x = g.push('\n');
    lemma_whitespace_split(x);
    match whitespace(x) {
        None => {
            if g.len() > 0 {
                assert(x[0] == g[0]);
            } else {
                assert(x =~= seq!['\n']);
            }
        },
        Some(r) => {
            let k = x.len() - r.len();
            assert(x[0] == x.take(k)[0]);
            assert(x.take(k)[k - 1] == x[k - 1]);
            assert(k <= g.len());
            assert(r =~= g.skip(k).push('\n'));
            assert(is_whitespace(g[k - 1]));
            lemma_octet_seq_split(r);
            match octet_seq(r) {
                None => {
                    assert(r[0] == x[k]);
                    assert(g.len() == k) by {
                        if k < g.len() {
                            assert(r[0] == g[k]);
                            assert(g[k] != '\n');
                        }
                    }
                },
                Some((t, r2)) => {
                    let m = t.len() as int;
                    assert(m <= g.len() - k) by {
                        if m > g.len() - k {
                            assert(t[g.len() - k] == r[g.len() - k]);
                        }
                    }
                    let g2 = g.skip(k + m);
                    assert(r2 =~= g2.push('\n'));
                    assert(t[m - 1] == r[m - 1]);
                    assert(is_octet(g[k + m - 1]));
                    lemma_more_names_to_end(g2);
                    assert(more_names(x).0 =~= seq![t] + more_names(r2).0);
                    if g2.len() > 0 {
                        assert(g2[0] == r2[0]);
                        assert(g2[0] == g[k + m]);
                        assert(g2.last() == g.last());
                    }
                },
            }
        },
    }
}

/// Up to the newline: `filter_list` reads all of a text that holds no newline
/// when it is empty, or begins and ends with a name. It then finds no name
/// only in the empty text.
pub proof fn lemma_filter_list_to_end(f: Seq<char>)
    requires
        no_newline(f),
    ensures
        line_end(filter_list(f.push('\n')).1) <==> (f.len() == 0 || (is_octet(f[0]) && is_octet(
            f.last(),
        ))),
        line_end(filter_list(f.push('\n')).1) ==> (filter_list(f.push('\n')).0.len() == 0 <==> f.len()
            == 0),
{
    let x = f.push('\n');
    lemma_octet_seq_split(x);
    match octet_seq(x) {
        None => {
            if f.len() > 0 {
                assert(x[0] == f[0]);
            } else {
                assert(x =~= seq!['\n']);
            }
        },
        Some((t, r)) => {
            let m = t.len() as int;
            assert(t[0] == x[0]);
            assert(x[0] == f[0]);
            assert(m <= f.len()) by {
                if m > f.len() {
                    assert(t[f.len() as int] == x[f.len() as int]);
                }
            }
            let g = f.skip(m);
            assert(r =~= g.push('\n'));
            assert(t[m - 1] == x[m - 1]);
            lemma_more_names_to_end(g);
            assert(filter_list(x).0 =~= seq![t] + more_names(r).0);
            if g.len() > 0 {
                assert(g[0] == r[0]);
                assert(g.last() == f.last());
            }
        },
    }
}

/// What `filter_list` leaves is the end of its input, and what it has read
/// holds no newline.
pub proof fn lemma_filter_list_reads(s: Seq<char>)
    ensures
        filter_list(s).1.len() <= s.len(),
        filter_list(s).1 == s.skip(s.len() - filter_list(s).1.len()),
        no_newline(s.take(s.len() - filter_list(s).1.len())),
{
    lemma_octet_seq_split(s);
    match octet_seq(s) {
        None => {
            assert(s.skip(0) =~= s);
        },
        Some((t, r)) => {
            lemma_more_names_reads(r);
            let rest = more_names(r).1;
            let a = t.len() as int;
            let c = r.len() - rest.len();
            assert(r =~= s.skip(a));
            assert(rest =~= s.skip(a + c));
            let read = s.take(a + c);
            assert forall|k: int| 0 <= k < read.len() implies #[trigger] read[k] != '\n' by {
                if k < a {
                    assert(s[k] == t[k]);
                } else {
                    assert(s[k] == r[k - a]);
                    assert(r.take(c)[k - a] == r[k - a]);
                }
            }
        },
    }
}

/// A line that `filters_line` accepts ends with the only newline in it.
pub proof fn lemma_filters_line_newline(s: Seq<char>)
    requires
        filters_line(s) is Some,
    ensures
        s.len() >= 2,
        s.last() == '\n',
        no_newline(s.drop_last()),
        is_whitespace(s[0]),
{
    lemma_whitespace_split(s);
    let r = whitespace(s)->0;
    lemma_filter_list_reads(r);
    let a = s.len() - r.len();
    let c = r.len() - 1;
    assert(filter_list(r).1 =~= seq!['\n']);
    assert(r.skip(c)[0] == r[c]);
    assert(r =~= s.skip(a));
    assert(s.take(a)[0] == s[0]);
    let body = s.drop_last();
    assert forall|k: int| 0 <= k < body.len() implies #[trigger] body[k] != '\n' by {
        if k < a {
            assert(s.take(a)[k] == s[k]);
        } else {
            assert(s[k] == r[k - a]);
            assert(r.take(c)[k - a] == r[k - a]);
        }
    }
}

/// Whitespace and a filter list up to the newline, by the text before the
/// newline: it begins with whitespace and is all whitespace or ends with a
/// name. The list is empty where it is all whitespace.
pub proof fn lemma_filters_line(h: Seq<char>)
    requires
        no_newline(h),
    ensures
        filters_line(h.push('\n')) is Some <==> h.len() > 0 && is_whitespace(h[0]) && (is_octet(
            h.last(),
        ) || is_blank(h)),
        filters_line(h.push('\n')) is Some ==> (filters_line(h.push('\n'))->0.len() == 0 <==> is_blank(
            h,
        )),
{
    let x = h.push('\n');
    lemma_whitespace_split(x);
    match whitespace(x) {
        None => {
            if h.len() > 0 {
                assert(x[0] == h[0]);
            }
        },
        Some(r) => {
            let k = x.len() - r.len();
            let blank = x.take(k);
            assert(blank[0] == x[0]);
            assert(blank[k - 1] == x[k - 1]);
            assert(k <= h.len());
            let f = h.skip(k);
            assert(r =~= f.push('\n'));
            lemma_filter_list_to_end(f);
            if f.len() > 0 {
                assert(f[0] == r[0]);
                assert(f[0] == h[k]);
                assert(f.last() == h.last());
                assert(!is_whitespace(h[k]));
            } else {
                assert forall|j: int| 0 <= j < h.len() implies is_whitespace(#[trigger] h[j]) by {
                    assert(blank[j] == h[j]);
                }
            }
        },
    }
}

} // verus!
