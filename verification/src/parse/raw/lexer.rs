//! The lexical primitives, taken from `nom`.

use vstd::prelude::*;

verus! {

/// `nom::bytes::complete::tag` on `&str`: when `i` begins with `t`, what follows it.
#[verifier::external_body]
pub(crate) fn tag<'a>(t: &str, i: &'a str) -> (r: Option<&'a str>)
    ensures
        match r {
            Some(rest) => i@ == t@ + rest@,
            None => !t@.is_prefix_of(i@),
        },
{
    match nom::bytes::complete::tag::<&str, &'a str, (&'a str, nom::error::ErrorKind)>(t)(i) {
        Ok((rest, _)) => Some(rest),
        Err(_) => None,
    }
}

/// `nom::character::complete::char` on `&str`: when `i` begins with `c`, what follows it.
#[verifier::external_body]
pub(crate) fn char<'a>(c: char, i: &'a str) -> (r: Option<&'a str>)
    ensures
        match r {
            Some(rest) => i@ == seq![c] + rest@,
            None => i@.len() == 0 || i@[0] != c,
        },
{
    match nom::character::complete::char::<&'a str, (&'a str, nom::error::ErrorKind)>(c)(i) {
        Ok((rest, _)) => Some(rest),
        Err(_) => None,
    }
}

/// `nom::bytes::complete::is_a` on `&str`: the longest front of `i` made of
/// characters of `set`, second in the pair, and what follows it, first. `None`
/// when that front is empty.
#[verifier::external_body]
pub(crate) fn is_a<'a>(set: &str, i: &'a str) -> (r: Option<(&'a str, &'a str)>)
    ensures
        match r {
            Some((rest, found)) => {
                &&& found@.len() > 0
                &&& i@ == found@ + rest@
                &&& forall|k: int| 0 <= k < found@.len() ==> set@.contains(#[trigger] found@[k])
                &&& rest@.len() > 0 ==> !set@.contains(rest@[0])
            },
            None => i@.len() == 0 || !set@.contains(i@[0]),
        },
{
    match nom::bytes::complete::is_a::<&str, &'a str, (&'a str, nom::error::ErrorKind)>(set)(i) {
        Ok(found) => Some(found),
        Err(_) => None,
    }
}

/// `nom::bytes::complete::is_not` on `&str`: the longest front of `i` made of
/// characters that are not in `set`, second in the pair, and what follows it,
/// first. `None` when that front is empty.
#[verifier::external_body]
pub(crate) fn is_not<'a>(set: &str, i: &'a str) -> (r: Option<(&'a str, &'a str)>)
    ensures
        match r {
            Some((rest, found)) => {
                &&& found@.len() > 0
                &&& i@ == found@ + rest@
                &&& forall|k: int| 0 <= k < found@.len() ==> !set@.contains(#[trigger] found@[k])
                &&& rest@.len() > 0 ==> set@.contains(rest@[0])
            },
            None => i@.len() == 0 || set@.contains(i@[0]),
        },
{
    match nom::bytes::complete::is_not::<&str, &'a str, (&'a str, nom::error::ErrorKind)>(set)(i) {
        Ok(found) => Some(found),
        Err(_) => None,
    }
}

/// `nom::character::complete::digit1` on `&str`: the longest front of `i` made
/// of the digits `0` to `9`, second in the pair, and what follows it, first.
/// `None` when that front is empty.
#[verifier::external_body]
pub(crate) fn digit1<'a>(i: &'a str) -> (r: Option<(&'a str, &'a str)>)
    ensures
        match r {
            Some((rest, found)) => {
                &&& found@.len() > 0
                &&& i@ == found@ + rest@
                &&& forall|k: int| 0 <= k < found@.len() ==> '0' <= #[trigger] found@[k] <= '9'
                &&& rest@.len() > 0 ==> !('0' <= rest@[0] <= '9')
            },
            None => i@.len() == 0 || !('0' <= i@[0] <= '9'),
        },
{
    match nom::character::complete::digit1::<&'a str, (&'a str, nom::error::ErrorKind)>(i) {
        Ok(found) => Some(found),
        Err(_) => None,
    }
}

} // verus!
