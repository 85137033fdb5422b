//! The grammar of the protocol's lines, and the trait through which a
//! session reads them.

pub mod grammar;
pub mod lists;
pub mod raw;
pub mod tokens;
pub mod trailing;
pub mod wire;

use vstd::prelude::*;
use crate::lpd::{
    ControlFileLine, ControlFileLineModel, LprCommand, LprCommandModel, ReceiveJobSubcommand,
    ReceiveJobSubcommandModel,
};

verus! {

/// The grammar of [`grammar`].
pub struct Parser;

/// A line that the grammar does not accept. It says no more than that: who
/// wants to know why keeps the line.
#[derive(Debug, Clone, Copy, PartialEq, Eq, Structural)]
pub enum ParseError {
    Other,
}

/// A grammar: three functions from a line, with its newline, to what it
/// writes.
///
/// A parser may promise that each of them is a function of the line alone
/// and name it: it then says so in [`Parse::follows_grammar`] and gives the
/// three spec functions. What a session does can then be said in advance.
/// A parser that promises nothing needs only the three functions; a session
/// then still says what it does with whatever they give.
pub trait Parse {
    type Error;

    /// Whether the parser gives for each line what its spec functions give.
    open spec fn follows_grammar() -> bool {
        false
    }

    /// The top-level command that the line `i` writes, if it writes one.
    open spec fn lpr_command(i: Seq<char>) -> Option<LprCommandModel> {
        None
    }

    /// The subcommand of a job that the line `i` writes, if it writes one.
    open spec fn receive_job_subcommand(i: Seq<char>) -> Option<ReceiveJobSubcommandModel> {
        None
    }

    /// The control file line that `i` writes, if it writes one.
    open spec fn control_file_line(i: Seq<char>) -> Option<ControlFileLineModel> {
        None
    }

    fn parse_lpr_command(i: &str) -> (r: Result<LprCommand, Self::Error>)
        ensures
            Self::follows_grammar() ==> match r {
                Ok(c) => Self::lpr_command(i@) == Some(c@),
                Err(_) => Self::lpr_command(i@) is None,
            },
    ;

    fn parse_receive_job_subcommand(i: &str) -> (r: Result<ReceiveJobSubcommand, Self::Error>)
        ensures
            Self::follows_grammar() ==> match r {
                Ok(c) => Self::receive_job_subcommand(i@) == Some(c@),
                Err(_) => Self::receive_job_subcommand(i@) is None,
            },
    ;

    fn parse_control_file_line(i: &str) -> (r: Result<ControlFileLine, Self::Error>)
        ensures
            Self::follows_grammar() ==> match r {
                Ok(c) => Self::control_file_line(i@) == Some(c@),
                Err(_) => Self::control_file_line(i@) is None,
            },
    ;
}

impl Parse for Parser {
    type Error = ParseError;

    open spec fn follows_grammar() -> bool {
        true
    }

    open spec fn lpr_command(i: Seq<char>) -> Option<LprCommandModel> {
        grammar::lpr_command(i)
    }

    open spec fn receive_job_subcommand(i: Seq<char>) -> Option<ReceiveJobSubcommandModel> {
        grammar::receive_job_subcommand(i)
    }

    open spec fn control_file_line(i: Seq<char>) -> Option<ControlFileLineModel> {
        grammar::control_file_line(i)
    }

    fn parse_lpr_command(i: &str) -> (r: Result<LprCommand, ParseError>)
        ensures
            match r {
                Ok(c) => grammar::lpr_command(i@) == Some(c@),
                Err(e) => grammar::lpr_command(i@) is None && e == ParseError::Other,
            },
    {
        match raw::lpr_command_parser(i) {
            Some(x) => Ok(x),
            None => Err(ParseError::Other),
        }
    }

    fn parse_receive_job_subcommand(i: &str) -> (r: Result<ReceiveJobSubcommand, ParseError>)
        ensures
            match r {
                Ok(c) => grammar::receive_job_subcommand(i@) == Some(c@),
                Err(e) => grammar::receive_job_subcommand(i@) is None && e == ParseError::Other,
            },
    {
        match raw::receive_job_subcommand_parser(i) {
            Some(x) => Ok(x),
            None => Err(ParseError::Other),
        }
    }

    fn parse_control_file_line(i: &str) -> (r: Result<ControlFileLine, ParseError>)
        ensures
            match r {
                Ok(c) => grammar::control_file_line(i@) == Some(c@),
                Err(e) => grammar::control_file_line(i@) is None && e == ParseError::Other,
            },
    {
        match raw::control_file_line_parser(i) {
            Some(x) => Ok(x),
            None => Err(ParseError::Other),
        }
    }
}

} // verus!
