//! Reading the number of used inodes out of the table that the host's
//! inode accounting prints.
//!
//! The table has a heading line and, below it, one line for the filesystem
//! asked about. The third column of that line is the number of inodes in use.

use crate::text::{
    blank, chars_of, find_newline, first_where, lemma_first_where, newline, parse_u64,
    parse_up_to, skip_blank, skip_solid, solid,
};
use vstd::prelude::*;
use vstd::slice::slice_subrange;

verus! {

/// Why no inode usage could be told.
#[derive(Clone, Copy, Debug, PartialEq, Eq, Structural)]
pub enum ProbeError {
    /// The accounting command could not be run or reported failure.
    CommandFailed,
    /// The output has no line below the heading.
    MissingDataLine,
    /// The line below the heading has fewer than three columns.
    MissingField,
    /// The third column is not a number of at most 64 bits.
    InvalidNumber,
}

/// What came of asking the host for its inode accounting.
pub enum ProbeReport {
    /// The host has no such accounting.
    Unsupported,
    /// The accounting command could not be run or reported failure.
    Failed,
    /// What the accounting command printed.
    Output(String),
}

/// The second line of `output`: what stands between its first line break and
/// the next, or the end. `None` where no line break occurs.
pub open spec fn data_line(output: Seq<char>) -> Option<Seq<char>> {
    let heading_end = first_where(output, 0, newline());
    if heading_end >= output.len() {
        None
    } else {
        Some(output.subrange(heading_end + 1, first_where(output, heading_end + 1, newline())))
    }
}

/// The column of `line` that stands `skip` columns after the first one that
/// begins at or after `from`. Columns are the runs of characters between
/// white space. `None` where the line has too few of them.
pub open spec fn column(line: Seq<char>, from: int, skip: nat) -> Option<Seq<char>>
    decreases skip,
{
    let start = first_where(line, from, solid());
    let end = first_where(line, start, blank());
    if start >= line.len() {
        None
    } else if skip == 0 {
        Some(line.subrange(start, end))
    } else {
        column(line, end, (skip - 1) as nat)
    }
}

/// The number of used inodes that `output` reports, or what is wrong with
/// it.
pub open spec fn reported_usage(output: Seq<char>) -> Result<u64, ProbeError> {
    match data_line(output) {
        None => Err(ProbeError::MissingDataLine),
        Some(line) => match column(line, 0, 2) {
            None => Err(ProbeError::MissingField),
            Some(text) => match parse_up_to(text, u64::MAX as nat) {
                None => Err(ProbeError::InvalidNumber),
                Some(number) => Ok(number as u64),
            },
        },
    }
}

/// The inode usage that a report amounts to: zero where the host has no
/// accounting, an error where the command failed, and else what its output
/// says.
pub open spec fn usage_of(report: ProbeReport) -> Result<u64, ProbeError> {
    match report {
        ProbeReport::Unsupported => Ok(0),
        ProbeReport::Failed => Err(ProbeError::CommandFailed),
        ProbeReport::Output(output) => reported_usage(output@),
    }
}

/// The column of `line` that stands `skip` columns after the first one that
/// begins at or after `from`, as the places where it begins and ends.
fn find_column(line: &[char], from: usize, skip: usize) -> (found: Option<(usize, usize)>)
    requires
        from <= line@.len(),
    ensures
        match found {
            Some((start, end)) => start <= end <= line@.len() && column(
                line@,
                from as int,
                skip as nat,
            ) == Some(line@.subrange(start as int, end as int)),
            None => column(line@, from as int, skip as nat) is None,
        },
{
    let mut at: usize = from;
    let mut left: usize = skip;
    loop
        invariant
            at <= line@.len(),
            column(line@, at as int, left as nat) == column(line@, from as int, skip as nat),
        decreases left,
    {
        let start = skip_blank(line, at);
        proof {
            lemma_first_where(line@, at as int, solid());
        }
        if start >= line.len() {
            return None;
        }
        let end = skip_solid(line, start);
        proof {
            lemma_first_where(line@, start as int, blank());
        }
        if left == 0 {
            return Some((start, end));
        }
        at = end;
        left = left - 1;
    }
}

/// The number of used inodes that the accounting output reports.
pub fn parse_inode_usage(output: &str) -> (usage: Result<u64, ProbeError>)
    ensures
        usage == reported_usage(output@),
{
    let chars = chars_of(output);
    let heading_end = find_newline(chars.as_slice(), 0);
    if heading_end >= chars.len() {
        return Err(ProbeError::MissingDataLine);
    }
    let line_end = find_newline(chars.as_slice(), heading_end + 1);
    proof {
        lemma_first_where(chars@, heading_end + 1, newline());
    }
    let line = slice_subrange(chars.as_slice(), heading_end + 1, line_end);
    match find_column(line, 0, 2) {
        None => Err(ProbeError::MissingField),
        Some((start, end)) => match parse_u64(slice_subrange(line, start, end)) {
            None => Err(ProbeError::InvalidNumber),
            Some(number) => Ok(number),
        },
    }
}

/// The inode usage that a report amounts to.
pub fn get_inode_usage(report: &ProbeReport) -> (usage: Result<u64, ProbeError>)
    ensures
        usage == usage_of(*report),
{
    match report {
        ProbeReport::Unsupported => Ok(0),
        ProbeReport::Failed => Err(ProbeError::CommandFailed),
        ProbeReport::Output(output) => parse_inode_usage(output.as_str()),
    }
}

} // verus!
